//! The collector registry: collectors kept under unique names.

use vstd::prelude::*;

use super::error::{CollectorError, ErrorModel};
use super::types::CollectorResult;
use crate::text::str_eq;

verus! {

/// A collector together with the name it is registered under.
pub struct DynWrapper<T> {
    inner: T,
    name: &'static str,
}

impl<T> DynWrapper<T> {
    /// Wraps `inner` under `name`.
    pub fn new(name: &'static str, inner: T) -> (r: Self)
        ensures
            r.name_view() == name@,
            r.inner_view() == inner,
    {
        Self { name, inner }
    }

    /// The registered name.
    pub closed spec fn name_view(&self) -> Seq<char> {
        self.name@
    }

    /// The wrapped collector.
    pub closed spec fn inner_view(&self) -> T {
        self.inner
    }

    /// The registered name.
    pub fn name(&self) -> (r: &'static str)
        ensures
            r@ == self.name_view(),
    {
        self.name
    }

    /// The wrapped collector.
    pub fn inner(&self) -> (r: &T)
        ensures
            *r == self.inner_view(),
    {
        &self.inner
    }
}

impl<T: Clone> Clone for DynWrapper<T> {
    /// A copy under the same name, with a clone of the collector.
    fn clone(&self) -> (r: Self)
        ensures
            r.name_view() == self.name_view(),
            cloned(self.inner_view(), r.inner_view()),
    {
        DynWrapper { inner: self.inner.clone(), name: self.name }
    }
}

/// Collectors of type `C` under unique names.
pub struct CollectorRegistry<C> {
    collectors: Vec<(&'static str, C)>,
}

/// The names of the entries, in order.
pub open spec fn entry_names<C>(es: Seq<(&'static str, C)>) -> Seq<Seq<char>> {
    es.map_values(|e: (&'static str, C)| e.0@)
}

/// The position of the entry named `k`.
pub open spec fn entry_index<C>(es: Seq<(&'static str, C)>, k: Seq<char>) -> int {
    choose|i: int| 0 <= i < es.len() && #[trigger] es[i].0@ == k
}

/// The entries as a map from name to collector.
pub open spec fn entry_map<C>(es: Seq<(&'static str, C)>) -> Map<Seq<char>, C> {
    Map::new(|k: Seq<char>| entry_names(es).contains(k), |k: Seq<char>| es[entry_index(es, k)].1)
}

/// In a list of unique names, an entry with the name is the one `entry_index` picks.
proof fn lemma_entry_index_unique<C>(es: Seq<(&'static str, C)>, k: Seq<char>, i: int)
    requires
        entry_names(es).no_duplicates(),
        0 <= i < es.len(),
        es[i].0@ == k,
    ensures
        entry_index(es, k) == i,
{
    let j = entry_index(es, k);
    assert(es[i].0@ == k);
    assert(0 <= j < es.len() && es[j].0@ == k);
    assert(entry_names(es)[i] == entry_names(es)[j]);
}

impl<C> CollectorRegistry<C> {
    /// The names are unique.
    #[verifier::type_invariant]
    pub closed spec fn wf(&self) -> bool {
        entry_names(self.collectors@).no_duplicates()
    }

    /// The registry as a map from name to collector.
    pub closed spec fn view(&self) -> Map<Seq<char>, C> {
        entry_map(self.collectors@)
    }

    /// An empty registry. The registry of the program is filled from the
    /// collectors that were submitted at build time.
    pub fn new() -> (r: Self)
        ensures
            r.wf(),
            r.view() == Map::<Seq<char>, C>::empty(),
    {
        let r = CollectorRegistry { collectors: Vec::new() };
        assert(entry_names(r.collectors@) =~= Seq::<Seq<char>>::empty());
        assert(r.view() =~= Map::<Seq<char>, C>::empty());
        r
    }

    /// The position of the entry named `name`, if any.
    fn position(&self, name: &str) -> (r: Option<usize>)
        ensures
            match r {
                Some(i) => i < self.collectors@.len() && self.collectors@[i as int].0@ == name@,
                None => !entry_names(self.collectors@).contains(name@),
            },
    {
        proof {
            use_type_invariant(self);
        }
        let mut i: usize = 0;
        while i < self.collectors.len()
            invariant
                i <= self.collectors@.len(),
                forall|j: int| 0 <= j < i ==> self.collectors@[j].0@ != name@,
            decreases self.collectors@.len() - i,
        {
            if str_eq(self.collectors[i].0, name) {
                return Some(i);
            }
            i = i + 1;
        }
        assert forall|j: int| 0 <= j < entry_names(self.collectors@).len() implies entry_names(
            self.collectors@,
        )[j] != name@ by {
            assert(entry_names(self.collectors@)[j] == self.collectors@[j].0@);
        }
        None
    }

    /// Registers `collector` under `name`, replacing a collector registered
    /// under the same name.
    pub fn register(&mut self, name: &'static str, collector: C)
        ensures
            old(self).wf(),
            final(self).wf(),
            final(self).view() == old(self).view().insert(name@, collector),
    {
        proof {
            use_type_invariant(&*self);
        }
        let ghost old_es = self.collectors@;
        let pos = self.position(name);
        let mut entries: Vec<(&'static str, C)> = Vec::new();
        std::mem::swap(&mut entries, &mut self.collectors);
        match pos {
            Some(i) => {
                entries.set(i, (name, collector));
                let ghost es = entries@;
                assert(entry_names(es) =~= entry_names(old_es));
                proof {
                    assert forall|k: Seq<char>| entry_map(es).contains_key(k) && k != name@ implies
                        #[trigger] entry_map(es)[k] == entry_map(old_es)[k] by {
                        assert(entry_names(old_es).contains(k));
                        let w = choose|w: int| 0 <= w < entry_names(old_es).len() && entry_names(old_es)[w] == k;
                        assert(old_es[w].0@ == k);
                        lemma_entry_index_unique(old_es, k, w);
                        assert(w != i);
                        assert(es[w] == old_es[w]);
                        lemma_entry_index_unique(es, k, w);
                    }
                    lemma_entry_index_unique(es, name@, i as int);
                    assert(entry_names(es).contains(name@)) by {
                        assert(entry_names(es)[i as int] == name@);
                    }
                    assert(entry_map(es) =~= entry_map(old_es).insert(name@, collector));
                }
            },
            None => {
                entries.push((name, collector));
                let ghost es = entries@;
                assert(entry_names(es) =~= entry_names(old_es).push(name@));
                proof {
                    let n = old_es.len() as int;
                    assert forall|a: int, b: int| 0 <= a < b < entry_names(es).len() implies entry_names(es)[a]
                        != entry_names(es)[b] by {
                        if b == n {
                            assert(entry_names(old_es)[a] == entry_names(es)[a]);
                        } else {
                            assert(entry_names(old_es)[a] != entry_names(old_es)[b]);
                        }
                    }
                    assert forall|k: Seq<char>| entry_names(es).contains(k) && k != name@ implies
                        entry_names(old_es).contains(k) by {
                        let w = choose|w: int| 0 <= w < entry_names(es).len() && entry_names(es)[w] == k;
                        assert(w != n);
                        assert(entry_names(old_es)[w] == k);
                    }
                    assert forall|k: Seq<char>| entry_map(es).contains_key(k) && k != name@ implies
                        #[trigger] entry_map(es)[k] == entry_map(old_es)[k] by {
                        assert(entry_names(old_es).contains(k));
                        let w = choose|w: int| 0 <= w < entry_names(old_es).len() && entry_names(old_es)[w] == k;
                        assert(old_es[w].0@ == k);
                        lemma_entry_index_unique(old_es, k, w);
                        assert(es[w] == old_es[w]);
                        lemma_entry_index_unique(es, k, w);
                    }
                    assert(es[n].0@ == name@);
                    lemma_entry_index_unique(es, name@, n);
                    assert(entry_names(es)[n] == name@);
                    assert forall|k: Seq<char>| entry_names(old_es).contains(k) implies entry_names(es).contains(k) by {
                        let w = choose|w: int| 0 <= w < entry_names(old_es).len() && entry_names(old_es)[w] == k;
                        assert(entry_names(es)[w] == k);
                    }
                    assert(entry_map(es) =~= entry_map(old_es).insert(name@, collector));
                }
            },
        }
        self.collectors = entries;
    }

    /// Whether a collector is registered under `name`.
    pub fn contains(&self, name: &str) -> (r: bool)
        ensures
            self.wf(),
            r == self.view().contains_key(name@),
    {
        proof {
            use_type_invariant(self);
        }
        match self.position(name) {
            Some(i) => {
                assert(entry_names(self.collectors@)[i as int] == name@);
                true
            },
            None => false,
        }
    }

    /// The number of registered collectors.
    pub fn len(&self) -> (r: usize)
        ensures
            self.wf(),
            r == self.view().dom().len(),
    {
        proof {
            use_type_invariant(self);
            self.lemma_finite();
        }
        self.collectors.len()
    }

    /// Whether no collector is registered.
    pub fn is_empty(&self) -> (r: bool)
        ensures
            self.wf(),
            r == (self.view().dom().len() == 0),
    {
        proof {
            use_type_invariant(self);
        }
        self.len() == 0
    }

    /// The registered names, each once.
    pub fn list_names(&self) -> (r: Vec<&'static str>)
        ensures
            self.wf(),
            r@.map_values(|s: &'static str| s@).no_duplicates(),
            r@.map_values(|s: &'static str| s@).to_set() == self.view().dom(),
    {
        proof {
            use_type_invariant(self);
        }
        let mut out: Vec<&'static str> = Vec::new();
        let mut i: usize = 0;
        while i < self.collectors.len()
            invariant
                self.wf(),
                i <= self.collectors@.len(),
                out@.map_values(|s: &'static str| s@) == entry_names(self.collectors@).take(i as int),
            decreases self.collectors@.len() - i,
        {
            let ghost prev = out@;
            out.push(self.collectors[i].0);
            assert(out@ == prev.push(self.collectors@[i as int].0));
            assert(out@.map_values(|s: &'static str| s@) =~= prev.map_values(|s: &'static str| s@).push(
                self.collectors@[i as int].0@,
            ));
            assert(entry_names(self.collectors@).take(i + 1) =~= entry_names(self.collectors@).take(
                i as int,
            ).push(self.collectors@[i as int].0@));
            i = i + 1;
        }
        assert(entry_names(self.collectors@).take(i as int) =~= entry_names(self.collectors@));
        assert(self.view().dom() =~= entry_names(self.collectors@).to_set());
        out
    }
}

impl<C> CollectorRegistry<C> {
    /// The registered names form a finite set, one per stored entry.
    proof fn lemma_finite(&self)
        requires
            self.wf(),
        ensures
            self.view().dom().finite(),
            self.view().dom().len() == self.collectors@.len(),
    {
        let names = entry_names(self.collectors@);
        names.unique_seq_to_set();
        assert(self.view().dom() =~= names.to_set());
    }
}

/// Registering `c` under `name` makes it what a lookup of `name` finds,
/// leaves every other name as it was, and adds one name to the registry
/// exactly when `name` was not registered before.
pub proof fn law_register_then_lookup<C>(
    before: CollectorRegistry<C>,
    after: CollectorRegistry<C>,
    name: Seq<char>,
    c: C,
    other: Seq<char>,
)
    requires
        before.wf(),
        after.wf(),
        after.view() == before.view().insert(name, c),
    ensures
        after.view().contains_key(name),
        after.view()[name] == c,
        other != name ==> (after.view().contains_key(other) == before.view().contains_key(other)),
        other != name && before.view().contains_key(other) ==> after.view()[other] == before.view()[other],
        after.view().dom().len() == before.view().dom().len() + (if before.view().contains_key(name) {
            0int
        } else {
            1int
        }),
{
    before.lemma_finite();
    after.lemma_finite();
    assert(after.view().dom() =~= before.view().dom().insert(name));
}

impl<T> CollectorRegistry<DynWrapper<T>> {
    /// Registers `wrapper` under its own name, replacing a wrapper
    /// registered under the same name.
    pub fn register_wrapper(&mut self, wrapper: DynWrapper<T>)
        ensures
            final(self).view() == old(self).view().insert(wrapper.name_view(), wrapper),
            names_agree(old(self).view()) ==> names_agree(final(self).view()),
    {
        let name = wrapper.name();
        self.register(name, wrapper);
    }
}

impl<C: Clone> CollectorRegistry<C> {
    /// The collector registered under `name`, or `CollectorNotFound`.
    pub fn get(&self, name: &str) -> (r: CollectorResult<C>)
        ensures
            self.wf(),
            match r {
                Ok(c) => self.view().contains_key(name@) && cloned(self.view()[name@], c),
                Err(e) => !self.view().contains_key(name@) && e@ == ErrorModel::CollectorNotFound(name@),
            },
    {
        proof {
            use_type_invariant(self);
        }
        match self.position(name) {
            Some(i) => {
                proof {
                    lemma_entry_index_unique(self.collectors@, name@, i as int);
                    assert(entry_names(self.collectors@)[i as int] == name@);
                }
                Ok(self.collectors[i].1.clone())
            },
            None => Err(CollectorError::CollectorNotFound(String::from_str(name))),
        }
    }
}

/// Every wrapper in `m` is registered under its own name.
pub open spec fn names_agree<T>(m: Map<Seq<char>, DynWrapper<T>>) -> bool {
    forall|k: Seq<char>| #[trigger] m.contains_key(k) ==> m[k].name_view() == k
}

/// Registering a wrapper under its own name keeps every wrapper registered
/// under its own name.
pub proof fn law_register_own_name<T>(
    before: CollectorRegistry<DynWrapper<T>>,
    after: CollectorRegistry<DynWrapper<T>>,
    w: DynWrapper<T>,
)
    requires
        names_agree(before.view()),
        after.view() == before.view().insert(w.name_view(), w),
    ensures
        names_agree(after.view()),
{
}

/// The registry that registering the wrappers `ws` in order, each under
/// its own name, makes from an empty one.
pub open spec fn wrappers_map<T>(ws: Seq<DynWrapper<T>>) -> Map<Seq<char>, DynWrapper<T>>
    decreases ws.len(),
{
    if ws.len() == 0 {
        Map::empty()
    } else {
        wrappers_map(ws.drop_last()).insert(ws.last().name_view(), ws.last())
    }
}

/// A registry filled only by registering wrappers under their own names
/// holds every wrapper under its own name, and a lookup of any name it
/// holds gives back a wrapper of that name.
pub proof fn law_wrapper_registry<T: Clone>(ws: Seq<DynWrapper<T>>, name: Seq<char>, c: DynWrapper<T>)
    ensures
        names_agree(wrappers_map(ws)),
        wrappers_map(ws).contains_key(name) && cloned(wrappers_map(ws)[name], c) ==> c.name_view() == name,
    decreases ws.len(),
{
    if ws.len() > 0 {
        law_wrapper_registry(ws.drop_last(), name, c);
    }
}

/// In a registry where every wrapper is under its own name, what a lookup
/// of `name` gives back is a wrapper named `name`.
pub proof fn law_lookup_own_name<T: Clone>(r: CollectorRegistry<DynWrapper<T>>, name: Seq<char>, c: DynWrapper<T>)
    requires
        names_agree(r.view()),
        r.view().contains_key(name),
        cloned(r.view()[name], c),
    ensures
        c.name_view() == name,
{
}

/// The names of `enabled` that are not among `available`, in order.
pub open spec fn missing_names(enabled: Seq<Seq<char>>, available: Seq<Seq<char>>) -> Seq<Seq<char>> {
    enabled.filter(|n: Seq<char>| !available.contains(n))
}

/// A name is reported missing exactly when it is enabled and not available;
/// so nothing is missing exactly when every enabled name is available.
pub proof fn law_missing_names(enabled: Seq<Seq<char>>, available: Seq<Seq<char>>, name: Seq<char>)
    ensures
        missing_names(enabled, available).contains(name) <==> (enabled.contains(name)
            && !available.contains(name)),
        missing_names(enabled, available).len() == 0 <==> (forall|i: int|
            0 <= i < enabled.len() ==> available.contains(#[trigger] enabled[i])),
{
    let pred = |n: Seq<char>| !available.contains(n);
    let m = enabled.filter(pred);
    if m.contains(name) {
        enabled.lemma_filter_contains_rev(pred, name);
        let k = choose|k: int| 0 <= k < m.len() && m[k] == name;
        enabled.lemma_filter_pred(pred, k);
    }
    if enabled.contains(name) && !available.contains(name) {
        let k = choose|k: int| 0 <= k < enabled.len() && enabled[k] == name;
        enabled.lemma_filter_contains(pred, k);
    }
    if m.len() == 0 {
        assert forall|i: int| 0 <= i < enabled.len() implies available.contains(#[trigger] enabled[i]) by {
            if !available.contains(enabled[i]) {
                enabled.lemma_filter_contains(pred, i);
            }
        }
    }
    if m.len() != 0 && (forall|i: int| 0 <= i < enabled.len() ==> available.contains(#[trigger] enabled[i])) {
        enabled.lemma_filter_contains_rev(pred, m[0]);
        enabled.lemma_filter_pred(pred, 0);
        let k = choose|k: int| 0 <= k < enabled.len() && enabled[k] == m[0];
        assert(available.contains(enabled[k]));
    }
}

/// The enabled collectors that no registered collector provides.
pub fn missing_collectors(enabled: &Vec<String>, available: &Vec<String>) -> (r: Vec<String>)
    ensures
        crate::text::views(r@) == missing_names(crate::text::views(enabled@), crate::text::views(available@)),
{
    let ghost en = crate::text::views(enabled@);
    let ghost av = crate::text::views(available@);
    let mut out: Vec<String> = Vec::new();
    let mut i: usize = 0;
    assert(en.take(0) =~= Seq::<Seq<char>>::empty());
    assert(crate::text::views(out@) =~= Seq::<Seq<char>>::empty());
    while i < enabled.len()
        invariant
            en == crate::text::views(enabled@),
            av == crate::text::views(available@),
            i <= enabled@.len(),
            crate::text::views(out@) == missing_names(en.take(i as int), av),
        decreases enabled@.len() - i,
    {
        assert(en.take(i + 1).drop_last() =~= en.take(i as int));
        assert(en[i as int] == enabled@[i as int]@);
        reveal_with_fuel(Seq::filter, 1);
        if !crate::text::list_contains(available, enabled[i].as_str()) {
            out.push(enabled[i].clone());
            assert(crate::text::views(out@) =~= missing_names(en.take(i as int), av).push(en[i as int]));
        }
        i = i + 1;
    }
    assert(en.take(enabled@.len() as int) =~= en);
    out
}

} // verus!
