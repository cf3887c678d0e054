//! Folds of per-line rules over a file's lines, and field parsing.

use vstd::prelude::*;

use crate::text::{dec_i64, dec_u64, parse_i64, parse_u64, split_whitespace, views, words};
use super::error::ErrorModel;

verus! {

/// Applies `step` to each line in order and concatenates what it yields.
pub open spec fn gather<T>(ls: Seq<Seq<char>>, step: spec_fn(Seq<char>) -> Seq<T>) -> Seq<T>
    decreases ls.len(),
{
    if ls.len() == 0 {
        Seq::empty()
    } else {
        gather(ls.drop_last(), step) + step(ls.last())
    }
}

/// Applies `step` to each line and its position in order and concatenates
/// what it yields.
pub open spec fn gather_at<T>(ls: Seq<Seq<char>>, step: spec_fn(int, Seq<char>) -> Seq<T>) -> Seq<T>
    decreases ls.len(),
{
    if ls.len() == 0 {
        Seq::empty()
    } else {
        gather_at(ls.drop_last(), step) + step(ls.len() - 1, ls.last())
    }
}

/// Applies `step` to each line in order, concatenating what it yields and
/// stopping at the first line that it rejects.
pub open spec fn gather_or_fail<T>(
    ls: Seq<Seq<char>>,
    step: spec_fn(Seq<char>) -> Result<Seq<T>, ErrorModel>,
) -> Result<Seq<T>, ErrorModel>
    decreases ls.len(),
{
    if ls.len() == 0 {
        Ok(Seq::empty())
    } else {
        match gather_or_fail(ls.drop_last(), step) {
            Err(e) => Err(e),
            Ok(acc) => match step(ls.last()) {
                Err(e) => Err(e),
                Ok(x) => Ok(acc + x),
            },
        }
    }
}

/// Parses each token as a `u64`, in order; `Err(k)` names the first token
/// that is not one.
pub open spec fn all_u64(toks: Seq<Seq<char>>) -> Result<Seq<u64>, int>
    decreases toks.len(),
{
    if toks.len() == 0 {
        Ok(Seq::empty())
    } else {
        match all_u64(toks.drop_last()) {
            Err(k) => Err(k),
            Ok(vs) => match dec_u64(toks.last()) {
                Some(v) => Ok(vs.push(v)),
                None => Err(toks.len() - 1),
            },
        }
    }
}

/// Parses the tokens `toks[from..to]` as `u64`s.
pub fn parse_u64_fields(toks: &Vec<String>, from: usize, to: usize) -> (r: Result<Vec<u64>, usize>)
    requires
        from <= to <= toks@.len(),
    ensures
        match all_u64(views(toks@).subrange(from as int, to as int)) {
            Ok(vs) => r matches Ok(v) && v@ == vs && vs.len() == to - from,
            Err(k) => r == Err::<Vec<u64>, usize>(k as usize),
        },
        r matches Err(k) ==> from + k < to,
        all_u64(views(toks@).subrange(from as int, to as int)) matches Err(k) ==> 0 <= k < to - from,
{
    proof {
        lemma_all_u64_err_range(views(toks@).subrange(from as int, to as int));
    }
    let ghost t = views(toks@).subrange(from as int, to as int);
    let mut out: Vec<u64> = Vec::new();
    let mut i: usize = from;
    assert(t.subrange(0, 0) =~= Seq::<Seq<char>>::empty());
    while i < to
        invariant
            from <= i <= to <= toks@.len(),
            t == views(toks@).subrange(from as int, to as int),
            all_u64(t.subrange(0, i - from)) == Ok::<Seq<u64>, int>(out@),
            out@.len() == i - from,
        decreases to - i,
    {
        let ghost j = i - from;
        assert(t.subrange(0, j + 1).drop_last() =~= t.subrange(0, j));
        assert(t.subrange(0, j + 1).last() == toks@[i as int]@);
        match parse_u64(toks[i].as_str()) {
            Some(v) => {
                out.push(v);
            },
            None => {
                proof {
                    lemma_all_u64_prefix_err(t, j + 1);
                }
                return Err(i - from);
            },
        }
        i = i + 1;
    }
    assert(t.subrange(0, to - from) =~= t);
    Ok(out)
}

/// The failing index is a position of the sequence.
pub proof fn lemma_all_u64_err_range(t: Seq<Seq<char>>)
    ensures
        all_u64(t) matches Err(k) ==> 0 <= k < t.len(),
    decreases t.len(),
{
    if t.len() > 0 {
        lemma_all_u64_err_range(t.drop_last());
    }
}

/// When every token reads as a `u64`, the result holds their values in
/// order.
pub proof fn lemma_all_u64_values(t: Seq<Seq<char>>)
    requires
        forall|i: int| 0 <= i < t.len() ==> dec_u64(#[trigger] t[i]) is Some,
    ensures
        all_u64(t) is Ok,
        all_u64(t)->Ok_0.len() == t.len(),
        forall|i: int| 0 <= i < t.len() ==> all_u64(t)->Ok_0[i] == dec_u64(#[trigger] t[i])->0,
    decreases t.len(),
{
    if t.len() > 0 {
        let s = t.drop_last();
        assert forall|i: int| 0 <= i < s.len() implies dec_u64(#[trigger] s[i]) is Some by {
            assert(s[i] == t[i]);
        }
        lemma_all_u64_values(s);
        assert forall|i: int| 0 <= i < t.len() implies all_u64(t)->Ok_0[i] == dec_u64(#[trigger] t[i])->0 by {
            if i < s.len() {
                assert(s[i] == t[i]);
            }
        }
    }
}

/// When the words `w[a..b]` all read as `u64`s, reading them gives the
/// value of word `a + k` at position `k`.
pub proof fn lemma_all_u64_window(w: Seq<Seq<char>>, a: int, b: int)
    requires
        0 <= a <= b <= w.len(),
        forall|k: int| a <= k < b ==> dec_u64(#[trigger] w[k]) is Some,
    ensures
        all_u64(w.subrange(a, b)) == Ok::<Seq<u64>, int>(Seq::new((b - a) as nat, |k: int| dec_u64(w[k + a])->0)),
{
    let t = w.subrange(a, b);
    assert forall|i: int| 0 <= i < t.len() implies dec_u64(#[trigger] t[i]) is Some by {
        assert(t[i] == w[i + a]);
    }
    lemma_all_u64_values(t);
    let expected = Seq::new((b - a) as nat, |k: int| dec_u64(w[k + a])->0);
    assert forall|k: int| 0 <= k < b - a implies all_u64(t)->Ok_0[k] == #[trigger] expected[k] by {
        assert(t[k] == w[k + a]);
    }
    assert(all_u64(t)->Ok_0 =~= expected);
}

/// When every entry that `step` yields on any line satisfies `p`, so does
/// every entry of the concatenation.
pub proof fn lemma_gather_all<T>(ls: Seq<Seq<char>>, step: spec_fn(Seq<char>) -> Seq<T>, p: spec_fn(T) -> bool)
    requires
        forall|l: Seq<char>, i: int| 0 <= i < step(l).len() ==> p(#[trigger] step(l)[i]),
    ensures
        forall|i: int| 0 <= i < gather(ls, step).len() ==> p(#[trigger] gather(ls, step)[i]),
    decreases ls.len(),
{
    if ls.len() > 0 {
        lemma_gather_all(ls.drop_last(), step, p);
        let acc = gather(ls.drop_last(), step);
        let x = step(ls.last());
        assert forall|i: int| 0 <= i < (acc + x).len() implies p(#[trigger] (acc + x)[i]) by {
            if i >= acc.len() {
                assert((acc + x)[i] == x[i - acc.len()]);
            } else {
                assert((acc + x)[i] == acc[i]);
            }
        }
    }
}

/// When every entry that `step` yields on any line satisfies `p`, so does
/// every entry of a successful fold.
pub proof fn lemma_gather_or_fail_all<T>(
    ls: Seq<Seq<char>>,
    step: spec_fn(Seq<char>) -> Result<Seq<T>, ErrorModel>,
    p: spec_fn(T) -> bool,
)
    requires
        forall|l: Seq<char>|
            #[trigger] step(l) matches Ok(x) ==> forall|i: int| 0 <= i < x.len() ==> p(#[trigger] x[i]),
    ensures
        gather_or_fail(ls, step) matches Ok(out) ==> forall|i: int| 0 <= i < out.len() ==> p(#[trigger] out[i]),
    decreases ls.len(),
{
    if ls.len() > 0 {
        lemma_gather_or_fail_all(ls.drop_last(), step, p);
        if let Ok(acc) = gather_or_fail(ls.drop_last(), step) {
            if let Ok(x) = step(ls.last()) {
                assert forall|i: int| 0 <= i < (acc + x).len() implies p(#[trigger] (acc + x)[i]) by {
                    if i >= acc.len() {
                        assert((acc + x)[i] == x[i - acc.len()]);
                    }
                }
            }
        }
    }
}

/// A failure in a prefix is the failure of the whole sequence.
pub proof fn lemma_all_u64_prefix_err(t: Seq<Seq<char>>, k: int)
    requires
        0 <= k <= t.len(),
        all_u64(t.subrange(0, k)) is Err,
    ensures
        all_u64(t) == all_u64(t.subrange(0, k)),
    decreases t.len() - k,
{
    if k < t.len() {
        assert(t.subrange(0, k + 1).drop_last() =~= t.subrange(0, k));
        lemma_all_u64_prefix_err(t, k + 1);
    } else {
        assert(t.subrange(0, k) =~= t);
    }
}

/// Reading `p` and then `q` is reading `p`, then reading `q` from where `p`
/// left off.
pub proof fn lemma_fold_state_concat<S>(
    p: Seq<Seq<char>>,
    q: Seq<Seq<char>>,
    init: S,
    upd: spec_fn(S, Seq<char>) -> Result<S, ErrorModel>,
)
    ensures
        fold_state(p + q, init, upd) == match fold_state(p, init, upd) {
            Err(e) => Err(e),
            Ok(st) => fold_state(q, st, upd),
        },
    decreases q.len(),
{
    if q.len() == 0 {
        assert(p + q =~= p);
    } else {
        assert((p + q).drop_last() =~= p + q.drop_last());
        lemma_fold_state_concat(p, q.drop_last(), init, upd);
    }
}

/// A rejected line ends the fold with its error.
pub proof fn lemma_gather_or_fail_prefix<T>(
    ls: Seq<Seq<char>>,
    k: int,
    step: spec_fn(Seq<char>) -> Result<Seq<T>, ErrorModel>,
)
    requires
        0 <= k <= ls.len(),
        gather_or_fail(ls.take(k), step) is Err,
    ensures
        gather_or_fail(ls, step) == gather_or_fail(ls.take(k), step),
    decreases ls.len() - k,
{
    if k < ls.len() {
        assert(ls.take(k + 1).drop_last() =~= ls.take(k));
        lemma_gather_or_fail_prefix(ls, k + 1, step);
    } else {
        assert(ls.take(k) =~= ls);
    }
}

/// Taking one more element of a sequence.
pub proof fn lemma_take_one_more<T>(s: Seq<T>, i: int)
    requires
        0 <= i < s.len(),
    ensures
        s.take(i + 1).drop_last() == s.take(i),
        s.take(i + 1).last() == s[i],
{
    assert(s.take(i + 1).drop_last() =~= s.take(i));
}

/// Taking all of a sequence.
pub proof fn lemma_take_all<T>(s: Seq<T>)
    ensures
        s.take(s.len() as int) == s,
        s.take(0) == Seq::<T>::empty(),
{
    assert(s.take(s.len() as int) =~= s);
    assert(s.take(0) =~= Seq::<T>::empty());
}

/// Reads the lines in order, updating a state from `init` with `upd`, and
/// stops at the first line that `upd` rejects.
pub open spec fn fold_state<S>(
    ls: Seq<Seq<char>>,
    init: S,
    upd: spec_fn(S, Seq<char>) -> Result<S, ErrorModel>,
) -> Result<S, ErrorModel>
    decreases ls.len(),
{
    if ls.len() == 0 {
        Ok(init)
    } else {
        match fold_state(ls.drop_last(), init, upd) {
            Err(e) => Err(e),
            Ok(st) => upd(st, ls.last()),
        }
    }
}

/// A rejected line ends the fold with its error.
pub proof fn lemma_fold_state_prefix<S>(
    ls: Seq<Seq<char>>,
    k: int,
    init: S,
    upd: spec_fn(S, Seq<char>) -> Result<S, ErrorModel>,
)
    requires
        0 <= k <= ls.len(),
        fold_state(ls.take(k), init, upd) is Err,
    ensures
        fold_state(ls, init, upd) == fold_state(ls.take(k), init, upd),
    decreases ls.len() - k,
{
    if k < ls.len() {
        assert(ls.take(k + 1).drop_last() =~= ls.take(k));
        lemma_fold_state_prefix(ls, k + 1, init, upd);
    } else {
        assert(ls.take(k) =~= ls);
    }
}

/// The second word of `line` read as a `u64`.
pub open spec fn second_u64(line: Seq<char>) -> Option<u64> {
    let w = words(line);
    if w.len() > 1 {
        dec_u64(w[1])
    } else {
        None
    }
}

/// The second word of `line` read as an `i64`.
pub open spec fn second_i64(line: Seq<char>) -> Option<i64> {
    let w = words(line);
    if w.len() > 1 {
        dec_i64(w[1])
    } else {
        None
    }
}

/// Reads the second word of `line` as a `u64`.
pub fn parse_second_u64(line: &str) -> (r: Option<u64>)
    ensures
        r == second_u64(line@),
{
    let parts = split_whitespace(line);
    if parts.len() > 1 {
        assert(views(parts@)[1] == parts@[1]@);
        parse_u64(parts[1].as_str())
    } else {
        None
    }
}

/// Reads the second word of `line` as an `i64`.
pub fn parse_second_i64(line: &str) -> (r: Option<i64>)
    ensures
        r == second_i64(line@),
{
    let parts = split_whitespace(line);
    if parts.len() > 1 {
        assert(views(parts@)[1] == parts@[1]@);
        parse_i64(parts[1].as_str())
    } else {
        None
    }
}

/// Reads the lines in order, updating a state from `init` with `upd`.
pub open spec fn fold_lines<S>(ls: Seq<Seq<char>>, init: S, upd: spec_fn(S, Seq<char>) -> S) -> S
    decreases ls.len(),
{
    if ls.len() == 0 {
        init
    } else {
        upd(fold_lines(ls.drop_last(), init, upd), ls.last())
    }
}

} // verus!
