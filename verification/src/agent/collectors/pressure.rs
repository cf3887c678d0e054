//! Pressure stall averages from `/proc/pressure`. The averages are decimal
//! fractions; this module finds their text and the caller reads them.

use vstd::prelude::*;

use super::parsing::{gather, lemma_take_all, lemma_take_one_more};
use crate::text::{has_prefix, lines, split_lines, split_whitespace, starts_with, substring, views, words};

verus! {

/// Reads the pressure stall averages of CPU, memory and I/O.
#[derive(Debug, Clone, Copy)]
pub struct PressureCollector;

impl PressureCollector {
    /// A new collector.
    pub fn new() -> (r: Self)
        ensures
            r == PressureCollector,
    {
        PressureCollector
    }
}

impl Default for PressureCollector {
    fn default() -> (r: Self)
        ensures
            r == PressureCollector,
    {
        PressureCollector::new()
    }
}

/// One average found in a pressure file.
#[derive(Debug, Clone)]
pub struct PressureField {
    /// Which average: `3 * line + window`, where the line is 0 for `some`
    /// and 1 for `full`, and the window is 0, 1, 2 for 10, 60, 300 seconds.
    pub slot: usize,
    /// The text after `=`.
    pub value: String,
    /// The whole word, such as `avg10=0.25`.
    pub token: String,
}

impl View for PressureField {
    type V = (nat, Seq<char>, Seq<char>);

    open spec fn view(&self) -> Self::V {
        (self.slot as nat, self.value@, self.token@)
    }
}

/// The averages of one word of a line of kind `side`.
pub open spec fn pressure_word(side: nat, w: Seq<char>) -> Seq<(nat, Seq<char>, Seq<char>)> {
    if has_prefix(w, "avg10="@) {
        seq![(side * 3, w.subrange(6, w.len() as int), w)]
    } else if has_prefix(w, "avg60="@) {
        seq![(side * 3 + 1, w.subrange(6, w.len() as int), w)]
    } else if has_prefix(w, "avg300="@) {
        seq![(side * 3 + 2, w.subrange(7, w.len() as int), w)]
    } else {
        Seq::empty()
    }
}

/// The averages of the words `ws`, in order.
pub open spec fn pressure_words(side: nat, ws: Seq<Seq<char>>) -> Seq<(nat, Seq<char>, Seq<char>)>
    decreases ws.len(),
{
    if ws.len() == 0 {
        Seq::empty()
    } else {
        pressure_words(side, ws.drop_last()) + pressure_word(side, ws.last())
    }
}

/// The averages of one line: a line starting with `some ` or `full `
/// yields the averages among its words; other lines none.
pub open spec fn pressure_line(line: Seq<char>) -> Seq<(nat, Seq<char>, Seq<char>)> {
    if has_prefix(line, "some "@) {
        pressure_words(0, words(line))
    } else if has_prefix(line, "full "@) {
        pressure_words(1, words(line))
    } else {
        Seq::empty()
    }
}

/// The per-line rule of a pressure file.
pub open spec fn pressure_step() -> spec_fn(Seq<char>) -> Seq<(nat, Seq<char>, Seq<char>)> {
    |line: Seq<char>| pressure_line(line)
}

/// The averages of a pressure file, in order.
pub open spec fn pressure_fields_of(content: Seq<char>) -> Seq<(nat, Seq<char>, Seq<char>)> {
    gather(lines(content), pressure_step())
}

/// The metric name of the average in `slot`.
pub open spec fn pressure_metric(slot: int) -> Seq<char> {
    seq![
        "pressure_some_avg10"@,
        "pressure_some_avg60"@,
        "pressure_some_avg300"@,
        "pressure_full_avg10"@,
        "pressure_full_avg60"@,
        "pressure_full_avg300"@,
    ][slot]
}

/// The metric name of an average, as errors report it.
pub fn pressure_metric_name(slot: usize) -> (r: &'static str)
    requires
        slot < 6,
    ensures
        r@ == pressure_metric(slot as int),
{
    match slot {
        0 => "pressure_some_avg10",
        1 => "pressure_some_avg60",
        2 => "pressure_some_avg300",
        3 => "pressure_full_avg10",
        4 => "pressure_full_avg60",
        _ => "pressure_full_avg300",
    }
}

/// The views of a vector of fields.
pub open spec fn field_views(v: Seq<PressureField>) -> Seq<(nat, Seq<char>, Seq<char>)> {
    v.map_values(|f: PressureField| f@)
}

/// Appends the averages of one word.
fn push_word_fields(side: usize, w: &str, out: &mut Vec<PressureField>)
    requires
        side < 2,
        forall|k: int| 0 <= k < old(out)@.len() ==> #[trigger] old(out)@[k].slot < 6,
    ensures
        field_views(final(out)@) == field_views(old(out)@) + pressure_word(side as nat, w@),
        forall|k: int| 0 <= k < final(out)@.len() ==> #[trigger] final(out)@[k].slot < 6,
{
    let ghost before = field_views(out@);
    proof {
        reveal_strlit("avg10=");
        reveal_strlit("avg60=");
        reveal_strlit("avg300=");
    }
    let n = crate::text::chars_of(w).len();
    let slot: usize;
    let skip: usize;
    if starts_with(w, "avg10=") {
        slot = side * 3;
        skip = 6;
    } else if starts_with(w, "avg60=") {
        slot = side * 3 + 1;
        skip = 6;
    } else if starts_with(w, "avg300=") {
        slot = side * 3 + 2;
        skip = 7;
    } else {
        assert(before + Seq::empty() =~= before);
        return;
    }
    let f = PressureField { slot, value: substring(w, skip, n), token: String::from_str(w) };
    let ghost fv = f@;
    out.push(f);
    assert forall|k: int| 0 <= k < out@.len() implies #[trigger] out@[k].slot < 6 by {
        if k < out@.len() - 1 {
            assert(out@[k] == old(out)@[k]);
        }
    }
    assert(field_views(out@) =~= before + seq![fv]);
}

/// Finds the averages of a pressure file.
pub fn parse_pressure_fields(content: &str) -> (r: Vec<PressureField>)
    ensures
        field_views(r@) == pressure_fields_of(content@),
        forall|k: int| 0 <= k < r@.len() ==> #[trigger] r@[k].slot < 6,
{
    let ls = split_lines(content);
    let ghost all = views(ls@);
    let mut out: Vec<PressureField> = Vec::new();
    let mut i: usize = 0;
    proof {
        lemma_take_all(all);
        assert(field_views(out@) =~= Seq::empty());
    }
    while i < ls.len()
        invariant
            all == views(ls@),
            all == lines(content@),
            i <= ls@.len(),
            gather(all.take(i as int), pressure_step()) == field_views(out@),
            forall|k: int| 0 <= k < out@.len() ==> #[trigger] out@[k].slot < 6,
        decreases ls@.len() - i,
    {
        proof {
            lemma_take_one_more(all, i as int);
        }
        let line = ls[i].as_str();
        assert(all[i as int] == line@);
        let ghost base = field_views(out@);
        let side: usize = if starts_with(line, "some ") {
            0
        } else if starts_with(line, "full ") {
            1
        } else {
            assert(base + Seq::empty() =~= base);
            i = i + 1;
            continue;
        };
        let ws = split_whitespace(line);
        let ghost wv = views(ws@);
        let mut j: usize = 0;
        assert(wv.take(0) =~= Seq::<Seq<char>>::empty());
        assert(base + Seq::empty() =~= base);
        while j < ws.len()
            invariant
                wv == views(ws@),
                side < 2,
                j <= ws@.len(),
                field_views(out@) == base + pressure_words(side as nat, wv.take(j as int)),
                forall|k: int| 0 <= k < out@.len() ==> #[trigger] out@[k].slot < 6,
            decreases ws@.len() - j,
        {
            assert(wv.take(j + 1).drop_last() =~= wv.take(j as int));
            assert(wv[j as int] == ws@[j as int]@);
            let ghost mid = field_views(out@);
            push_word_fields(side, ws[j].as_str(), &mut out);
            assert(base + pressure_words(side as nat, wv.take(j + 1)) =~= mid + pressure_word(side as nat, wv[j as int]));
            j = j + 1;
        }
        assert(wv.take(ws@.len() as int) =~= wv);
        i = i + 1;
    }
    out
}

} // verus!
