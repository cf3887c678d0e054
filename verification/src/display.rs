//! What the start-up screen shows: which collectors are enabled, the
//! configuration as annotated TOML lines, and the centring of the banner.

use vstd::prelude::*;

use crate::text::{chars_of, list_contains, starts_with, substring, trim, trim_str, views};

verus! {

/// For each available collector, in order, whether it is enabled.
pub fn collector_marks(enabled: &Vec<String>, available: &Vec<String>) -> (r: Vec<bool>)
    ensures
        r@.len() == available@.len(),
        forall|i: int| 0 <= i < available@.len() ==> r@[i] == views(enabled@).contains(#[trigger] available@[i]@),
{
    let mut out: Vec<bool> = Vec::new();
    let mut i: usize = 0;
    while i < available.len()
        invariant
            i <= available@.len(),
            out@.len() == i,
            forall|j: int| 0 <= j < i ==> out@[j] == views(enabled@).contains(#[trigger] available@[j]@),
        decreases available@.len() - i,
    {
        out.push(list_contains(enabled, available[i].as_str()));
        i = i + 1;
    }
    out
}

/// One line of TOML text, as the start-up screen highlights it.
#[derive(Debug, Clone, PartialEq, Eq)]
pub enum TomlLine {
    /// A line starting with `[`: a table header.
    Section(String),
    /// A line with `=`: the trimmed key and value around the first `=`.
    Pair(String, String),
    /// Any other line, unchanged.
    Other(String),
}

/// The position of the first `c` in `s`, if any.
pub open spec fn first_index(s: Seq<char>, c: char) -> Option<int> {
    if exists|i: int| 0 <= i < s.len() && s[i] == c {
        Some(choose|i: int| 0 <= i < s.len() && s[i] == c && forall|j: int| 0 <= j < i ==> s[j] != c)
    } else {
        None
    }
}

/// How `line` is highlighted.
pub open spec fn toml_line(line: Seq<char>) -> (int, Seq<char>, Seq<char>) {
    if line.len() > 0 && line[0] == '[' {
        (0, line, Seq::empty())
    } else {
        match first_index(line, '=') {
            Some(i) => (1, trim(line.subrange(0, i)), trim(line.subrange(i + 1, line.len() as int))),
            None => (2, line, Seq::empty()),
        }
    }
}

impl TomlLine {
    /// The kind (0 header, 1 pair, 2 other) and the texts of the line.
    pub open spec fn model(&self) -> (int, Seq<char>, Seq<char>) {
        match self {
            TomlLine::Section(s) => (0, s@, Seq::empty()),
            TomlLine::Pair(k, v) => (1, k@, v@),
            TomlLine::Other(s) => (2, s@, Seq::empty()),
        }
    }
}

/// The first `=` of `s`, searched from the start.
fn find_equals(s: &str) -> (r: Option<usize>)
    ensures
        match r {
            Some(i) => first_index(s@, '=') == Some(i as int) && i < s@.len(),
            None => first_index(s@, '=') is None,
        },
{
    let cs = chars_of(s);
    let mut i: usize = 0;
    while i < cs.len()
        invariant
            cs@ == s@,
            i <= cs@.len(),
            forall|j: int| 0 <= j < i ==> s@[j] != '=',
        decreases cs@.len() - i,
    {
        if cs[i] == '=' {
            let ghost k = choose|k: int| 0 <= k < s@.len() && s@[k] == '=' && forall|j: int| 0 <= j < k ==> s@[j] != '=';
            assert(k == i as int) by {
                if k < i {
                    assert(s@[k] != '=');
                } else if k > i {
                    assert(s@[i as int] == '=');
                }
            }
            return Some(i);
        }
        i = i + 1;
    }
    None
}

/// Classifies one line of TOML text for highlighting.
pub fn classify_toml_line(line: &str) -> (r: TomlLine)
    ensures
        r.model() == toml_line(line@),
{
    if starts_with(line, "[") {
        proof {
            reveal_strlit("[");
            assert(line@.subrange(0, 1)[0] == line@[0]);
        }
        return TomlLine::Section(String::from_str(line));
    }
    proof {
        reveal_strlit("[");
        if line@.len() > 0 && line@[0] == '[' {
            assert(line@.subrange(0, 1) =~= "["@);
        }
    }
    let n = line.unicode_len();
    match find_equals(line) {
        Some(i) => {
            let key = substring(line, 0, i);
            let value = substring(line, i + 1, n);
            TomlLine::Pair(trim_str(key.as_str()), trim_str(value.as_str()))
        },
        None => TomlLine::Other(String::from_str(line)),
    }
}

/// The blank space on the left and on the right of `content` columns
/// centred in `width` columns: none when it does not fit, and the odd
/// column on the right.
pub fn centred(width: usize, content: usize) -> (r: (usize, usize))
    ensures
        content >= width ==> r == (0usize, 0usize),
        content < width ==> r.0 == (width - content) / 2 && r.0 + r.1 == width - content,
{
    let spare = width.saturating_sub(content);
    let left = spare / 2;
    (left, spare - left)
}

/// The largest of `widths`, or 0 when there are none.
pub fn widest(widths: &Vec<usize>) -> (r: usize)
    ensures
        forall|i: int| 0 <= i < widths@.len() ==> widths@[i] <= r,
        widths@.len() == 0 ==> r == 0,
        widths@.len() > 0 ==> exists|i: int| 0 <= i < widths@.len() && widths@[i] == r,
{
    let mut best: usize = 0;
    let mut i: usize = 0;
    while i < widths.len()
        invariant
            i <= widths@.len(),
            forall|j: int| 0 <= j < i ==> widths@[j] <= best,
            i == 0 ==> best == 0,
            i > 0 ==> exists|j: int| 0 <= j < i && widths@[j] == best,
        decreases widths@.len() - i,
    {
        if widths[i] > best || i == 0 {
            best = widths[i];
        }
        i = i + 1;
    }
    best
}

} // verus!
