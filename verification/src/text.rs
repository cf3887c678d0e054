//! Character-level text primitives: whitespace, line splitting, word
//! splitting, trimming and integer parsing, each specified over `Seq<char>`.

use vstd::prelude::*;

verus! {

broadcast use vstd::string::group_string_axioms;

/// Copies the characters of `s` into a vector.
pub fn chars_of(s: &str) -> (v: Vec<char>)
    ensures
        v@ == s@,
{
    let mut v: Vec<char> = Vec::new();
    for c in it: s.chars()
        invariant
            v@ == it.seq().take(it.index()),
            it.seq() == s@,
    {
        v.push(c);
        assert(it.seq().take(it.index() + 1) =~= it.seq().take(it.index()).push(c));
    }
    assert(v@ =~= s@);
    v
}

/// The Unicode `White_Space` property, which is what `char::is_whitespace` tests.
pub open spec fn is_ws(c: char) -> bool {
    let u = c as u32;
    ||| u == 32
    ||| 9 <= u <= 13
    ||| u == 0x85
    ||| u == 0xa0
    ||| u == 0x1680
    ||| 0x2000 <= u <= 0x200a
    ||| u == 0x2028
    ||| u == 0x2029
    ||| u == 0x202f
    ||| u == 0x205f
    ||| u == 0x3000
}

/// Executable whitespace test.
pub fn is_whitespace(c: char) -> (b: bool)
    ensures
        b == is_ws(c),
{
    let u = c as u32;
    u == 32 || (9 <= u && u <= 13) || u == 0x85 || u == 0xa0 || u == 0x1680 || (0x2000 <= u
        && u <= 0x200a) || u == 0x2028 || u == 0x2029 || u == 0x202f || u == 0x205f || u == 0x3000
}

/// The current word, if any, as a one-element sequence.
pub open spec fn pending(cur: Seq<char>) -> Seq<Seq<char>> {
    if cur.len() == 0 {
        Seq::empty()
    } else {
        seq![cur]
    }
}

/// Words of `s` when `cur` has already been read as the start of a word.
pub open spec fn words_acc(s: Seq<char>, cur: Seq<char>) -> Seq<Seq<char>>
    decreases s.len(),
{
    if s.len() == 0 {
        pending(cur)
    } else if is_ws(s[0]) {
        pending(cur) + words_acc(s.drop_first(), Seq::empty())
    } else {
        words_acc(s.drop_first(), cur.push(s[0]))
    }
}

/// The maximal runs of non-whitespace characters of `s`, in order:
/// what `str::split_whitespace` yields.
pub open spec fn words(s: Seq<char>) -> Seq<Seq<char>> {
    words_acc(s, Seq::empty())
}

/// The views of a vector of strings.
pub open spec fn views(v: Seq<String>) -> Seq<Seq<char>> {
    v.map_values(|x: String| x@)
}

/// Copies the characters `from..to` of `s` into a new string.
pub fn substring(s: &str, from: usize, to: usize) -> (r: String)
    requires
        from <= to <= s@.len(),
    ensures
        r@ == s@.subrange(from as int, to as int),
{
    s.substring_char(from, to).to_owned()
}

/// Splits `s` into its whitespace-separated words (`str::split_whitespace`).
pub fn split_whitespace(s: &str) -> (r: Vec<String>)
    ensures
        views(r@) == words(s@),
{
    let cs = chars_of(s);
    let n = cs.len();
    let mut out: Vec<String> = Vec::new();
    let mut start: usize = 0;
    let mut i: usize = 0;
    assert(s@.subrange(0, n as int) =~= s@);
    assert(s@.subrange(0, 0) =~= Seq::<char>::empty());
    assert(views(out@) =~= Seq::<Seq<char>>::empty());
    while i < n
        invariant
            cs@ == s@,
            n == cs@.len(),
            start <= i <= n,
            views(out@) + words_acc(s@.subrange(i as int, n as int), s@.subrange(start as int, i as int))
                == words(s@),
        decreases n - i,
    {
        let ghost rest = s@.subrange(i as int, n as int);
        let ghost cur = s@.subrange(start as int, i as int);
        assert(rest[0] == s@[i as int]);
        assert(rest.drop_first() =~= s@.subrange(i + 1, n as int));
        if is_whitespace(cs[i]) {
            if start < i {
                let w = substring(s, start, i);
                assert(views(out@.push(w)) =~= views(out@) + pending(cur));
                out.push(w);
            } else {
                assert(views(out@) + pending(cur) =~= views(out@));
            }
            assert(s@.subrange(i + 1, i + 1) =~= Seq::<char>::empty());
            assert(views(out@) + words_acc(s@.subrange(i + 1, n as int), Seq::empty()) == words(s@))
                by {
                assert(words_acc(rest, cur) == pending(cur) + words_acc(rest.drop_first(), Seq::empty()));
            }
            start = i + 1;
        } else {
            assert(cur.push(rest[0]) =~= s@.subrange(start as int, i + 1));
        }
        i = i + 1;
    }
    let ghost cur = s@.subrange(start as int, n as int);
    if start < n {
        let w = substring(s, start, n);
        assert(views(out@.push(w)) =~= views(out@) + pending(cur));
        out.push(w);
    } else {
        assert(views(out@) + pending(cur) =~= views(out@));
    }
    out
}

/// A line as `str::lines` yields it: one trailing carriage return is
/// dropped from a segment that ended in a line feed.
pub open spec fn line_body(seg: Seq<char>) -> Seq<char> {
    if seg.len() > 0 && seg.last() == '\r' {
        seg.drop_last()
    } else {
        seg
    }
}

/// Lines of `s` when `cur` has already been read as the start of a line.
pub open spec fn lines_acc(s: Seq<char>, cur: Seq<char>) -> Seq<Seq<char>>
    decreases s.len(),
{
    if s.len() == 0 {
        pending(cur)
    } else if s[0] == '\n' {
        seq![line_body(cur)] + lines_acc(s.drop_first(), Seq::empty())
    } else {
        lines_acc(s.drop_first(), cur.push(s[0]))
    }
}

/// The lines of `s` as `str::lines` yields them: split at `\n`, with an
/// optional `\r` before each `\n` removed, and no empty line after a final
/// line feed.
pub open spec fn lines(s: Seq<char>) -> Seq<Seq<char>> {
    lines_acc(s, Seq::empty())
}

/// Splits `s` into lines (`str::lines`).
pub fn split_lines(s: &str) -> (r: Vec<String>)
    ensures
        views(r@) == lines(s@),
{
    let cs = chars_of(s);
    let n = cs.len();
    let mut out: Vec<String> = Vec::new();
    let mut start: usize = 0;
    let mut i: usize = 0;
    assert(s@.subrange(0, n as int) =~= s@);
    assert(s@.subrange(0, 0) =~= Seq::<char>::empty());
    assert(views(out@) =~= Seq::<Seq<char>>::empty());
    while i < n
        invariant
            cs@ == s@,
            n == cs@.len(),
            start <= i <= n,
            views(out@) + lines_acc(s@.subrange(i as int, n as int), s@.subrange(start as int, i as int))
                == lines(s@),
        decreases n - i,
    {
        let ghost rest = s@.subrange(i as int, n as int);
        let ghost cur = s@.subrange(start as int, i as int);
        assert(rest[0] == s@[i as int]);
        assert(rest.drop_first() =~= s@.subrange(i + 1, n as int));
        if cs[i] == '\n' {
            let end = if start < i && cs[i - 1] == '\r' {
                i - 1
            } else {
                i
            };
            assert(line_body(cur) =~= s@.subrange(start as int, end as int));
            let w = substring(s, start, end);
            assert(views(out@.push(w)) =~= views(out@) + seq![line_body(cur)]);
            out.push(w);
            assert(s@.subrange(i + 1, i + 1) =~= Seq::<char>::empty());
            start = i + 1;
        } else {
            assert(cur.push(rest[0]) =~= s@.subrange(start as int, i + 1));
        }
        i = i + 1;
    }
    let ghost cur = s@.subrange(start as int, n as int);
    if start < n {
        let w = substring(s, start, n);
        assert(views(out@.push(w)) =~= views(out@) + pending(cur));
        out.push(w);
    } else {
        assert(views(out@) + pending(cur) =~= views(out@));
    }
    out
}

/// Pieces of `s` separated by `sep` when `cur` has already been read.
pub open spec fn split_acc(s: Seq<char>, sep: char, cur: Seq<char>) -> Seq<Seq<char>>
    decreases s.len(),
{
    if s.len() == 0 {
        seq![cur]
    } else if s[0] == sep {
        seq![cur] + split_acc(s.drop_first(), sep, Seq::empty())
    } else {
        split_acc(s.drop_first(), sep, cur.push(s[0]))
    }
}

/// The pieces of `s` between occurrences of `sep` (`str::split` with a
/// character pattern); there is always at least one piece.
pub open spec fn split_on(s: Seq<char>, sep: char) -> Seq<Seq<char>> {
    split_acc(s, sep, Seq::empty())
}

/// Splits `s` at every occurrence of `sep` (`str::split(char)`).
pub fn split_char(s: &str, sep: char) -> (r: Vec<String>)
    ensures
        views(r@) == split_on(s@, sep),
{
    let cs = chars_of(s);
    let n = cs.len();
    let mut out: Vec<String> = Vec::new();
    let mut start: usize = 0;
    let mut i: usize = 0;
    assert(s@.subrange(0, n as int) =~= s@);
    assert(s@.subrange(0, 0) =~= Seq::<char>::empty());
    assert(views(out@) =~= Seq::<Seq<char>>::empty());
    while i < n
        invariant
            cs@ == s@,
            n == cs@.len(),
            start <= i <= n,
            views(out@) + split_acc(s@.subrange(i as int, n as int), sep, s@.subrange(start as int, i as int))
                == split_on(s@, sep),
        decreases n - i,
    {
        let ghost rest = s@.subrange(i as int, n as int);
        let ghost cur = s@.subrange(start as int, i as int);
        assert(rest[0] == s@[i as int]);
        assert(rest.drop_first() =~= s@.subrange(i + 1, n as int));
        if cs[i] == sep {
            let w = substring(s, start, i);
            assert(views(out@.push(w)) =~= views(out@) + seq![cur]);
            out.push(w);
            assert(s@.subrange(i + 1, i + 1) =~= Seq::<char>::empty());
            start = i + 1;
        } else {
            assert(cur.push(rest[0]) =~= s@.subrange(start as int, i + 1));
        }
        i = i + 1;
    }
    let ghost cur = s@.subrange(start as int, n as int);
    let w = substring(s, start, n);
    assert(views(out@.push(w)) =~= views(out@) + seq![cur]);
    out.push(w);
    out
}

/// `s` without its leading whitespace.
pub open spec fn trim_start(s: Seq<char>) -> Seq<char>
    decreases s.len(),
{
    if s.len() > 0 && is_ws(s[0]) {
        trim_start(s.drop_first())
    } else {
        s
    }
}

/// `s` without its trailing whitespace.
pub open spec fn trim_end(s: Seq<char>) -> Seq<char>
    decreases s.len(),
{
    if s.len() > 0 && is_ws(s.last()) {
        trim_end(s.drop_last())
    } else {
        s
    }
}

/// `s` without leading and trailing whitespace (`str::trim`).
pub open spec fn trim(s: Seq<char>) -> Seq<char> {
    trim_end(trim_start(s))
}

/// Removes leading and trailing whitespace (`str::trim`).
pub fn trim_str(s: &str) -> (r: String)
    ensures
        r@ == trim(s@),
{
    let cs = chars_of(s);
    let n = cs.len();
    let mut a: usize = 0;
    assert(s@.subrange(0, n as int) =~= s@);
    while a < n && is_whitespace(cs[a])
        invariant
            cs@ == s@,
            n == cs@.len(),
            a <= n,
            trim_start(s@) == trim_start(s@.subrange(a as int, n as int)),
        decreases n - a,
    {
        assert(s@.subrange(a as int, n as int).drop_first() =~= s@.subrange(a + 1, n as int));
        a = a + 1;
    }
    assert(trim_start(s@) == s@.subrange(a as int, n as int));
    let mut b: usize = n;
    while b > a && is_whitespace(cs[b - 1])
        invariant
            cs@ == s@,
            n == cs@.len(),
            a <= b <= n,
            trim(s@) == trim_end(s@.subrange(a as int, b as int)),
        decreases b - a,
    {
        assert(s@.subrange(a as int, b as int).drop_last() =~= s@.subrange(a as int, b - 1));
        b = b - 1;
    }
    substring(s, a, b)
}

/// `s` begins with `p`.
pub open spec fn has_prefix(s: Seq<char>, p: Seq<char>) -> bool {
    p.len() <= s.len() && s.subrange(0, p.len() as int) == p
}

/// Whether `s` begins with `p` (`str::starts_with`).
pub fn starts_with(s: &str, p: &str) -> (b: bool)
    ensures
        b == has_prefix(s@, p@),
{
    let cs = chars_of(s);
    let ps = chars_of(p);
    if ps.len() > cs.len() {
        return false;
    }
    let mut i: usize = 0;
    while i < ps.len()
        invariant
            cs@ == s@,
            ps@ == p@,
            ps@.len() <= cs@.len(),
            i <= ps@.len(),
            forall|j: int| 0 <= j < i ==> s@[j] == p@[j],
        decreases ps@.len() - i,
    {
        if cs[i] != ps[i] {
            assert(s@.subrange(0, p@.len() as int)[i as int] != p@[i as int]);
            return false;
        }
        i = i + 1;
    }
    assert(s@.subrange(0, p@.len() as int) =~= p@);
    true
}

/// `p` occurs somewhere in `s`.
pub open spec fn occurs_in(s: Seq<char>, p: Seq<char>) -> bool {
    exists|k: int| 0 <= k && k + p.len() <= s.len() && #[trigger] s.subrange(k, k + p.len()) == p
}

/// Whether `p` occurs in `s` (`str::contains` with a string pattern).
pub fn contains_str(s: &str, p: &str) -> (b: bool)
    ensures
        b == occurs_in(s@, p@),
{
    let cs = chars_of(s);
    let ps = chars_of(p);
    let n = cs.len();
    let m = ps.len();
    if m > n {
        assert forall|k: int| 0 <= k && k + p@.len() <= s@.len() implies #[trigger] s@.subrange(
            k,
            k + p@.len(),
        ) != p@ by {}
        return false;
    }
    let mut k: usize = 0;
    while k <= n - m
        invariant
            cs@ == s@,
            ps@ == p@,
            n == cs@.len(),
            m == ps@.len(),
            m <= n,
            k <= n - m + 1,
            forall|j: int| 0 <= j < k ==> #[trigger] s@.subrange(j, j + m) != p@,
        decreases n - k,
    {
        let mut i: usize = 0;
        let mut same = true;
        while i < m
            invariant
                cs@ == s@,
                ps@ == p@,
                n == cs@.len(),
                m == ps@.len(),
                k + m <= n,
                i <= m,
                same <==> forall|j: int| 0 <= j < i ==> s@[k + j] == p@[j],
            decreases m - i,
        {
            if cs[k + i] != ps[i] {
                same = false;
            }
            i = i + 1;
        }
        if same {
            assert(s@.subrange(k as int, k + m) =~= p@);
            return true;
        }
        assert(s@.subrange(k as int, k + m) != p@) by {
            let j = choose|j: int| 0 <= j < m && s@[k + j] != p@[j];
            assert(s@.subrange(k as int, k + m)[j] != p@[j]);
        }
        k = k + 1;
    }
    false
}

/// The value of `c` as a digit in base `radix` (10 or 16), as
/// `char::to_digit` gives it.
pub open spec fn digit_value(c: char, radix: nat) -> Option<nat> {
    let u = c as u32;
    if 48 <= u <= 57 {
        Some((u - 48) as nat)
    } else if radix == 16 && 97 <= u <= 102 {
        Some((u - 87) as nat)
    } else if radix == 16 && 65 <= u <= 70 {
        Some((u - 55) as nat)
    } else {
        None
    }
}

/// Every character of `s` is a digit in base `radix`.
pub open spec fn all_digits(s: Seq<char>, radix: nat) -> bool {
    forall|i: int| 0 <= i < s.len() ==> #[trigger] digit_value(s[i], radix) is Some
}

/// The number that the digit string `s` denotes in base `radix`.
pub open spec fn digits_value(s: Seq<char>, radix: nat) -> nat
    decreases s.len(),
{
    if s.len() == 0 {
        0
    } else {
        digits_value(s.drop_last(), radix) * radix + match digit_value(s.last(), radix) {
            Some(d) => d,
            None => 0,
        }
    }
}

/// The value of a non-empty digit string that does not exceed `max`.
pub open spec fn magnitude(s: Seq<char>, radix: nat, max: nat) -> Option<nat> {
    if s.len() > 0 && all_digits(s, radix) && digits_value(s, radix) <= max {
        Some(digits_value(s, radix))
    } else {
        None
    }
}

/// `s` without one leading `+`.
pub open spec fn unsigned_body(s: Seq<char>) -> Seq<char> {
    if s.len() > 0 && s[0] == '+' {
        s.drop_first()
    } else {
        s
    }
}

/// What `from_str_radix` of an unsigned type with maximum `max` accepts:
/// an optional `+`, then one or more digits, with a value of at most `max`.
pub open spec fn unsigned_value(s: Seq<char>, radix: nat, max: nat) -> Option<nat> {
    magnitude(unsigned_body(s), radix, max)
}

/// `str::parse::<u64>`.
pub open spec fn dec_u64(s: Seq<char>) -> Option<u64> {
    match unsigned_value(s, 10, u64::MAX as nat) {
        Some(v) => Some(v as u64),
        None => None,
    }
}

/// `str::parse::<u32>`.
pub open spec fn dec_u32(s: Seq<char>) -> Option<u32> {
    match unsigned_value(s, 10, u32::MAX as nat) {
        Some(v) => Some(v as u32),
        None => None,
    }
}

/// `str::parse::<u8>`.
pub open spec fn dec_u8(s: Seq<char>) -> Option<u8> {
    match unsigned_value(s, 10, u8::MAX as nat) {
        Some(v) => Some(v as u8),
        None => None,
    }
}

/// `u64::from_str_radix(_, 16)`.
pub open spec fn hex_u64(s: Seq<char>) -> Option<u64> {
    match unsigned_value(s, 16, u64::MAX as nat) {
        Some(v) => Some(v as u64),
        None => None,
    }
}

/// `str::parse::<i64>`: an optional sign, then one or more decimal digits,
/// with the value in range.
pub open spec fn dec_i64(s: Seq<char>) -> Option<i64> {
    if s.len() > 0 && s[0] == '-' {
        match magnitude(s.drop_first(), 10, 0x8000_0000_0000_0000) {
            Some(m) => Some((-m) as i64),
            None => None,
        }
    } else {
        match unsigned_value(s, 10, i64::MAX as nat) {
            Some(v) => Some(v as i64),
            None => None,
        }
    }
}

/// The digit value of `c` in base `radix`.
fn digit_of(c: char, radix: u32) -> (r: Option<u32>)
    requires
        radix == 10 || radix == 16,
    ensures
        match digit_value(c, radix as nat) {
            Some(d) => r == Some(d as u32),
            None => r is None,
        },
{
    let u = c as u32;
    if 48 <= u && u <= 57 {
        Some(u - 48)
    } else if radix == 16 && 97 <= u && u <= 102 {
        Some(u - 87)
    } else if radix == 16 && 65 <= u && u <= 70 {
        Some(u - 55)
    } else {
        None
    }
}

/// The value of a digit string grows as more digits are read.
proof fn lemma_digits_value_grows(s: Seq<char>, radix: nat, j: int, k: int)
    requires
        radix >= 1,
        0 <= j <= k <= s.len(),
        all_digits(s.subrange(0, k), radix),
    ensures
        digits_value(s.subrange(0, j), radix) <= digits_value(s.subrange(0, k), radix),
    decreases k - j,
{
    if j < k {
        let sk = s.subrange(0, k);
        assert(sk.drop_last() =~= s.subrange(0, k - 1));
        assert(all_digits(s.subrange(0, k - 1), radix)) by {
            assert forall|i: int| 0 <= i < k - 1 implies #[trigger] digit_value(
                s.subrange(0, k - 1)[i],
                radix,
            ) is Some by {
                assert(s.subrange(0, k - 1)[i] == sk[i]);
            }
        }
        lemma_digits_value_grows(s, radix, j, k - 1);
        let v = digits_value(s.subrange(0, k - 1), radix);
        assert(v * radix >= v) by (nonlinear_arith)
            requires
                radix >= 1,
        ;
    }
}

/// Parses the digits `cs[from..]` in base `radix`, rejecting values above `max`.
fn parse_magnitude(cs: &Vec<char>, from: usize, radix: u32, max: u64) -> (r: Option<u64>)
    requires
        radix == 10 || radix == 16,
        from <= cs@.len(),
    ensures
        match magnitude(cs@.subrange(from as int, cs@.len() as int), radix as nat, max as nat) {
            Some(v) => r == Some(v as u64),
            None => r is None,
        },
{
    let n = cs.len();
    let ghost t = cs@.subrange(from as int, n as int);
    if from == n {
        return None;
    }
    let mut acc: u64 = 0;
    let mut i: usize = from;
    assert(t.subrange(0, 0) =~= Seq::<char>::empty());
    while i < n
        invariant
            radix == 10 || radix == 16,
            n == cs@.len(),
            from < n,
            from <= i <= n,
            t == cs@.subrange(from as int, n as int),
            all_digits(t.subrange(0, i - from), radix as nat),
            acc as nat == digits_value(t.subrange(0, i - from), radix as nat),
            acc <= max,
        decreases n - i,
    {
        let j: Ghost<int> = Ghost(i - from);
        assert(t[j@] == cs@[i as int]);
        match digit_of(cs[i], radix) {
            None => {
                assert(!all_digits(t, radix as nat)) by {
                    assert(digit_value(t[j@], radix as nat) is None);
                }
                return None;
            },
            Some(d) => {
                assert(t.subrange(0, j@ + 1).drop_last() =~= t.subrange(0, j@));
                assert(t.subrange(0, j@ + 1).last() == t[j@]);
                assert(all_digits(t.subrange(0, j@ + 1), radix as nat)) by {
                    assert forall|k: int| 0 <= k < j@ + 1 implies #[trigger] digit_value(
                        t.subrange(0, j@ + 1)[k],
                        radix as nat,
                    ) is Some by {
                        if k < j@ {
                            assert(t.subrange(0, j@ + 1)[k] == t.subrange(0, j@)[k]);
                        }
                    }
                }
                assert(acc as u128 * radix as u128 <= 0xffff_ffff_ffff_ffffu128 * 16) by (nonlinear_arith)
                    requires
                        acc <= 0xffff_ffff_ffff_ffffu64,
                        radix <= 16,
                ;
                assert(d < 16);
                let next: u128 = acc as u128 * radix as u128 + d as u128;
                assert(next == digits_value(t.subrange(0, j@ + 1), radix as nat));
                if next > max as u128 {
                    proof {
                        if all_digits(t, radix as nat) {
                            assert(t.subrange(0, t.len() as int) =~= t);
                            lemma_digits_value_grows(t, radix as nat, j@ + 1, t.len() as int);
                        }
                    }
                    return None;
                }
                acc = next as u64;
            },
        }
        i = i + 1;
    }
    assert(t.subrange(0, n - from) =~= t);
    Some(acc)
}

/// Parses an unsigned number with an optional leading `+`, as
/// `from_str_radix` of an unsigned type with maximum `max` does.
fn parse_unsigned(s: &str, radix: u32, max: u64) -> (r: Option<u64>)
    requires
        radix == 10 || radix == 16,
    ensures
        match unsigned_value(s@, radix as nat, max as nat) {
            Some(v) => r == Some(v as u64),
            None => r is None,
        },
{
    let cs = chars_of(s);
    let from: usize = if cs.len() > 0 && cs[0] == '+' {
        1
    } else {
        0
    };
    assert(cs@.subrange(from as int, cs@.len() as int) =~= unsigned_body(s@));
    parse_magnitude(&cs, from, radix, max)
}

/// `str::parse::<u64>`.
pub fn parse_u64(s: &str) -> (r: Option<u64>)
    ensures
        r == dec_u64(s@),
{
    parse_unsigned(s, 10, u64::MAX)
}

/// `str::parse::<u32>`.
pub fn parse_u32(s: &str) -> (r: Option<u32>)
    ensures
        r == dec_u32(s@),
{
    match parse_unsigned(s, 10, u32::MAX as u64) {
        Some(v) => Some(v as u32),
        None => None,
    }
}

/// `str::parse::<u8>`.
pub fn parse_u8(s: &str) -> (r: Option<u8>)
    ensures
        r == dec_u8(s@),
{
    match parse_unsigned(s, 10, u8::MAX as u64) {
        Some(v) => Some(v as u8),
        None => None,
    }
}

/// `u64::from_str_radix(s, 16)`.
pub fn parse_hex_u64(s: &str) -> (r: Option<u64>)
    ensures
        r == hex_u64(s@),
{
    parse_unsigned(s, 16, u64::MAX)
}

/// `str::parse::<i64>`.
pub fn parse_i64(s: &str) -> (r: Option<i64>)
    ensures
        r == dec_i64(s@),
{
    let cs = chars_of(s);
    if cs.len() > 0 && cs[0] == '-' {
        assert(cs@.subrange(1, cs@.len() as int) =~= s@.drop_first());
        match parse_magnitude(&cs, 1, 10, 0x8000_0000_0000_0000u64) {
            Some(m) => {
                if m == 0x8000_0000_0000_0000u64 {
                    Some(i64::MIN)
                } else {
                    Some(-(m as i64))
                }
            },
            None => None,
        }
    } else {
        let from: usize = if cs.len() > 0 && cs[0] == '+' {
            1
        } else {
            0
        };
        assert(cs@.subrange(from as int, cs@.len() as int) =~= unsigned_body(s@));
        match parse_magnitude(&cs, from, 10, i64::MAX as u64) {
            Some(v) => Some(v as i64),
            None => None,
        }
    }
}

/// The decimal digits, in order.
pub open spec fn digit_chars() -> Seq<char> {
    seq!['0', '1', '2', '3', '4', '5', '6', '7', '8', '9']
}

/// The decimal representation of `n`, without leading zeros
/// (what `to_string` gives for an unsigned integer).
pub open spec fn decimal(n: nat) -> Seq<char>
    decreases n,
{
    if n < 10 {
        seq![digit_chars()[n as int]]
    } else {
        decimal(n / 10).push(digit_chars()[(n % 10) as int])
    }
}

/// The decimal text of `n` is a non-empty string of digits, without a sign,
/// that denotes `n`.
proof fn lemma_decimal_digits(n: nat)
    ensures
        decimal(n).len() > 0,
        all_digits(decimal(n), 10),
        digits_value(decimal(n), 10) == n,
        decimal(n)[0] != '+',
    decreases n,
{
    let d = (n % 10) as int;
    assert(digit_value(digit_chars()[d], 10) == Some(d as nat)) by {
        assert(digit_chars()[0] as u32 == 48);
        assert(digit_chars()[9] as u32 == 57);
    }
    let s = decimal(n);
    assert(s.last() == digit_chars()[d]);
    if n < 10 {
        assert(s.drop_last() =~= Seq::<char>::empty());
        assert(digits_value(s, 10) == digits_value(Seq::<char>::empty(), 10) * 10 + d);
    } else {
        lemma_decimal_digits(n / 10);
        assert(s.drop_last() =~= decimal(n / 10));
        assert(digits_value(s, 10) == digits_value(decimal(n / 10), 10) * 10 + d);
        assert((n / 10) * 10 + n % 10 == n) by (nonlinear_arith);
        assert forall|i: int| 0 <= i < s.len() implies #[trigger] digit_value(s[i], 10) is Some by {
            if i < s.len() - 1 {
                assert(s[i] == decimal(n / 10)[i]);
            }
        }
        assert(s[0] == decimal(n / 10)[0]);
    }
}

/// Reading back the decimal text of a `u64` gives the number:
/// `n.to_string().parse::<u64>() == Ok(n)`.
pub proof fn law_decimal_round_trip(n: u64)
    ensures
        dec_u64(decimal(n as nat)) == Some(n),
{
    lemma_decimal_digits(n as nat);
    assert(unsigned_body(decimal(n as nat)) == decimal(n as nat));
}

/// The one-character string of the digit `d`.
fn digit_str(d: u64) -> (r: &'static str)
    requires
        d < 10,
    ensures
        r@ == seq![digit_chars()[d as int]],
{
    proof {
        reveal_strlit("0");
        reveal_strlit("1");
        reveal_strlit("2");
        reveal_strlit("3");
        reveal_strlit("4");
        reveal_strlit("5");
        reveal_strlit("6");
        reveal_strlit("7");
        reveal_strlit("8");
        reveal_strlit("9");
    }
    let r = match d {
        0 => "0",
        1 => "1",
        2 => "2",
        3 => "3",
        4 => "4",
        5 => "5",
        6 => "6",
        7 => "7",
        8 => "8",
        _ => "9",
    };
    assert(r@ =~= seq![digit_chars()[d as int]]);
    r
}

/// The decimal representation of `n` (`u64::to_string`).
pub fn to_decimal(n: u64) -> (r: String)
    ensures
        r@ == decimal(n as nat),
    decreases n,
{
    if n < 10 {
        String::from_str(digit_str(n))
    } else {
        let mut s = to_decimal(n / 10);
        s.append(digit_str(n % 10));
        s
    }
}

/// Whether two strings hold the same characters.
pub fn str_eq(a: &str, b: &str) -> (r: bool)
    ensures
        r == (a@ == b@),
{
    let ca = chars_of(a);
    let cb = chars_of(b);
    if ca.len() != cb.len() {
        return false;
    }
    let mut i: usize = 0;
    while i < ca.len()
        invariant
            ca@ == a@,
            cb@ == b@,
            ca@.len() == cb@.len(),
            i <= ca@.len(),
            forall|j: int| 0 <= j < i ==> a@[j] == b@[j],
        decreases ca@.len() - i,
    {
        if ca[i] != cb[i] {
            return false;
        }
        i = i + 1;
    }
    assert(a@ =~= b@);
    true
}

/// Whether `list` holds a string equal to `s`.
pub fn list_contains(list: &Vec<String>, s: &str) -> (r: bool)
    ensures
        r == views(list@).contains(s@),
{
    let mut i: usize = 0;
    while i < list.len()
        invariant
            i <= list@.len(),
            forall|j: int| 0 <= j < i ==> list@[j]@ != s@,
        decreases list@.len() - i,
    {
        if str_eq(list[i].as_str(), s) {
            assert(views(list@)[i as int] == s@);
            return true;
        }
        i = i + 1;
    }
    assert forall|j: int| 0 <= j < views(list@).len() implies views(list@)[j] != s@ by {
        assert(views(list@)[j] == list@[j]@);
    }
    false
}

/// `s` without its trailing copies of `c` (`str::trim_end_matches(c)`).
pub open spec fn strip_trailing(s: Seq<char>, c: char) -> Seq<char>
    decreases s.len(),
{
    if s.len() > 0 && s.last() == c {
        strip_trailing(s.drop_last(), c)
    } else {
        s
    }
}

/// Removes every trailing `c` (`str::trim_end_matches(c)`).
pub fn trim_end_char(s: &str, c: char) -> (r: String)
    ensures
        r@ == strip_trailing(s@, c),
{
    let cs = chars_of(s);
    let mut b: usize = cs.len();
    assert(s@.subrange(0, b as int) =~= s@);
    while b > 0 && cs[b - 1] == c
        invariant
            cs@ == s@,
            b <= cs@.len(),
            strip_trailing(s@, c) == strip_trailing(s@.subrange(0, b as int), c),
        decreases b,
    {
        assert(s@.subrange(0, b as int).drop_last() =~= s@.subrange(0, b - 1));
        b = b - 1;
    }
    substring(s, 0, b)
}

/// `s` without its leading repetitions of `p` (`str::trim_start_matches(p)`).
pub open spec fn strip_leading(s: Seq<char>, p: Seq<char>) -> Seq<char>
    decreases s.len(),
{
    if p.len() > 0 && has_prefix(s, p) {
        strip_leading(s.subrange(p.len() as int, s.len() as int), p)
    } else {
        s
    }
}

/// Removes every leading repetition of `p` (`str::trim_start_matches(p)`).
pub fn trim_start_str(s: &str, p: &str) -> (r: String)
    ensures
        r@ == strip_leading(s@, p@),
{
    let cs = chars_of(s);
    let ps = chars_of(p);
    let n = cs.len();
    let m = ps.len();
    let mut a: usize = 0;
    assert(s@.subrange(0, n as int) =~= s@);
    if m == 0 {
        return substring(s, 0, n);
    }
    loop
        invariant
            cs@ == s@,
            ps@ == p@,
            n == cs@.len(),
            m == ps@.len(),
            m > 0,
            a <= n,
            strip_leading(s@, p@) == strip_leading(s@.subrange(a as int, n as int), p@),
        ensures
            a <= n,
            strip_leading(s@, p@) == s@.subrange(a as int, n as int),
        decreases n - a,
    {
        let ghost t = s@.subrange(a as int, n as int);
        if n - a < m {
            assert(!has_prefix(t, p@));
            break;
        }
        let mut i: usize = 0;
        let mut same = true;
        while i < m
            invariant
                cs@ == s@,
                ps@ == p@,
                n == cs@.len(),
                m == ps@.len(),
                a + m <= n,
                i <= m,
                same <==> forall|j: int| 0 <= j < i ==> s@[a + j] == p@[j],
            decreases m - i,
        {
            if cs[a + i] != ps[i] {
                same = false;
            }
            i = i + 1;
        }
        if !same {
            assert(!has_prefix(t, p@)) by {
                let j = choose|j: int| 0 <= j < m && s@[a + j] != p@[j];
                assert(t.subrange(0, m as int)[j] != p@[j]);
            }
            break;
        }
        assert(t.subrange(0, m as int) =~= p@);
        assert(t.subrange(m as int, t.len() as int) =~= s@.subrange(a + m, n as int));
        a = a + m;
    }
    substring(s, a, n)
}

/// How many characters of `s` equal `c`.
pub open spec fn count_char(s: Seq<char>, c: char) -> nat
    decreases s.len(),
{
    if s.len() == 0 {
        0
    } else {
        count_char(s.drop_last(), c) + if s.last() == c {
            1nat
        } else {
            0nat
        }
    }
}

/// Counts the occurrences of `c` in `s` (`str::matches(c).count()`).
pub fn count_matches_char(s: &str, c: char) -> (r: usize)
    ensures
        r == count_char(s@, c),
        r <= s@.len(),
{
    let cs = chars_of(s);
    let mut k: usize = 0;
    let mut i: usize = 0;
    while i < cs.len()
        invariant
            cs@ == s@,
            i <= cs@.len(),
            k == count_char(s@.subrange(0, i as int), c),
            k <= i,
        decreases cs@.len() - i,
    {
        assert(s@.subrange(0, i + 1).drop_last() =~= s@.subrange(0, i as int));
        if cs[i] == c {
            k = k + 1;
        }
        i = i + 1;
    }
    assert(s@.subrange(0, cs@.len() as int) =~= s@);
    k
}

/// The strings of `ws` joined with `sep` between them (`join`).
pub open spec fn join(ws: Seq<Seq<char>>, sep: Seq<char>) -> Seq<char>
    decreases ws.len(),
{
    if ws.len() == 0 {
        Seq::empty()
    } else if ws.len() == 1 {
        ws[0]
    } else {
        join(ws.drop_last(), sep) + sep + ws.last()
    }
}

/// Joins `ws[from..]` with single spaces (`[..].join(" ")`).
pub fn join_spaced(ws: &Vec<String>, from: usize) -> (r: String)
    requires
        from <= ws@.len(),
    ensures
        r@ == join(views(ws@).subrange(from as int, ws@.len() as int), " "@),
{
    let ghost t = views(ws@).subrange(from as int, ws@.len() as int);
    let mut out = String::new();
    let mut i: usize = from;
    assert(t.subrange(0, 0) =~= Seq::<Seq<char>>::empty());
    while i < ws.len()
        invariant
            from <= i <= ws@.len(),
            t == views(ws@).subrange(from as int, ws@.len() as int),
            out@ == join(t.subrange(0, i - from), " "@),
        decreases ws@.len() - i,
    {
        let ghost j = i - from;
        assert(t.subrange(0, j + 1).drop_last() =~= t.subrange(0, j));
        assert(t.subrange(0, j + 1).last() == ws@[i as int]@);
        if i > from {
            out.append(" ");
        } else {
            assert(t.subrange(0, j + 1) =~= seq![ws@[i as int]@]);
            assert(out@ =~= Seq::<char>::empty());
        }
        out.append(ws[i].as_str());
        i = i + 1;
    }
    assert(t.subrange(0, ws@.len() - from) =~= t);
    out
}

/// Splitting always yields at least one piece.
pub proof fn lemma_split_nonempty(s: Seq<char>, sep: char, cur: Seq<char>)
    ensures
        split_acc(s, sep, cur).len() >= 1,
    decreases s.len(),
{
    if s.len() > 0 {
        if s[0] == sep {
            lemma_split_nonempty(s.drop_first(), sep, Seq::empty());
        } else {
            lemma_split_nonempty(s.drop_first(), sep, cur.push(s[0]));
        }
    }
}

/// The elements of `s` from position `n` on; none when `s` is shorter
/// (`Iterator::skip`).
pub open spec fn skip_n<T>(s: Seq<T>, n: int) -> Seq<T> {
    if s.len() <= n {
        Seq::empty()
    } else {
        s.subrange(n, s.len() as int)
    }
}

/// The first `n` elements of `s`, or all of them when it is shorter
/// (`Iterator::take`).
pub open spec fn take_n<T>(s: Seq<T>, n: int) -> Seq<T> {
    if s.len() <= n {
        s
    } else {
        s.subrange(0, n)
    }
}

} // verus!
