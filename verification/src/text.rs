//! Character-level scanning shared by the settings and user-data file formats:
//! line splitting, whitespace trimming and word boundaries, specified the way
//! `str::lines`, `str::trim`, `str::trim_matches` and `str::split_whitespace`
//! behave.
use vstd::prelude::*;
use vstd::std_specs::iter::IteratorSpec;

verus! {

/// The classes of characters that the file formats scan for.
#[derive(Clone, Copy, PartialEq, Eq, Structural)]
pub enum CharClass {
    Space,
    NonSpace,
    Newline,
    Colon,
    NonQuote,
}

/// `char::is_whitespace`: the Unicode `White_Space` property.
pub open spec fn is_space(c: char) -> bool {
    let u = c as u32;
    ||| 0x09 <= u <= 0x0d
    ||| u == 0x20
    ||| u == 0x85
    ||| u == 0xa0
    ||| u == 0x1680
    ||| 0x2000 <= u <= 0x200a
    ||| u == 0x2028
    ||| u == 0x2029
    ||| u == 0x202f
    ||| u == 0x205f
    ||| u == 0x3000
}

pub open spec fn in_class(c: char, k: CharClass) -> bool {
    match k {
        CharClass::Space => is_space(c),
        CharClass::NonSpace => !is_space(c),
        CharClass::Newline => c == '\n',
        CharClass::Colon => c == ':',
        CharClass::NonQuote => c != '"',
    }
}

/// The first index at or after `i` whose character is in class `k`, or the
/// length of `s` when there is none.
pub open spec fn scan(s: Seq<char>, i: nat, k: CharClass) -> nat
    decreases s.len() - i,
{
    if i >= s.len() {
        s.len()
    } else if in_class(s[i as int], k) {
        i
    } else {
        scan(s, i + 1, k)
    }
}

/// The end of the last character of class `k` at or before position `j`
/// (that is, the largest `e <= j` with `s[e - 1]` in class `k`), or 0.
pub open spec fn rscan(s: Seq<char>, j: nat, k: CharClass) -> nat
    decreases j,
{
    if j == 0 {
        0
    } else if j <= s.len() && in_class(s[j - 1], k) {
        j
    } else {
        rscan(s, (j - 1) as nat, k)
    }
}

/// `s` without leading and trailing characters outside class `keep`.
pub open spec fn strip(s: Seq<char>, keep: CharClass) -> Seq<char> {
    let a = scan(s, 0, keep);
    let b = rscan(s, s.len(), keep);
    if a < b {
        s.subrange(a as int, b as int)
    } else {
        Seq::empty()
    }
}

/// `str::trim`.
pub open spec fn trim(s: Seq<char>) -> Seq<char> {
    strip(s, CharClass::NonSpace)
}

/// `str::trim_matches('"')`.
pub open spec fn trim_quotes(s: Seq<char>) -> Seq<char> {
    strip(s, CharClass::NonQuote)
}

/// A line ended by `\n` loses one `\r` before it, as `str::lines` does.
pub open spec fn strip_cr(s: Seq<char>) -> Seq<char> {
    if s.len() > 0 && s.last() == '\r' {
        s.drop_last()
    } else {
        s
    }
}

/// `str::lines` on the text that starts at position `i`.
pub open spec fn lines_from(s: Seq<char>, i: nat) -> Seq<Seq<char>>
    decreases s.len() - i,
{
    if i >= s.len() {
        Seq::empty()
    } else {
        let e = scan(s, i, CharClass::Newline);
        if e >= s.len() {
            seq![s.subrange(i as int, s.len() as int)]
        } else {
            proof {
                lemma_scan_bounds(s, i, CharClass::Newline);
            }
            seq![strip_cr(s.subrange(i as int, e as int))] + lines_from(s, e + 1)
        }
    }
}

/// `str::lines`.
pub open spec fn lines(s: Seq<char>) -> Seq<Seq<char>> {
    lines_from(s, 0)
}

/// Where the first whitespace-separated word at or after `i` starts.
pub open spec fn word_start(s: Seq<char>, i: nat) -> nat {
    scan(s, i, CharClass::NonSpace)
}

/// Where the first whitespace-separated word at or after `i` ends.
pub open spec fn word_end(s: Seq<char>, i: nat) -> nat {
    scan(s, word_start(s, i), CharClass::Space)
}

pub proof fn lemma_scan_bounds(s: Seq<char>, i: nat, k: CharClass)
    ensures
        i <= s.len() ==> i <= scan(s, i, k),
        scan(s, i, k) <= s.len(),
        scan(s, i, k) < s.len() ==> in_class(s[scan(s, i, k) as int], k),
        forall|m: int| i <= m < scan(s, i, k) ==> !in_class(#[trigger] s[m], k),
    decreases s.len() - i,
{
    if i < s.len() && !in_class(s[i as int], k) {
        lemma_scan_bounds(s, i + 1, k);
    }
}

/// A scan stops at the first position of the class.
pub proof fn lemma_scan_is(s: Seq<char>, i: nat, j: nat, k: CharClass)
    requires
        i <= j <= s.len(),
        forall|m: int| i <= m < j ==> !in_class(#[trigger] s[m], k),
        j == s.len() || in_class(s[j as int], k),
    ensures
        scan(s, i, k) == j,
    decreases j - i,
{
    if i < j {
        lemma_scan_is(s, i + 1, j, k);
    }
}

pub proof fn lemma_rscan_bounds(s: Seq<char>, j: nat, k: CharClass)
    requires
        j <= s.len(),
    ensures
        rscan(s, j, k) <= j,
        rscan(s, j, k) > 0 ==> in_class(s[rscan(s, j, k) - 1], k),
        forall|m: int| rscan(s, j, k) <= m < j ==> !in_class(#[trigger] s[m], k),
    decreases j,
{
    if j > 0 && !in_class(s[j - 1], k) {
        lemma_rscan_bounds(s, (j - 1) as nat, k);
    }
}

/// A backward scan stops right after the last position of the class.
pub proof fn lemma_rscan_is(s: Seq<char>, i: nat, j: nat, k: CharClass)
    requires
        i <= j <= s.len(),
        forall|m: int| i <= m < j ==> !in_class(#[trigger] s[m], k),
        i == 0 || in_class(s[i - 1], k),
    ensures
        rscan(s, j, k) == i,
    decreases j - i,
{
    if i < j {
        lemma_rscan_is(s, i, (j - 1) as nat, k);
    }
}

/// Stripping text whose first and last characters are kept changes nothing.
pub proof fn lemma_strip_keeps(s: Seq<char>, keep: CharClass)
    requires
        s.len() > 0,
        in_class(s[0], keep),
        in_class(s.last(), keep),
    ensures
        strip(s, keep) == s,
{
    lemma_scan_is(s, 0, 0, keep);
    lemma_rscan_is(s, s.len(), s.len(), keep);
    assert(s.subrange(0, s.len() as int) =~= s);
}

/// Stripping removes a run of dropped characters on either side.
pub proof fn lemma_strip_around(s: Seq<char>, keep: CharClass, a: nat, b: nat)
    requires
        a < b <= s.len(),
        forall|m: int| 0 <= m < a ==> !in_class(#[trigger] s[m], keep),
        forall|m: int| b <= m < s.len() ==> !in_class(#[trigger] s[m], keep),
        in_class(s[a as int], keep),
        in_class(s[b - 1], keep),
    ensures
        strip(s, keep) == s.subrange(a as int, b as int),
{
    lemma_scan_is(s, 0, a, keep);
    lemma_rscan_is(s, b, s.len(), keep);
}

/// Scanning the tail `b` of `a + b` is scanning `b`, shifted by `|a|`.
pub proof fn lemma_scan_shift(a: Seq<char>, b: Seq<char>, j: nat, k: CharClass)
    ensures
        scan(a + b, a.len() + j, k) == a.len() + scan(b, j, k),
    decreases b.len() - j,
{
    let s = a + b;
    if j < b.len() {
        assert(s[a.len() + j as int] == b[j as int]);
        if !in_class(b[j as int], k) {
            lemma_scan_shift(a, b, j + 1, k);
            assert(a.len() + j + 1 == a.len() + (j + 1));
        }
    }
}

/// A scan that stops inside `a` gives the same answer on `a + b`.
pub proof fn lemma_scan_prefix(a: Seq<char>, b: Seq<char>, i: nat, k: CharClass)
    requires
        scan(a, i, k) < a.len(),
    ensures
        scan(a + b, i, k) == scan(a, i, k),
    decreases a.len() - i,
{
    let s = a + b;
    assert(s[i as int] == a[i as int]);
    if !in_class(a[i as int], k) {
        lemma_scan_prefix(a, b, i + 1, k);
    }
}

/// The lines of the tail `b` of `a + b` are the lines of `b`.
pub proof fn lemma_lines_shift(a: Seq<char>, b: Seq<char>, j: nat)
    ensures
        lines_from(a + b, a.len() + j) == lines_from(b, j),
    decreases b.len() - j,
{
    let s = a + b;
    if j < b.len() {
        lemma_scan_shift(a, b, j, CharClass::Newline);
        let e = scan(b, j, CharClass::Newline);
        lemma_scan_bounds(b, j, CharClass::Newline);
        if e < b.len() {
            lemma_lines_shift(a, b, e + 1);
            assert(a.len() + e + 1 == a.len() + (e + 1));
            assert(s.subrange(a.len() + j as int, a.len() + e as int) =~= b.subrange(j as int, e as int));
        } else {
            assert(s.subrange(a.len() + j as int, s.len() as int) =~= b.subrange(j as int, b.len() as int));
        }
    }
}

/// Text appended after a complete line starts new lines: when `a` is empty
/// or ends with `\n`, `lines(a + b) == lines(a) + lines(b)`.
pub proof fn lemma_lines_append(a: Seq<char>, b: Seq<char>, i: nat)
    requires
        a.len() == 0 || a.last() == '\n',
        i <= a.len(),
    ensures
        lines_from(a + b, i) == lines_from(a, i) + lines(b),
    decreases a.len() - i,
{
    let s = a + b;
    if i == a.len() {
        lemma_lines_shift(a, b, 0);
        assert(lines_from(a, i) =~= Seq::<Seq<char>>::empty());
        assert(lines_from(a, i) + lines(b) =~= lines(b));
        assert(a.len() + 0 == i);
    } else {
        assert(in_class(a[a.len() - 1], CharClass::Newline));
        lemma_scan_bounds(a, i, CharClass::Newline);
        if scan(a, i, CharClass::Newline) == a.len() {
            assert(!in_class(a[a.len() - 1], CharClass::Newline));
        }
        let e = scan(a, i, CharClass::Newline);
        lemma_scan_prefix(a, b, i, CharClass::Newline);
        lemma_lines_append(a, b, e + 1);
        assert(s.subrange(i as int, e as int) =~= a.subrange(i as int, e as int));
        let l = strip_cr(a.subrange(i as int, e as int));
        assert(seq![l] + (lines_from(a, e + 1) + lines(b)) =~= (seq![l] + lines_from(a, e + 1))
            + lines(b));
    }
}

/// A file holding one line `x` and its `\n` has exactly that line.
pub proof fn lemma_single_line(x: Seq<char>)
    requires
        x.len() > 0,
        x.last() != '\r',
        forall|m: int| 0 <= m < x.len() ==> #[trigger] x[m] != '\n',
    ensures
        lines(x.push('\n')) == seq![x],
{
    let s = x.push('\n');
    assert forall|m: int| 0 <= m < x.len() implies !in_class(#[trigger] s[m], CharClass::Newline) by {
        assert(s[m] == x[m]);
    }
    lemma_scan_is(s, 0, x.len(), CharClass::Newline);
    assert(s.subrange(0, x.len() as int) =~= x);
    assert(lines_from(s, (x.len() + 1) as nat) == Seq::<Seq<char>>::empty());
    assert(lines(s) =~= seq![x]);
}

// ---------------------------------------------------------------------------
// Executable scanning.

pub fn is_space_exec(c: char) -> (r: bool)
    ensures
        r == is_space(c),
{
    let u = c as u32;
    (0x09 <= u && u <= 0x0d) || u == 0x20 || u == 0x85 || u == 0xa0 || u == 0x1680 || (0x2000
        <= u && u <= 0x200a) || u == 0x2028 || u == 0x2029 || u == 0x202f || u == 0x205f || u
        == 0x3000
}

pub fn in_class_exec(c: char, k: CharClass) -> (r: bool)
    ensures
        r == in_class(c, k),
{
    match k {
        CharClass::Space => is_space_exec(c),
        CharClass::NonSpace => !is_space_exec(c),
        CharClass::Newline => c == '\n',
        CharClass::Colon => c == ':',
        CharClass::NonQuote => c != '"',
    }
}

pub fn scan_exec(s: &Vec<char>, i: usize, k: CharClass) -> (r: usize)
    requires
        i <= s.len(),
    ensures
        r == scan(s@, i as nat, k),
{
    let mut j = i;
    while j < s.len() && !in_class_exec(s[j], k)
        invariant
            i <= j <= s.len(),
            scan(s@, j as nat, k) == scan(s@, i as nat, k),
        decreases s.len() - j,
    {
        j = j + 1;
    }
    j
}

pub fn rscan_exec(s: &Vec<char>, j: usize, k: CharClass) -> (r: usize)
    requires
        j <= s.len(),
    ensures
        r == rscan(s@, j as nat, k),
{
    let mut e = j;
    while e > 0 && !in_class_exec(s[e - 1], k)
        invariant
            e <= j <= s.len(),
            rscan(s@, e as nat, k) == rscan(s@, j as nat, k),
        decreases e,
    {
        e = e - 1;
    }
    e
}

/// The characters of `s` from `lo` up to `hi`, copied.
pub fn copy_range(s: &Vec<char>, lo: usize, hi: usize) -> (r: Vec<char>)
    requires
        lo <= hi <= s.len(),
    ensures
        r@ == s@.subrange(lo as int, hi as int),
{
    let mut r: Vec<char> = Vec::new();
    let mut i = lo;
    while i < hi
        invariant
            lo <= i <= hi <= s.len(),
            r@ == s@.subrange(lo as int, i as int),
        decreases hi - i,
    {
        r.push(s[i]);
        i = i + 1;
        assert(r@ =~= s@.subrange(lo as int, i as int));
    }
    r
}

pub fn strip_exec(s: &Vec<char>, keep: CharClass) -> (r: Vec<char>)
    ensures
        r@ == strip(s@, keep),
{
    let a = scan_exec(s, 0, keep);
    let b = rscan_exec(s, s.len(), keep);
    proof {
        lemma_scan_bounds(s@, 0, keep);
        lemma_rscan_bounds(s@, s@.len(), keep);
    }
    if a < b {
        copy_range(s, a, b)
    } else {
        Vec::new()
    }
}

pub fn strip_cr_exec(s: Vec<char>) -> (r: Vec<char>)
    ensures
        r@ == strip_cr(s@),
{
    let mut s = s;
    if s.len() > 0 && s[s.len() - 1] == '\r' {
        s.pop();
    }
    s
}

/// `String::push`, which appends one character to the string.
#[verifier::external_body]
pub fn push_char(s: &mut String, c: char)
    ensures
        final(s)@ == old(s)@.push(c),
{
    s.push(c);
}

/// A string of the given characters.
pub fn string_from_chars(v: &Vec<char>) -> (r: String)
    ensures
        r@ == v@,
{
    let mut r = String::new();
    let mut i: usize = 0;
    while i < v.len()
        invariant
            i <= v.len(),
            r@ == v@.subrange(0, i as int),
        decreases v.len() - i,
    {
        push_char(&mut r, v[i]);
        i = i + 1;
        assert(r@ =~= v@.subrange(0, i as int));
    }
    assert(r@ =~= v@);
    r
}

/// The characters of a string.
pub fn chars_of(s: &str) -> (r: Vec<char>)
    ensures
        r@ == s@,
{
    broadcast use vstd::string::axiom_spec_iter, vstd::string::next_postcondition;

    let mut it = s.chars();
    let mut r: Vec<char> = Vec::new();
    loop
        invariant
            r@ + IteratorSpec::remaining(&it) == s@,
            it.obeys_prophetic_iter_laws(),
            IteratorSpec::decrease(&it) is Some,
        ensures
            r@ == s@,
        decreases IteratorSpec::decrease(&it)->0,
    {
        let ghost before = IteratorSpec::remaining(&it);
        match it.next() {
            Some(c) => {
                r.push(c);
                assert(r@ + IteratorSpec::remaining(&it) =~= s@) by {
                    assert(before =~= seq![c] + before.drop_first());
                }
            },
            None => {
                assert(r@ =~= s@);
                break;
            },
        }
    }
    r
}

} // verus!
