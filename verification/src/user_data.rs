//! The user-data file: one line per finished game that beat the high score,
//! `<time> <high score>`, of which the last one counts.
use vstd::prelude::*;
use crate::text::{
    CharClass, chars_of, copy_range, is_space, lemma_lines_append, lemma_scan_bounds,
    lemma_scan_is, lemma_single_line, lines, lines_from, push_char, scan, scan_exec,
    strip_cr_exec, string_from_chars, word_end, word_start,
};

verus! {

// ---------------------------------------------------------------------------
// Decimal integers, as `i32::from_str` reads them and `i32`'s `Display`
// writes them.

pub open spec fn is_digit(c: char) -> bool {
    48 <= (c as u32) <= 57
}

pub open spec fn all_digits(s: Seq<char>) -> bool {
    forall|i: int| 0 <= i < s.len() ==> is_digit(#[trigger] s[i])
}

/// The number that a run of decimal digits denotes.
pub open spec fn digits_value(s: Seq<char>) -> int
    decreases s.len(),
{
    if s.len() == 0 {
        0
    } else {
        digits_value(s.drop_last()) * 10 + ((s.last() as u32) - 48)
    }
}

/// `s.parse::<i32>()`: an optional `+` or `-`, then one or more decimal
/// digits, whose value must fit in an `i32`.
pub open spec fn parse_i32(s: Seq<char>) -> Option<i32> {
    let signed = s.len() > 0 && (s[0] == '-' || s[0] == '+');
    let ds = if signed {
        s.drop_first()
    } else {
        s
    };
    let v = if s.len() > 0 && s[0] == '-' {
        -digits_value(ds)
    } else {
        digits_value(ds)
    };
    if ds.len() == 0 || !all_digits(ds) || v < i32::MIN || v > i32::MAX {
        None
    } else {
        Some(v as i32)
    }
}

pub open spec fn digit_char(d: nat) -> char {
    (d + 48) as char
}

/// The decimal digits of `n`, without leading zeros.
pub open spec fn nat_text(n: nat) -> Seq<char>
    decreases n,
{
    if n < 10 {
        seq![digit_char(n)]
    } else {
        nat_text(n / 10) + seq![digit_char(n % 10)]
    }
}

/// How `i32`'s `Display` writes `n`.
pub open spec fn int_text(n: int) -> Seq<char> {
    if n < 0 {
        seq!['-'] + nat_text((-n) as nat)
    } else {
        nat_text(n as nat)
    }
}

proof fn lemma_nat_text(n: nat)
    ensures
        nat_text(n).len() > 0,
        all_digits(nat_text(n)),
        digits_value(nat_text(n)) == n,
    decreases n,
{
    let t = nat_text(n);
    assert((digit_char(n % 10) as u32) == n % 10 + 48);
    if n >= 10 {
        lemma_nat_text(n / 10);
        assert(t.drop_last() =~= nat_text(n / 10));
        assert(t.last() == digit_char(n % 10));
        assert(digits_value(t) == (n / 10) * 10 + n % 10);
        assert forall|i: int| 0 <= i < t.len() implies is_digit(#[trigger] t[i]) by {
            if i < t.len() - 1 {
                assert(t[i] == nat_text(n / 10)[i]);
            }
        }
    } else {
        assert(t.drop_last() =~= Seq::<char>::empty());
        assert(n % 10 == n);
        assert(t.last() == digit_char(n));
        assert(digits_value(t) == digits_value(t.drop_last()) * 10 + ((t.last() as u32) - 48));
    }
}

/// Decimal text reads back as the number it was written from.
pub proof fn lemma_int_text_parses(n: i32)
    ensures
        parse_i32(int_text(n as int)) == Some(n),
{
    if n < 0 {
        let t = int_text(n as int);
        lemma_nat_text((-n) as nat);
        assert(t.drop_first() =~= nat_text((-n) as nat));
    } else {
        lemma_nat_text(n as nat);
        let t = nat_text(n as nat);
        assert(is_digit(t[0]));
    }
}

proof fn lemma_digits_value_nonneg(s: Seq<char>)
    requires
        all_digits(s),
    ensures
        digits_value(s) >= 0,
    decreases s.len(),
{
    if s.len() > 0 {
        assert(all_digits(s.drop_last())) by {
            assert forall|i: int| 0 <= i < s.drop_last().len() implies is_digit(
                #[trigger] s.drop_last()[i],
            ) by {
                assert(s.drop_last()[i] == s[i]);
            }
        }
        lemma_digits_value_nonneg(s.drop_last());
        assert(is_digit(s[s.len() - 1]));
    }
}

/// Reading more digits never makes the number smaller.
proof fn lemma_digits_value_grows(s: Seq<char>, k: int)
    requires
        all_digits(s),
        0 <= k <= s.len(),
    ensures
        digits_value(s.take(k)) <= digits_value(s),
    decreases s.len() - k,
{
    if k < s.len() {
        lemma_digits_value_grows(s, k + 1);
        let p = s.take(k + 1);
        assert(p.drop_last() =~= s.take(k));
        assert(all_digits(s.take(k))) by {
            assert forall|i: int| 0 <= i < k implies is_digit(#[trigger] s.take(k)[i]) by {
                assert(s.take(k)[i] == s[i]);
            }
        }
        lemma_digits_value_nonneg(s.take(k));
        assert(is_digit(s[k]));
        assert(p.last() == s[k]);
    } else {
        assert(s.take(k) =~= s);
    }
}

/// `s.parse::<i32>()`.
pub fn parse_i32_exec(s: &Vec<char>) -> (r: Option<i32>)
    ensures
        r == parse_i32(s@),
{
    let n = s.len();
    if n == 0 {
        return None;
    }
    let neg = s[0] == '-';
    let start: usize = if s[0] == '-' || s[0] == '+' {
        1
    } else {
        0
    };
    let ghost ds = s@.subrange(start as int, n as int);
    assert(ds =~= if s@.len() > 0 && (s@[0] == '-' || s@[0] == '+') {
        s@.drop_first()
    } else {
        s@
    });
    if start >= n {
        return None;
    }
    let mut acc: i64 = 0;
    let mut i: usize = start;
    while i < n
        invariant
            start <= i <= n == s.len(),
            start <= 1,
            start == 1 <==> (s@[0] == '-' || s@[0] == '+'),
            neg == (s@[0] == '-'),
            ds == s@.subrange(start as int, n as int),
            all_digits(ds.take(i - start)),
            acc == digits_value(ds.take(i - start)),
            0 <= acc <= 2147483648,
        decreases n - i,
    {
        let c = s[i];
        let u = c as u32;
        if u < 48 || u > 57 {
            assert(ds[i - start] == s@[i as int]);
            assert(!is_digit(ds[i - start]));
            assert(!all_digits(ds));
            return None;
        }
        let ghost before = ds.take(i - start);
        acc = acc * 10 + (u - 48) as i64;
        i = i + 1;
        proof {
            let now = ds.take(i - start);
            assert(now.drop_last() =~= before);
            assert(now.last() == c);
            assert forall|j: int| 0 <= j < now.len() implies is_digit(#[trigger] now[j]) by {
                if j < now.len() - 1 {
                    assert(now[j] == before[j]);
                }
            }
        }
        if acc > 2147483648 {
            proof {
                if all_digits(ds) {
                    lemma_digits_value_grows(ds, i - start);
                    assert(digits_value(ds) > 2147483648);
                }
                assert(ds =~= if s@.len() > 0 && (s@[0] == '-' || s@[0] == '+') {
                    s@.drop_first()
                } else {
                    s@
                });
            }
            return None;
        }
    }
    assert(ds.take(n - start) =~= ds);
    if neg {
        Some((-acc) as i32)
    } else if acc > 2147483647 {
        None
    } else {
        Some(acc as i32)
    }
}

// ---------------------------------------------------------------------------
// The file format.

/// Why the last line of a user-data file cannot be read.
#[derive(Clone, Copy, PartialEq, Eq, Structural, Debug)]
pub enum UserDataError {
    /// The last line has fewer than two words.
    MissingScore,
    /// The second word of the last line is not an `i32`.
    InvalidScore,
}

/// The time recorded when no user data has been saved yet.
pub open spec fn default_time() -> Seq<char> {
    seq!['0', '.', '0', '.', '0']
}

/// What a user-data file holds: with no line, the time `0.0.0` and the high
/// score 0; otherwise the first two whitespace-separated words of the last
/// line, the time and the high score, which must be an `i32`.
pub open spec fn user_data_of(contents: Seq<char>) -> Result<(Seq<char>, i32), UserDataError> {
    let ls = lines(contents);
    if ls.len() == 0 {
        Ok((default_time(), 0))
    } else {
        let l = ls.last();
        let a0 = word_start(l, 0);
        let b0 = word_end(l, 0);
        let a1 = word_start(l, b0);
        let b1 = word_end(l, b0);
        if a0 >= l.len() || a1 >= l.len() {
            Err(UserDataError::MissingScore)
        } else {
            match parse_i32(l.subrange(a1 as int, b1 as int)) {
                Some(v) => Ok((l.subrange(a0 as int, b0 as int), v)),
                None => Err(UserDataError::InvalidScore),
            }
        }
    }
}

/// The line that saving appends: the time, a space, the high score, `\n`.
pub open spec fn entry_text(time: Seq<char>, high_score: i32) -> Seq<char> {
    time + seq![' '] + int_text(high_score as int) + seq!['\n']
}

/// A time as the clock writes it: `%Y-%m-%d:%H-%M-%S`, made of digits and
/// the signs `-`, `:` and `+`.
pub open spec fn is_timestamp(t: Seq<char>) -> bool {
    &&& t.len() > 0
    &&& forall|i: int|
        0 <= i < t.len() ==> is_digit(#[trigger] t[i]) || t[i] == '-' || t[i] == ':' || t[i]
            == '+'
}

/// A time that a user-data line can carry: one non-empty word.
pub open spec fn is_word(t: Seq<char>) -> bool {
    &&& t.len() > 0
    &&& forall|i: int| 0 <= i < t.len() ==> !is_space(#[trigger] t[i])
}

/// The record of the best score kept between sessions.
pub struct UserData {
    /// When the record was saved.
    pub time: String,
    pub high_score: i32,
}

/// The local time formatted as `%Y-%m-%d:%H-%M-%S` by
/// `chrono::Local::now().format(..)`. Per chrono's formatting code every
/// field is written as zero-padded digits, and a year outside `0..10000`
/// gets a `+` or `-` sign, so the text is digits and `-`, `:`, `+`. Which
/// time it is, is not stated.
#[verifier::external_body]
fn local_timestamp() -> (t: String)
    ensures
        is_timestamp(t@),
{
    chrono::Local::now().format("%Y-%m-%d:%H-%M-%S").to_string()
}

fn push_nat(s: &mut String, m: u64)
    ensures
        final(s)@ == old(s)@ + nat_text(m as nat),
    decreases m,
{
    if m >= 10 {
        push_nat(s, m / 10);
    }
    let d = (m % 10) as u8;
    let c = (d + 48) as char;
    proof {
        assert(c == digit_char((m % 10) as nat));
    }
    push_char(s, c);
    assert(final(s)@ =~= old(s)@ + nat_text(m as nat));
}

/// Appends `n` as `i32`'s `Display` writes it.
pub fn push_i32(s: &mut String, n: i32)
    ensures
        final(s)@ == old(s)@ + int_text(n as int),
{
    if n < 0 {
        push_char(s, '-');
        let m: u64 = (-(n as i64)) as u64;
        push_nat(s, m);
        assert(final(s)@ =~= old(s)@ + int_text(n as int));
    } else {
        push_nat(s, n as u64);
    }
}

impl UserData {
    /// Reads the user data out of the text of a user-data file.
    pub fn from_contents(contents: &str) -> (r: Result<UserData, UserDataError>)
        ensures
            match r {
                Ok(u) => user_data_of(contents@) == Ok::<(Seq<char>, i32), UserDataError>(
                    (u.time@, u.high_score),
                ),
                Err(e) => user_data_of(contents@) == Err::<(Seq<char>, i32), UserDataError>(e),
            },
    {
        let text = chars_of(contents);
        let mut last: Option<Vec<char>> = None;
        let ghost mut seen: Seq<Seq<char>> = Seq::empty();
        let mut start: usize = 0;
        assert(lines(text@) =~= seen + lines_from(text@, 0));
        while start < text.len()
            invariant
                start <= text.len(),
                text@ == contents@,
                lines(text@) == seen + lines_from(text@, start as nat),
                match last {
                    Some(l) => seen.len() > 0 && l@ == seen.last(),
                    None => seen.len() == 0,
                },
            decreases text.len() - start,
        {
            let e = scan_exec(&text, start, CharClass::Newline);
            proof {
                lemma_scan_bounds(text@, start as nat, CharClass::Newline);
            }
            let line = if e >= text.len() {
                copy_range(&text, start, text.len())
            } else {
                let raw = copy_range(&text, start, e);
                strip_cr_exec(raw)
            };
            let ghost rest = if e >= text.len() {
                Seq::<Seq<char>>::empty()
            } else {
                lines_from(text@, (e + 1) as nat)
            };
            assert(lines_from(text@, start as nat) == seq![line@] + rest);
            proof {
                assert(seen + (seq![line@] + rest) =~= seen.push(line@) + rest);
                seen = seen.push(line@);
            }
            last = Some(line);
            start = if e >= text.len() {
                text.len()
            } else {
                e + 1
            };
        }
        assert(lines_from(text@, start as nat) =~= Seq::<Seq<char>>::empty());
        assert(lines(text@) =~= seen);
        match last {
            None => {
                let time = String::from_str("0.0.0");
                proof {
                    reveal_strlit("0.0.0");
                }
                assert(time@ =~= default_time());
                Ok(UserData { time, high_score: 0 })
            },
            Some(l) => {
                let a0 = scan_exec(&l, 0, CharClass::NonSpace);
                if a0 >= l.len() {
                    return Err(UserDataError::MissingScore);
                }
                let b0 = scan_exec(&l, a0, CharClass::Space);
                proof {
                    lemma_scan_bounds(l@, a0 as nat, CharClass::Space);
                }
                let a1 = scan_exec(&l, b0, CharClass::NonSpace);
                if a1 >= l.len() {
                    return Err(UserDataError::MissingScore);
                }
                let b1 = scan_exec(&l, a1, CharClass::Space);
                proof {
                    lemma_scan_bounds(l@, b0 as nat, CharClass::NonSpace);
                    lemma_scan_bounds(l@, a1 as nat, CharClass::Space);
                }
                let score_text = copy_range(&l, a1, b1);
                match parse_i32_exec(&score_text) {
                    None => Err(UserDataError::InvalidScore),
                    Some(v) => {
                        let word = copy_range(&l, a0, b0);
                        let time = string_from_chars(&word);
                        Ok(UserData { time, high_score: v })
                    },
                }
            },
        }
    }

    /// The line that saving this record appends to the user-data file.
    pub fn entry(&self) -> (r: String)
        ensures
            r@ == entry_text(self.time@, self.high_score),
    {
        let mut s = String::new();
        s.append(self.time.as_str());
        push_char(&mut s, ' ');
        push_i32(&mut s, self.high_score);
        push_char(&mut s, '\n');
        assert(s@ =~= entry_text(self.time@, self.high_score));
        s
    }

    /// Stamps the record with the local time and returns the line that saving
    /// it appends to the user-data file.
    pub fn save_entry(&mut self) -> (r: String)
        ensures
            final(self).high_score == old(self).high_score,
            is_timestamp(final(self).time@),
            r@ == entry_text(final(self).time@, final(self).high_score),
    {
        self.time = local_timestamp();
        self.entry()
    }
}

/// A timestamp is one word.
pub proof fn lemma_timestamp_is_word(t: Seq<char>)
    requires
        is_timestamp(t),
    ensures
        is_word(t),
{
    assert forall|i: int| 0 <= i < t.len() implies !is_space(#[trigger] t[i]) by {
        assert(is_digit(t[i]) || t[i] == '-' || t[i] == ':' || t[i] == '+');
    }
}

/// Loading gives back what the last save wrote: when the user-data file is
/// empty or ends with a complete line, appending the entry for `time` and
/// `high_score` makes the file read as exactly that time and high score.
pub proof fn lemma_load_after_save(contents: Seq<char>, time: Seq<char>, high_score: i32)
    requires
        contents.len() == 0 || contents.last() == '\n',
        is_word(time),
    ensures
        user_data_of(contents + entry_text(time, high_score)) == Ok::<
            (Seq<char>, i32),
            UserDataError,
        >((time, high_score)),
{
    let digits = int_text(high_score as int);
    let x = time + seq![' '] + digits;
    let e = entry_text(time, high_score);
    assert(e =~= x.push('\n'));
    lemma_int_text_parses(high_score);
    lemma_nat_text(if high_score < 0 {
        (-high_score) as nat
    } else {
        high_score as nat
    });
    assert forall|i: int| 0 <= i < digits.len() implies !is_space(#[trigger] digits[i]) && digits[i]
        != '\n' by {
        if high_score < 0 {
            if i > 0 {
                assert(digits[i] == nat_text((-high_score) as nat)[i - 1]);
                assert(is_digit(nat_text((-high_score) as nat)[i - 1]));
            }
        } else {
            assert(is_digit(nat_text(high_score as nat)[i]));
        }
    }
    let tl = time.len();
    assert forall|i: int| 0 <= i < x.len() implies #[trigger] x[i] != '\n' && (i != tl ==> !is_space(
        x[i],
    )) by {
        if i < tl {
            assert(x[i] == time[i]);
        } else if i > tl {
            assert(x[i] == digits[i - tl - 1]);
        }
    }
    assert(x.last() == digits.last());
    lemma_single_line(x);
    lemma_lines_append(contents, e, 0);
    let ls = lines(contents + e);
    assert(ls =~= lines(contents) + seq![x]);
    assert(ls.last() == x);
    // the two words of the line
    lemma_scan_is(x, 0, 0, CharClass::NonSpace);
    assert forall|m: int| 0 <= m < tl implies !crate::text::in_class(
        #[trigger] x[m],
        CharClass::Space,
    ) by {}
    lemma_scan_is(x, 0, tl, CharClass::Space);
    lemma_scan_is(x, tl, tl + 1, CharClass::NonSpace);
    assert forall|m: int| tl + 1 <= m < x.len() implies !crate::text::in_class(
        #[trigger] x[m],
        CharClass::Space,
    ) by {}
    lemma_scan_is(x, tl + 1, x.len(), CharClass::Space);
    assert(x.subrange(0, tl as int) =~= time);
    assert(x.subrange(tl + 1 as int, x.len() as int) =~= digits);
}

} // verus!
