use vstd::prelude::*;
use crate::text::{
    CharClass, chars_of, copy_range, lines, lines_from, lemma_scan_bounds, lemma_scan_is, lemma_single_line, lemma_strip_around, lemma_strip_keeps, scan, in_class, is_space, scan_exec, strip_cr_exec,
    strip_exec, trim, trim_quotes,
};

verus! {

/// The value that `safe_u8_add(a, b)` computes: `a + b` reflected back into
/// `0..=255` as a triangle wave of period 510.
pub open spec fn reflect_u8(a: int, b: int) -> int {
    let s = (a + b) % 510;
    if s <= 255 { s } else { 510 - s }
}

/// Adds a signed offset to a colour channel; instead of wrapping around, the
/// channel bounces between 0 and 255.
pub fn safe_u8_add(a: u8, b: i32) -> (r: u8)
    requires
        a + b <= i32::MAX,
    ensures
        r == reflect_u8(a as int, b as int),
{
    let x = a as i32;
    let y = b;
    let m: i32 = 255;
    let sum: i32 = match (x + y).checked_rem_euclid(m * 2) {
        Some(s) => s,
        None => 0,
    };
    let d: i32 = sum - m;
    let dist: i32 = if d < 0 { -d } else { d };
    let b_sum: i32 = m - dist;
    b_sum as u8
}


/// `safe_u8_add` adds exactly while the sum is a valid channel value, and
/// bounces off the ends otherwise: a sum above 255 comes back down from 255
/// and a sum below 0 comes back up from 0.
pub proof fn lemma_safe_u8_add_bounces(a: int, b: int)
    ensures
        0 <= a + b <= 255 ==> reflect_u8(a, b) == a + b,
        255 < a + b <= 510 ==> reflect_u8(a, b) == 510 - (a + b),
        -255 <= a + b < 0 ==> reflect_u8(a, b) == -(a + b),
        0 <= reflect_u8(a, b) <= 255,
        reflect_u8(a, b + 510) == reflect_u8(a, b),
{
    let s = a + b;
    assert((s + 510) % 510 == s % 510) by {
        vstd::arithmetic::div_mod::lemma_mod_add_multiples_vanish(s, 510);
    }
    if -255 <= s < 0 {
        assert(s % 510 == s + 510) by {
            vstd::arithmetic::div_mod::lemma_mod_add_multiples_vanish(s, 510);
            vstd::arithmetic::div_mod::lemma_small_mod((s + 510) as nat, 510);
        }
    }
    if 0 <= s <= 510 {
        if s < 510 {
            vstd::arithmetic::div_mod::lemma_small_mod(s as nat, 510);
        }
    }
}

/// The game options kept in the settings file.
#[derive(Clone, Copy, PartialEq, Eq, Structural)]
pub struct Settings {
    /// Whether the camera circles the tower.
    pub rotation: bool,
}

/// `rotation`
pub open spec fn rotation_word() -> Seq<char> {
    seq!['r', 'o', 't', 'a', 't', 'i', 'o', 'n']
}

/// `true`
pub open spec fn true_word() -> Seq<char> {
    seq!['t', 'r', 'u', 'e']
}

/// `false`
pub open spec fn false_word() -> Seq<char> {
    seq!['f', 'a', 'l', 's', 'e']
}

/// What one line of the settings file says about `rotation`: the line is
/// trimmed, split at its first `:`, and key and value are trimmed of
/// whitespace and then of `"`; a line whose key is `rotation` sets the option
/// to whether the value is `true`. Other lines say nothing.
pub open spec fn line_rotation(l: Seq<char>) -> Option<bool> {
    let t = trim(l);
    let c = scan(t, 0, CharClass::Colon);
    if t.len() == 0 || c >= t.len() {
        None
    } else {
        let key = trim_quotes(trim(t.subrange(0, c as int)));
        let value = trim_quotes(trim(t.subrange(c + 1 as int, t.len() as int)));
        if key == rotation_word() {
            Some(value == true_word())
        } else {
            None
        }
    }
}

/// The option after reading one more line.
pub open spec fn apply_line(acc: bool, l: Seq<char>) -> bool {
    match line_rotation(l) {
        Some(b) => b,
        None => acc,
    }
}

/// The option after reading `ls` in order, starting from `acc`.
pub open spec fn settle(acc: bool, ls: Seq<Seq<char>>) -> bool
    decreases ls.len(),
{
    if ls.len() == 0 {
        acc
    } else {
        settle(apply_line(acc, ls[0]), ls.drop_first())
    }
}

/// The `rotation` option that a settings file holds: off unless some line
/// sets it, and the last line that sets it wins.
pub open spec fn rotation_setting(contents: Seq<char>) -> bool {
    settle(false, lines(contents))
}

/// The settings file that `Settings::to_contents` writes:
/// `"rotation": "true"` or `"rotation": "false"`, then a newline.
pub open spec fn settings_text(rotation: bool) -> Seq<char> {
    seq!['"'] + rotation_word() + seq!['"', ':', ' ', '"'] + (if rotation {
        true_word()
    } else {
        false_word()
    }) + seq!['"', '\n']
}

fn is_rotation_word(s: &Vec<char>) -> (r: bool)
    ensures
        r == (s@ == rotation_word()),
{
    if s.len() == 8 && s[0] == 'r' && s[1] == 'o' && s[2] == 't' && s[3] == 'a' && s[4] == 't'
        && s[5] == 'i' && s[6] == 'o' && s[7] == 'n' {
        assert(s@ =~= rotation_word());
        true
    } else {
        false
    }
}

fn is_true_word(s: &Vec<char>) -> (r: bool)
    ensures
        r == (s@ == true_word()),
{
    if s.len() == 4 && s[0] == 't' && s[1] == 'r' && s[2] == 'u' && s[3] == 'e' {
        assert(s@ =~= true_word());
        true
    } else {
        false
    }
}

fn line_rotation_exec(l: &Vec<char>) -> (r: Option<bool>)
    ensures
        r == line_rotation(l@),
{
    let t = strip_exec(l, CharClass::NonSpace);
    if t.len() == 0 {
        return None;
    }
    let c = scan_exec(&t, 0, CharClass::Colon);
    if c >= t.len() {
        return None;
    }
    let k0 = copy_range(&t, 0, c);
    let k1 = strip_exec(&k0, CharClass::NonSpace);
    let key = strip_exec(&k1, CharClass::NonQuote);
    let v0 = copy_range(&t, c + 1, t.len());
    let v1 = strip_exec(&v0, CharClass::NonSpace);
    let value = strip_exec(&v1, CharClass::NonQuote);
    if is_rotation_word(&key) {
        Some(is_true_word(&value))
    } else {
        None
    }
}

impl Settings {
    /// The defaults: rotation off.
    pub fn new() -> (s: Settings)
        ensures
            s.rotation == false,
    {
        Settings { rotation: false }
    }

    /// Reads the settings out of the text of a settings file.
    pub fn from_contents(contents: &str) -> (s: Settings)
        ensures
            s.rotation == rotation_setting(contents@),
    {
        let text = chars_of(contents);
        let mut rotation = false;
        let mut start: usize = 0;
        while start < text.len()
            invariant
                start <= text.len(),
                text@ == contents@,
                settle(false, lines(text@)) == settle(rotation, lines_from(text@, start as nat)),
            decreases text.len() - start,
        {
            let e = scan_exec(&text, start, CharClass::Newline);
            proof {
                lemma_scan_bounds(text@, start as nat, CharClass::Newline);
            }
            let line = if e >= text.len() {
                copy_range(&text, start, text.len())
            } else {
                let raw = copy_range(&text, start, e);
                strip_cr_exec(raw)
            };
            let ghost rest = if e >= text.len() {
                Seq::<Seq<char>>::empty()
            } else {
                lines_from(text@, (e + 1) as nat)
            };
            assert(lines_from(text@, start as nat) == seq![line@] + rest);
            assert((seq![line@] + rest).drop_first() =~= rest);
            match line_rotation_exec(&line) {
                Some(b) => {
                    rotation = b;
                },
                None => {},
            }
            start = if e >= text.len() {
                text.len()
            } else {
                e + 1
            };
        }
        Settings { rotation }
    }

    /// The text of the settings file that holds these settings.
    pub fn to_contents(&self) -> (r: String)
        ensures
            r@ == settings_text(self.rotation),
    {
        if self.rotation {
            let r = String::from_str("\"rotation\": \"true\"\n");
            proof {
                reveal_strlit("\"rotation\": \"true\"\n");
            }
            assert(r@ =~= settings_text(true));
            r
        } else {
            let r = String::from_str("\"rotation\": \"false\"\n");
            proof {
                reveal_strlit("\"rotation\": \"false\"\n");
            }
            assert(r@ =~= settings_text(false));
            r
        }
    }
}


/// The key `"rotation"` reads as `rotation`.
proof fn lemma_rotation_key()
    ensures
        trim_quotes(trim(seq!['"'] + rotation_word() + seq!['"'])) == rotation_word(),
{
    let k = seq!['"'] + rotation_word() + seq!['"'];
    assert(k.len() == 10);
    assert(k[0] == '"');
    assert(k[9] == '"');
    lemma_strip_keeps(k, CharClass::NonSpace);
    assert(in_class(k[1], CharClass::NonQuote));
    assert(in_class(k[8], CharClass::NonQuote));
    lemma_strip_around(k, CharClass::NonQuote, 1, 9);
    assert(k.subrange(1, 9) =~= rotation_word());
}

/// A value ` "w"` reads as `w` when `w` neither starts nor ends with a quote
/// or whitespace.
proof fn lemma_quoted_value(w: Seq<char>)
    requires
        w.len() > 0,
        !is_space(w[0]) && w[0] != '"',
        !is_space(w.last()) && w.last() != '"',
    ensures
        trim_quotes(trim(seq![' ', '"'] + w + seq!['"'])) == w,
{
    let v = seq![' ', '"'] + w + seq!['"'];
    assert(v[0] == ' ');
    assert(v[1] == '"');
    assert(v.last() == '"');
    lemma_strip_around(v, CharClass::NonSpace, 1, v.len());
    let v1 = v.subrange(1, v.len() as int);
    assert(v1 =~= seq!['"'] + w + seq!['"']);
    assert(v1[1] == w[0]);
    assert(v1[v1.len() - 2] == w.last());
    lemma_strip_around(v1, CharClass::NonQuote, 1, (v1.len() - 1) as nat);
    assert(v1.subrange(1, v1.len() - 1) =~= w);
}

/// The line `"rotation": "w"` sets the option to whether `w` is `true`.
proof fn lemma_setting_line(w: Seq<char>)
    requires
        w.len() > 0,
        !is_space(w[0]) && w[0] != '"',
        !is_space(w.last()) && w.last() != '"',
        forall|m: int| 0 <= m < w.len() ==> #[trigger] w[m] != ':',
    ensures
        line_rotation(seq!['"'] + rotation_word() + seq!['"', ':', ' ', '"'] + w + seq!['"'])
            == Some(w == true_word()),
{
    let k = seq!['"'] + rotation_word() + seq!['"'];
    let v = seq![' ', '"'] + w + seq!['"'];
    let x = seq!['"'] + rotation_word() + seq!['"', ':', ' ', '"'] + w + seq!['"'];
    assert(x =~= k + seq![':'] + v);
    assert(x[0] == '"');
    assert(x.last() == '"');
    lemma_strip_keeps(x, CharClass::NonSpace);
    assert forall|m: int| 0 <= m < 10 implies !in_class(#[trigger] x[m], CharClass::Colon) by {
        assert(x[m] == k[m]);
    }
    assert(x[10] == ':');
    lemma_scan_is(x, 0, 10, CharClass::Colon);
    assert(x.subrange(0, 10) =~= k);
    assert(x.subrange(11, x.len() as int) =~= v);
    lemma_rotation_key();
    lemma_quoted_value(w);
}

/// The setting line written for a value, without its newline.
spec fn setting_line(w: Seq<char>) -> Seq<char> {
    seq!['"'] + rotation_word() + seq!['"', ':', ' ', '"'] + w + seq!['"']
}

proof fn lemma_setting_line_one_line(w: Seq<char>)
    requires
        forall|m: int| 0 <= m < w.len() ==> #[trigger] w[m] != '\n',
    ensures
        lines(setting_line(w).push('\n')) == seq![setting_line(w)],
{
    let x = setting_line(w);
    let pre = seq!['"'] + rotation_word() + seq!['"', ':', ' ', '"'];
    assert(x =~= pre + w + seq!['"']);
    assert forall|m: int| 0 <= m < x.len() implies #[trigger] x[m] != '\n' by {
        if m < pre.len() {
            assert(x[m] == pre[m]);
        } else if m < pre.len() + w.len() {
            assert(x[m] == w[m - pre.len()]);
        } else {
            assert(x[m] == '"');
        }
    }
    lemma_single_line(x);
}

/// Settings written by `to_contents` read back unchanged: for every value of
/// the option, `rotation_setting(settings_text(r)) == r`.
pub proof fn lemma_settings_round_trip(rotation: bool)
    ensures
        rotation_setting(settings_text(rotation)) == rotation,
{
    let w = if rotation {
        true_word()
    } else {
        false_word()
    };
    assert(w.len() > 0);
    assert(!is_space(w[0]) && w[0] != '"');
    assert(!is_space(w.last()) && w.last() != '"');
    assert forall|m: int| 0 <= m < w.len() implies #[trigger] w[m] != ':' && w[m] != '\n' by {}
    let x = setting_line(w);
    assert(settings_text(rotation) =~= x.push('\n'));
    lemma_setting_line_one_line(w);
    lemma_setting_line(w);
    assert(w == true_word() <==> rotation) by {
        if !rotation {
            assert(w.len() != true_word().len());
        }
    }
    assert(seq![x].drop_first() =~= Seq::<Seq<char>>::empty());
    assert(settle(false, seq![x]) == settle(apply_line(false, x), Seq::<Seq<char>>::empty()));
}

} // verus!
