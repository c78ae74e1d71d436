//! Character and text helpers shared by the screen buffer and the widgets:
//! decimal rendering of row numbers, conversion between `&str`, `Vec<char>`
//! and `String`, and ASCII lower-casing for hotkey matching.

use vstd::prelude::*;

verus! {

/// The decimal digit character for a value below ten.
pub open spec fn digit_char(d: int) -> char {
    if d == 0 {
        '0'
    } else if d == 1 {
        '1'
    } else if d == 2 {
        '2'
    } else if d == 3 {
        '3'
    } else if d == 4 {
        '4'
    } else if d == 5 {
        '5'
    } else if d == 6 {
        '6'
    } else if d == 7 {
        '7'
    } else if d == 8 {
        '8'
    } else {
        '9'
    }
}

/// The decimal rendering of a natural number, most significant digit first,
/// without leading zeros (a single `'0'` for zero).
pub open spec fn dec_str(n: nat) -> Seq<char>
    decreases n,
{
    if n < 10 {
        seq![digit_char(n as int)]
    } else {
        dec_str(n / 10).push(digit_char((n % 10) as int))
    }
}

fn digit_of(d: u32) -> (c: char)
    requires
        d < 10,
    ensures
        c == digit_char(d as int),
{
    if d == 0 {
        '0'
    } else if d == 1 {
        '1'
    } else if d == 2 {
        '2'
    } else if d == 3 {
        '3'
    } else if d == 4 {
        '4'
    } else if d == 5 {
        '5'
    } else if d == 6 {
        '6'
    } else if d == 7 {
        '7'
    } else if d == 8 {
        '8'
    } else {
        '9'
    }
}

/// The decimal digits of `n`, most significant first.
pub fn dec_chars(n: u32) -> (v: Vec<char>)
    ensures
        v@ == dec_str(n as nat),
    decreases n,
{
    if n < 10 {
        let mut v: Vec<char> = Vec::new();
        v.push(digit_of(n));
        assert(v@ =~= dec_str(n as nat));
        v
    } else {
        let mut v = dec_chars(n / 10);
        v.push(digit_of(n % 10));
        v
    }
}

/// Relies on String::push: appends the given character to the end of the
/// string.
#[verifier::external_body]
pub fn push_char(s: &mut String, c: char)
    ensures
        final(s)@ == old(s)@.push(c),
{
    s.push(c);
}

/// The characters of a string slice, in order.
pub fn str_to_chars(s: &str) -> (v: Vec<char>)
    ensures
        v@ == s@,
{
    let n = s.unicode_len();
    let mut v: Vec<char> = Vec::new();
    let mut i: usize = 0;
    while i < n
        invariant
            n == s@.len(),
            i <= n,
            v@ == s@.take(i as int),
        decreases n - i,
    {
        v.push(s.get_char(i));
        i = i + 1;
        assert(v@ =~= s@.take(i as int));
    }
    assert(v@ =~= s@);
    v
}

/// A string holding exactly the given characters, in order.
pub fn chars_to_string(v: &Vec<char>) -> (s: String)
    ensures
        s@ == v@,
{
    let mut s = String::new();
    let mut i: usize = 0;
    while i < v.len()
        invariant
            i <= v@.len(),
            s@ == v@.take(i as int),
        decreases v@.len() - i,
    {
        push_char(&mut s, v[i]);
        i = i + 1;
        assert(s@ =~= v@.take(i as int));
    }
    assert(s@ =~= v@);
    s
}

/// A run of `n` space characters (empty when `n` is negative).
pub open spec fn spaces(n: int) -> Seq<char> {
    Seq::new(if n < 0 { 0 } else { n as nat }, |i: int| ' ')
}

/// Appends the characters of a string slice to a character vector.
pub fn push_str_chars(v: &mut Vec<char>, s: &str)
    ensures
        final(v)@ == old(v)@ + s@,
{
    let n = s.unicode_len();
    let mut i: usize = 0;
    while i < n
        invariant
            n == s@.len(),
            i <= n,
            v@ == old(v)@ + s@.take(i as int),
        decreases n - i,
    {
        v.push(s.get_char(i));
        i = i + 1;
        assert(v@ =~= old(v)@ + s@.take(i as int));
    }
    assert(v@ =~= old(v)@ + s@);
}

/// Appends `n` space characters to a character vector.
pub fn push_spaces(v: &mut Vec<char>, n: usize)
    ensures
        final(v)@ == old(v)@ + spaces(n as int),
{
    let mut i: usize = 0;
    while i < n
        invariant
            i <= n,
            v@ == old(v)@ + spaces(i as int),
        decreases n - i,
    {
        v.push(' ');
        i = i + 1;
        assert(v@ =~= old(v)@ + spaces(i as int));
    }
}

/// A line fitted to width `w`: truncated when longer, padded with spaces
/// when shorter.
pub open spec fn fit(cs: Seq<char>, w: int) -> Seq<char> {
    if cs.len() > w {
        cs.take(w)
    } else {
        cs + spaces(w - cs.len())
    }
}

/// Fits a line to a width, truncating or space-padding.
pub fn fit_vec(cs: Vec<char>, w: usize) -> (v: Vec<char>)
    ensures
        v@ == fit(cs@, w as int),
{
    let ghost cs0 = cs@;
    let mut v = cs;
    if v.len() > w {
        v.truncate(w);
        assert(v@ =~= fit(cs0, w as int));
        v
    } else {
        let pad: usize = w - v.len();
        push_spaces(&mut v, pad);
        v
    }
}

/// ASCII lower-casing: an upper-case ASCII letter is mapped to its
/// lower-case counterpart, every other character is unchanged.
pub open spec fn lower_char(c: char) -> char {
    if 'A' <= c && c <= 'Z' {
        ((c as u32) + 32) as char
    } else {
        c
    }
}

/// The lower-case form of a character, ASCII-only as the hotkey tables
/// expect.
pub fn to_lower(c: char) -> (r: char)
    ensures
        r == lower_char(c),
{
    if 'A' <= c && c <= 'Z' {
        (((c as u32) + 32) as u8) as char
    } else {
        c
    }
}

/// ASCII upper-casing: a lower-case ASCII letter is mapped to its
/// upper-case counterpart, every other character is unchanged.
pub open spec fn upper_char(c: char) -> char {
    if 'a' <= c && c <= 'z' {
        ((c as u32) - 32) as char
    } else {
        c
    }
}

/// The upper-case form of a character, ASCII-only as the hotkey rendering
/// expects.
pub fn to_upper(c: char) -> (r: char)
    ensures
        r == upper_char(c),
{
    if 'a' <= c && c <= 'z' {
        (((c as u32) - 32) as u8) as char
    } else {
        c
    }
}

/// The string with every occurrence of the marker character removed.
pub open spec fn strip_marked(s: Seq<char>, m: char) -> Seq<char>
    decreases s.len(),
{
    if s.len() == 0 {
        Seq::empty()
    } else {
        strip_marked(s.drop_last(), m) + if s.last() == m {
            Seq::<char>::empty()
        } else {
            seq![s.last()]
        }
    }
}

/// The characters of a string with every occurrence of the marker removed.
pub fn strip_marked_chars(s: &str, m: char) -> (v: Vec<char>)
    ensures
        v@ == strip_marked(s@, m),
{
    let n = s.unicode_len();
    let mut v: Vec<char> = Vec::new();
    assert(v@ =~= strip_marked(s@.take(0), m));
    let mut i: usize = 0;
    while i < n
        invariant
            n == s@.len(),
            i <= n,
            v@ == strip_marked(s@.take(i as int), m),
        decreases n - i,
    {
        let c = s.get_char(i);
        if c != m {
            v.push(c);
        }
        i = i + 1;
        proof {
            assert(s@.take(i as int).drop_last() =~= s@.take(i - 1));
            assert(s@.take(i as int).last() == s@[i - 1]);
            if c == m {
                assert(v@ =~= strip_marked(s@.take(i as int), m));
            } else {
                assert(v@ =~= strip_marked(s@.take(i as int), m));
            }
        }
    }
    assert(s@.take(n as int) =~= s@);
    v
}

/// The position of the first occurrence of the marker at or after `i`.
pub open spec fn marker_from(s: Seq<char>, m: char, i: int) -> Option<int>
    decreases s.len() - i,
{
    if i < 0 || i >= s.len() {
        None
    } else if s[i] == m {
        Some(i)
    } else {
        marker_from(s, m, i + 1)
    }
}

/// The hotkey a marked label declares: the character right after the first
/// marker, lower-cased; none when there is no marker or nothing follows it.
pub open spec fn hotkey_spec(s: Seq<char>, m: char) -> Option<char> {
    match marker_from(s, m, 0) {
        Some(i) => if i + 1 < s.len() {
            Some(lower_char(s[i + 1]))
        } else {
            None
        },
        None => None,
    }
}

/// The hotkey of a marked label.
pub fn find_hotkey(s: &str, m: char) -> (r: Option<char>)
    ensures
        r == hotkey_spec(s@, m),
{
    let n = s.unicode_len();
    let mut i: usize = 0;
    while i < n
        invariant
            n == s@.len(),
            i <= n,
            marker_from(s@, m, 0) == marker_from(s@, m, i as int),
        decreases n - i,
    {
        if s.get_char(i) == m {
            if i + 1 < n {
                return Some(to_lower(s.get_char(i + 1)));
            } else {
                return None;
            }
        }
        i = i + 1;
    }
    None
}

/// The position of the first character whose lower-case form equals the
/// hotkey, at or after `i`.
pub open spec fn hot_from(s: Seq<char>, h: char, i: int) -> Option<int>
    decreases s.len() - i,
{
    if i < 0 || i >= s.len() {
        None
    } else if lower_char(s[i]) == h {
        Some(i)
    } else {
        hot_from(s, h, i + 1)
    }
}

/// A found hotkey position lies at or after where the search began, inside
/// the label, and carries the hotkey.
proof fn lemma_hot_from_ge(s: Seq<char>, h: char, j: int)
    ensures
        hot_from(s, h, j) matches Some(k) ==> j <= k < s.len() && lower_char(s[k]) == h,
    decreases s.len() - j,
{
    if j < 0 || j >= s.len() {
    } else if lower_char(s[j]) == h {
    } else {
        lemma_hot_from_ge(s, h, j + 1);
    }
}

/// A label with its first hotkey character upper-cased as a visual marker.
pub open spec fn rendered_label(label: Seq<char>, hot: Option<char>) -> Seq<char> {
    match hot {
        None => label,
        Some(h) => match hot_from(label, h, 0) {
            Some(i) => label.update(i, upper_char(label[i])),
            None => label,
        },
    }
}

/// The characters of a label with its first hotkey character upper-cased.
pub fn render_label_chars(label: &str, hot: Option<char>) -> (v: Vec<char>)
    ensures
        v@ == rendered_label(label@, hot),
{
    let n = label.unicode_len();
    let mut v: Vec<char> = Vec::new();
    if let Some(h) = hot {
        let mut done: bool = false;
        let mut i: usize = 0;
        while i < n
            invariant
                n == label@.len(),
                i <= n,
                !done ==> hot_from(label@, h, 0) == hot_from(label@, h, i as int),
                !done ==> v@ == rendered_label(label@, Some(h)).take(i as int)
                    && v@ == label@.take(i as int),
                done ==> (hot_from(label@, h, 0) matches Some(k) && 0 <= k < i),
                done ==> v@ == rendered_label(label@, Some(h)).take(i as int),
            decreases n - i,
        {
            let c = label.get_char(i);
            let ghost rl = rendered_label(label@, Some(h));
            if !done && to_lower(c) == h {
                v.push(to_upper(c));
                done = true;
                proof {
                    assert(hot_from(label@, h, i as int) == Some(i as int));
                    assert(rl == label@.update(i as int, upper_char(label@[i as int])));
                    assert(v@ =~= rl.take(i + 1));
                }
            } else {
                v.push(c);
                proof {
                    if done {
                        match hot_from(label@, h, 0) {
                            Some(k) => {
                                assert(rl == label@.update(k, upper_char(label@[k])));
                                assert(0 <= k < i);
                                assert(rl[i as int] == label@[i as int]);
                            },
                            None => {
                                assert(false);
                            },
                        }
                        assert(v@ =~= rl.take(i + 1));
                    } else {
                        match hot_from(label@, h, 0) {
                            Some(k) => {
                                assert(hot_from(label@, h, i as int) == Some(k));
                                assert(hot_from(label@, h, i + 1) == Some(k));
                                lemma_hot_from_ge(label@, h, i + 1);
                                assert(0 <= k < label@.len() && k > i);
                                assert(rl[i as int] == label@[i as int]);
                            },
                            None => {},
                        }
                        assert(v@ =~= label@.take(i + 1));
                        assert(v@ =~= rl.take(i + 1));
                    }
                }
            }
            i = i + 1;
        }
        proof {
            if !done {
                assert(rendered_label(label@, Some(h)) =~= label@);
            }
            assert(rendered_label(label@, Some(h)).take(n as int) =~= rendered_label(
                label@,
                Some(h),
            ));
        }
        v
    } else {
        let v2 = str_to_chars(label);
        v2
    }
}

} // verus!
