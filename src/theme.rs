//! A user-defined colour theme and the checks it must pass.

use crate::item_id::base16_digit;
use crate::radix::{digits_value, lemma_digits_value_push};
use vstd::prelude::*;

verus! {

/// What `str::trim` leaves of `s`.
pub uninterp spec fn trimmed(s: Seq<char>) -> Seq<char>;

/// Relies on `str::trim`: leading and trailing whitespace removed.
#[verifier::external_body]
fn trim_str(s: &str) -> (r: &str)
    ensures
        r@ == trimmed(s@),
{
    s.trim()
}

/// `s` without one leading `#`, if it has one.
pub open spec fn without_hash(s: Seq<char>) -> Seq<char> {
    if s.len() > 0 && s[0] == '#' {
        s.drop_first()
    } else {
        s
    }
}

/// An ASCII hexadecimal digit.
pub open spec fn is_hex_char(c: char) -> bool {
    ('0' <= c && c <= '9') || ('a' <= c && c <= 'f') || ('A' <= c && c <= 'F')
}

/// An ASCII decimal digit.
pub open spec fn is_dec_char(c: char) -> bool {
    '0' <= c && c <= '9'
}

/// The part of a colour after the optional `#` has six characters.
pub open spec fn color_has_six_chars(color: Seq<char>) -> bool {
    without_hash(trimmed(color)).len() == 6
}

/// A colour is `#RRGGBB` (the `#` optional, surrounding whitespace allowed).
pub open spec fn color_ok(color: Seq<char>) -> bool {
    let h = without_hash(trimmed(color));
    color_has_six_chars(color) && forall|i: int| 0 <= i < h.len() ==> is_hex_char(#[trigger] h[i])
}

/// The position of the first `c` in `s`, or its length when there is none.
pub open spec fn index_of(s: Seq<char>, c: char) -> int
    decreases s.len(),
{
    if s.len() == 0 {
        0
    } else if s[0] == c {
        0
    } else {
        1 + index_of(s.drop_first(), c)
    }
}

/// The decimal digit values of `s`.
pub open spec fn dec_values(s: Seq<char>) -> Seq<nat> {
    s.map_values(|c: char| (c as u32 - '0' as u32) as nat)
}

/// `s` without one leading `+`, if it has one.
pub open spec fn unsigned_part(s: Seq<char>) -> Seq<char> {
    if s.len() > 0 && s[0] == '+' {
        s.drop_first()
    } else {
        s
    }
}

/// The digits before the first `.`.
pub open spec fn whole_part(u: Seq<char>) -> Seq<char> {
    u.take(index_of(u, '.'))
}

/// The digits after the first `.` (none when there is no `.`).
pub open spec fn frac_part(u: Seq<char>) -> Seq<char> {
    if index_of(u, '.') < u.len() {
        u.skip(index_of(u, '.') + 1)
    } else {
        Seq::empty()
    }
}

/// Every character of `s` is a decimal digit.
pub open spec fn all_dec(s: Seq<char>) -> bool {
    forall|i: int| 0 <= i < s.len() ==> is_dec_char(#[trigger] s[i])
}

/// Every character of `s` is `0`.
pub open spec fn all_zero_chars(s: Seq<char>) -> bool {
    forall|i: int| 0 <= i < s.len() ==> #[trigger] s[i] == '0'
}

/// A font size is a decimal number (optional `+`, digits, an optional
/// fractional part; no exponent) from 8 to 32 inclusive.
pub open spec fn font_size_ok(s: Seq<char>) -> bool {
    let u = unsigned_part(s);
    let v = digits_value(dec_values(whole_part(u)), 10);
    &&& all_dec(whole_part(u))
    &&& all_dec(frac_part(u))
    &&& whole_part(u).len() + frac_part(u).len() >= 1
    &&& 8 <= v
    &&& (v < 32 || (v == 32 && all_zero_chars(frac_part(u))))
}

proof fn lemma_index_of_skip(s: Seq<char>, c: char, i: int)
    requires
        0 <= i <= s.len(),
        forall|k: int| 0 <= k < i ==> s[k] != c,
    ensures
        index_of(s, c) == i + index_of(s.skip(i), c),
    decreases i,
{
    if i > 0 {
        lemma_index_of_skip(s.drop_first(), c, i - 1);
        assert(s.drop_first().skip(i - 1) =~= s.skip(i));
    } else {
        assert(s.skip(0) =~= s);
    }
}

proof fn lemma_index_of_bounds(s: Seq<char>, c: char)
    ensures
        0 <= index_of(s, c) <= s.len(),
        index_of(s, c) < s.len() ==> s[index_of(s, c)] == c,
    decreases s.len(),
{
    if s.len() > 0 && s[0] != c {
        lemma_index_of_bounds(s.drop_first(), c);
    }
}

/// Whether `s` is a font size from 8 to 32 written as a plain decimal.
pub fn font_size_valid(s: &str) -> (r: bool)
    ensures
        r == font_size_ok(s@),
{
    let n = s.unicode_len();
    let start: usize = if n > 0 && s.get_char(0) == '+' {
        1
    } else {
        0
    };
    let u = s.substring_char(start, n);
    let ghost us = if s@.len() > 0 && s@[0] == '+' {
        s@.drop_first()
    } else {
        s@
    };
    assert(u@ =~= us);
    let un = u.unicode_len();
    let mut i: usize = 0;
    let mut v: u64 = 0;
    while i < un && u.get_char(i) != '.'
        invariant
            i <= un == u@.len(),
            u@ == us,
            us == unsigned_part(s@),
            forall|k: int| 0 <= k < i ==> u@[k] != '.' && is_dec_char(#[trigger] u@[k]),
            v <= 1000 ==> v == digits_value(dec_values(u@.take(i as int)), 10),
            v > 1000 ==> digits_value(dec_values(u@.take(i as int)), 10) > 1000,
            v <= 10009,
        decreases un - i,
    {
        let c = u.get_char(i);
        if !('0' <= c && c <= '9') {
            proof {
                lemma_index_of_skip(u@, '.', i as int);
                assert(u@.skip(i as int)[0] == c);
                lemma_index_of_bounds(u@.skip(i as int).drop_first(), '.');
                assert(index_of(u@.skip(i as int), '.') >= 1);
                let whole = us.take(index_of(us, '.'));
                assert(whole[i as int] == c);
                assert(!is_dec_char(whole[i as int]));
            }
            return false;
        }
        let d = (c as u32 - '0' as u32) as u64;
        proof {
            let t = u@.take(i as int);
            assert(dec_values(u@.take(i + 1)) =~= dec_values(t).push(d as nat));
            lemma_digits_value_push(dec_values(t), d as nat, 10);
        }
        if v <= 1000 {
            v = v * 10 + d;
        }
        i = i + 1;
    }
    proof {
        lemma_index_of_skip(u@, '.', i as int);
        assert(index_of(u@.skip(i as int), '.') == 0);
    }
    let k = i;
    let ghost frac = if k < un {
        u@.skip(k + 1)
    } else {
        Seq::<char>::empty()
    };
    let mut all_zero = true;
    let mut j: usize = if k < un {
        k + 1
    } else {
        un
    };
    while j < un
        invariant
            k <= un == u@.len(),
            k < un ==> j >= k + 1,
            k == un ==> j == un,
            j <= un,
            u@ == us,
            us == unsigned_part(s@),
            index_of(us, '.') == k,
            frac == (if k < un {
                u@.skip(k + 1)
            } else {
                Seq::<char>::empty()
            }),
            forall|t: int| 0 <= t < j - (k + 1) ==> is_dec_char(#[trigger] frac[t]),
            all_zero == forall|t: int| 0 <= t < j - (k + 1) ==> #[trigger] frac[t] == '0',
        decreases un - j,
    {
        let c = u.get_char(j);
        assert(frac[j - (k + 1)] == c);
        if !('0' <= c && c <= '9') {
            return false;
        }
        if c != '0' {
            all_zero = false;
        }
        j = j + 1;
    }
    let frac_len: usize = if k < un {
        un - (k + 1)
    } else {
        0
    };
    proof {
        let whole = u@.take(k as int);
        assert forall|t: int| 0 <= t < whole.len() implies is_dec_char(#[trigger] whole[t]) by {
            assert(whole[t] == u@[t]);
        }
        assert(frac.len() == frac_len);
    }
    k + frac_len >= 1 && v >= 8 && (v < 32 || (v == 32 && all_zero))
}

/// The theme's colours and font.
#[derive(Clone, Debug, Eq)]
pub struct CustomTheme {
    pub background: String,
    pub surface: String,
    pub primary_text: String,
    pub accent: String,
    pub highlight: String,
    pub font_family: String,
    pub font_size: String,
}

impl PartialEq for CustomTheme {
    fn eq(&self, other: &CustomTheme) -> (r: bool) {
        self.background == other.background && self.surface == other.surface && self.primary_text
            == other.primary_text && self.accent == other.accent && self.highlight == other.highlight
            && self.font_family == other.font_family && self.font_size == other.font_size
    }
}

impl vstd::std_specs::cmp::PartialEqSpecImpl for CustomTheme {
    open spec fn obeys_eq_spec() -> bool {
        true
    }

    open spec fn eq_spec(&self, other: &CustomTheme) -> bool {
        &&& self.background@ == other.background@
        &&& self.surface@ == other.surface@
        &&& self.primary_text@ == other.primary_text@
        &&& self.accent@ == other.accent@
        &&& self.highlight@ == other.highlight@
        &&& self.font_family@ == other.font_family@
        &&& self.font_size@ == other.font_size@
    }
}

/// The font family a theme without one uses.
pub fn default_font_family() -> (r: String)
    ensures
        r@ == "System UI"@,
{
    "System UI".to_owned()
}

/// The font size a theme without one uses.
pub fn default_font_size() -> (r: String)
    ensures
        r@ == "13.0"@,
{
    "13.0".to_owned()
}

impl Default for CustomTheme {
    fn default() -> (r: CustomTheme)
        ensures
            r.background@ == "#1c1c1f"@,
            r.surface@ == "#242429"@,
            r.primary_text@ == "#f2f2f2"@,
            r.accent@ == "#1db954"@,
            r.highlight@ == "#3a7bd5"@,
            r.font_family@ == "System UI"@,
            r.font_size@ == "13.0"@,
    {
        CustomTheme {
            background: "#1c1c1f".to_owned(),
            surface: "#242429".to_owned(),
            primary_text: "#f2f2f2".to_owned(),
            accent: "#1db954".to_owned(),
            highlight: "#3a7bd5".to_owned(),
            font_family: default_font_family(),
            font_size: default_font_size(),
        }
    }
}

/// `prefix`, `a`, `middle`, `b` and `suffix` one after another.
fn message(prefix: &str, a: &str, middle: &str, b: &str, suffix: &str) -> (r: String)
    ensures
        r@ == prefix@ + a@ + middle@ + b@ + suffix@,
{
    let mut m = prefix.to_owned();
    m.append(a);
    m.append(middle);
    m.append(b);
    m.append(suffix);
    m
}

impl CustomTheme {
    /// Checks the five colours, in order, then the font size.
    pub fn validate(&self) -> (r: Result<(), String>)
        ensures
            r is Ok <==> (color_ok(self.background@) && color_ok(self.surface@) && color_ok(
                self.primary_text@,
            ) && color_ok(self.accent@) && color_ok(self.highlight@) && font_size_ok(self.font_size@)),
    {
        CustomTheme::validate_hex_color(self.background.as_str(), "background")?;
        CustomTheme::validate_hex_color(self.surface.as_str(), "surface")?;
        CustomTheme::validate_hex_color(self.primary_text.as_str(), "primary_text")?;
        CustomTheme::validate_hex_color(self.accent.as_str(), "accent")?;
        CustomTheme::validate_hex_color(self.highlight.as_str(), "highlight")?;
        if !font_size_valid(self.font_size.as_str()) {
            return Err(message("Font size must be a number from 8 to 32, got ", self.font_size.as_str(), "", "", ""));
        }
        Ok(())
    }

    /// Checks one colour; the error names the field and the value.
    pub fn validate_hex_color(color: &str, field_name: &str) -> (r: Result<(), String>)
        ensures
            r is Ok <==> color_ok(color@),
            r matches Err(m) ==> (!color_has_six_chars(color@) ==> m@ == "Invalid color for "@
                + field_name@ + ": '"@ + color@ + "' (expected #RRGGBB format)"@),
            r matches Err(m) ==> (color_has_six_chars(color@) ==> m@ == "Invalid hex color for "@
                + field_name@ + ": '"@ + color@ + "' (must contain only 0-9, A-F)"@),
    {
        let t = trim_str(color);
        let n = t.unicode_len();
        let hex = if n > 0 && t.get_char(0) == '#' {
            t.substring_char(1, n)
        } else {
            t.substring_char(0, n)
        };
        assert(hex@ =~= without_hash(trimmed(color@)));
        let m = hex.unicode_len();
        if m != 6 {
            return Err(message("Invalid color for ", field_name, ": '", color, "' (expected #RRGGBB format)"));
        }
        let mut i: usize = 0;
        while i < m
            invariant
                m == hex@.len() == 6,
                hex@ == without_hash(trimmed(color@)),
                i <= m,
                forall|k: int| 0 <= k < i ==> is_hex_char(#[trigger] hex@[k]),
            decreases m - i,
        {
            let c = hex.get_char(i);
            if !(('0' <= c && c <= '9') || ('a' <= c && c <= 'f') || ('A' <= c && c <= 'F')) {
                assert(!is_hex_char(hex@[i as int]));
                return Err(message("Invalid hex color for ", field_name, ": '", color, "' (must contain only 0-9, A-F)"));
            }
            i = i + 1;
        }
        Ok(())
    }
}


/// The byte that the two hexadecimal digits at `i` and `i + 1` of `h` write.
pub open spec fn hex_pair(h: Seq<char>, i: int) -> u8 {
    (16 * base16_digit(h[i])->0 + base16_digit(h[i + 1])->0) as u8
}

/// What `parse_hex_color` yields for `input`.
pub open spec fn parsed_color(input: Seq<char>) -> Option<(u8, u8, u8)> {
    let h = without_hash(trimmed(input));
    if color_ok(input) {
        Some((hex_pair(h, 0), hex_pair(h, 2), hex_pair(h, 4)))
    } else {
        None
    }
}

fn hex_value(c: char) -> (r: Option<u8>)
    ensures
        r is Some <==> is_hex_char(c),
        r matches Some(d) ==> base16_digit(c) == Some(d as nat) && d < 16,
{
    if '0' <= c && c <= '9' {
        Some((c as u32 - '0' as u32) as u8)
    } else if 'a' <= c && c <= 'f' {
        Some((c as u32 - 'a' as u32 + 10) as u8)
    } else if 'A' <= c && c <= 'F' {
        Some((c as u32 - 'A' as u32 + 10) as u8)
    } else {
        None
    }
}

/// The red, green and blue bytes of a `#RRGGBB` colour (the `#` optional,
/// surrounding whitespace allowed).
pub fn parse_hex_color(input: &str) -> (r: Option<(u8, u8, u8)>)
    ensures
        r == parsed_color(input@),
{
    let t = trim_str(input);
    let n = t.unicode_len();
    let hex = if n > 0 && t.get_char(0) == '#' {
        t.substring_char(1, n)
    } else {
        t.substring_char(0, n)
    };
    assert(hex@ =~= without_hash(trimmed(input@)));
    if hex.unicode_len() != 6 {
        return None;
    }
    let mut bytes: Vec<u8> = Vec::new();
    let mut i: usize = 0;
    while i < 6
        invariant
            hex@.len() == 6,
            hex@ == without_hash(trimmed(input@)),
            i <= 6,
            i % 2 == 0,
            bytes@.len() == i / 2,
            forall|k: int| 0 <= k < i ==> is_hex_char(#[trigger] hex@[k]),
            forall|k: int| 0 <= k < i / 2 ==> bytes@[k] == hex_pair(hex@, 2 * k),
        decreases 6 - i,
    {
        let hi = match hex_value(hex.get_char(i)) {
            Some(d) => d,
            None => {
                return None;
            },
        };
        let lo = match hex_value(hex.get_char(i + 1)) {
            Some(d) => d,
            None => {
                return None;
            },
        };
        bytes.push(16 * hi + lo);
        i = i + 2;
    }
    Some((bytes[0], bytes[1], bytes[2]))
}

} // verus!
