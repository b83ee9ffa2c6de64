//! The built-in equalizer presets, by name. Their band tables are floating
//! point and live with the signal processing; here is which preset a name
//! picks.

use vstd::prelude::*;

verus! {

/// The names of the built-in presets, in order.
pub open spec fn preset_names() -> Seq<Seq<char>> {
    seq![
        "Flat"@,
        "Bass Boost"@,
        "Treble Boost"@,
        "Vocal"@,
        "Rock"@,
        "Classical"@,
        "Jazz"@,
        "Pop"@,
    ]
}

/// `c` with ASCII upper case made lower case.
pub open spec fn ascii_lower(c: char) -> char {
    if 'A' <= c && c <= 'Z' {
        ((c as u32) + 32) as char
    } else {
        c
    }
}

/// `a` and `b` are equal but for ASCII case.
pub open spec fn eq_ignoring_ascii_case(a: Seq<char>, b: Seq<char>) -> bool {
    a.len() == b.len() && forall|i: int| 0 <= i < a.len() ==> ascii_lower(#[trigger] a[i]) == ascii_lower(b[i])
}

fn lower_exec(c: char) -> (r: char)
    ensures
        r == ascii_lower(c),
{
    if 'A' <= c && c <= 'Z' {
        let u = c as u32 + 32;
        assert(u < 128);
        (u as u8) as char
    } else {
        c
    }
}

fn eq_ignore_case(a: &str, b: &str) -> (r: bool)
    ensures
        r == eq_ignoring_ascii_case(a@, b@),
{
    let n = a.unicode_len();
    if n != b.unicode_len() {
        return false;
    }
    let mut i: usize = 0;
    while i < n
        invariant
            n == a@.len() == b@.len(),
            i <= n,
            forall|k: int| 0 <= k < i ==> ascii_lower(#[trigger] a@[k]) == ascii_lower(b@[k]),
        decreases n - i,
    {
        if lower_exec(a.get_char(i)) != lower_exec(b.get_char(i)) {
            return false;
        }
        i = i + 1;
    }
    true
}

/// The names of the built-in presets, in order.
pub fn built_in_preset_names() -> (r: Vec<&'static str>)
    ensures
        r@.map_values(|s: &str| s@) == preset_names(),
{
    let v: Vec<&'static str> = vec!["Flat", "Bass Boost", "Treble Boost", "Vocal", "Rock", "Classical", "Jazz", "Pop"];
    assert(v@.map_values(|s: &str| s@) =~= preset_names());
    v
}

/// The position of the first built-in preset whose name is `name` but for
/// ASCII case.
pub fn find_preset(name: &str) -> (r: Option<usize>)
    ensures
        r matches Some(i) ==> i < preset_names().len() && eq_ignoring_ascii_case(preset_names()[i as int], name@)
            && forall|k: int| 0 <= k < i ==> !eq_ignoring_ascii_case(#[trigger] preset_names()[k], name@),
        r is None ==> forall|k: int| 0 <= k < preset_names().len() ==> !eq_ignoring_ascii_case(#[trigger] preset_names()[k], name@),
{
    let names = built_in_preset_names();
    let mut i: usize = 0;
    while i < names.len()
        invariant
            names@.map_values(|s: &str| s@) == preset_names(),
            i <= names@.len(),
            forall|k: int| 0 <= k < i ==> !eq_ignoring_ascii_case(#[trigger] preset_names()[k], name@),
        decreases names@.len() - i,
    {
        assert(preset_names()[i as int] == names@[i as int]@);
        if eq_ignore_case(names[i], name) {
            return Some(i);
        }
        i = i + 1;
    }
    None
}

} // verus!
