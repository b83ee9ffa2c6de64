//! Content identifiers: a 128-bit number with a type tag, and its text and
//! byte forms.

use crate::radix::{
    bytes_value, decode_be, digits_value, encode_be, fixed_bytes, fixed_digits, lemma_fixed_bytes_value,
    lemma_digits_value_prefix, lemma_digits_value_push, lemma_fixed_digits_prefix,
};
use crate::text::push_char;
use vstd::arithmetic::power::*;
use vstd::prelude::*;
use vstd::utf8::{encode_utf8, is_ascii_chars};

verus! {

/// The largest value a `u128` holds.
pub open spec fn u128_max() -> nat {
    340282366920938463463374607431768211455
}

/// The value of the character `c` as a digit in base 62 (`0-9a-zA-Z`).
pub open spec fn base62_digit(c: char) -> Option<nat> {
    if '0' <= c && c <= '9' {
        Some((c as u32 - '0' as u32) as nat)
    } else if 'a' <= c && c <= 'z' {
        Some((c as u32 - 'a' as u32 + 10) as nat)
    } else if 'A' <= c && c <= 'Z' {
        Some((c as u32 - 'A' as u32 + 36) as nat)
    } else {
        None
    }
}

/// The value of the character `c` as a hexadecimal digit, either case.
pub open spec fn base16_digit(c: char) -> Option<nat> {
    if '0' <= c && c <= '9' {
        Some((c as u32 - '0' as u32) as nat)
    } else if 'a' <= c && c <= 'f' {
        Some((c as u32 - 'a' as u32 + 10) as nat)
    } else if 'A' <= c && c <= 'F' {
        Some((c as u32 - 'A' as u32 + 10) as nat)
    } else {
        None
    }
}

/// The digit that `c` stands for in base `base` (16 or 62).
pub open spec fn digit_of(c: char, base: nat) -> Option<nat> {
    if base == 16 {
        base16_digit(c)
    } else {
        base62_digit(c)
    }
}

/// Every character of `s` is a digit in base `base`.
pub open spec fn all_digits(s: Seq<char>, base: nat) -> bool {
    forall|i: int| 0 <= i < s.len() ==> (#[trigger] digit_of(s[i], base)) is Some
}

/// The digit values of the characters of `s` (0 where a character is none).
pub open spec fn digit_values(s: Seq<char>, base: nat) -> Seq<nat> {
    s.map_values(|c: char| match digit_of(c, base) {
        Some(d) => d,
        None => 0,
    })
}

/// The number that the text `s` writes in base `base`.
pub open spec fn text_value(s: Seq<char>, base: nat) -> nat {
    digits_value(digit_values(s, base), base)
}

/// What decoding `s` in base `base` yields: the number, when `s` holds only
/// digits and the number fits in 128 bits.
pub open spec fn decoded(s: Seq<char>, base: nat) -> Option<u128> {
    if all_digits(s, base) && text_value(s, base) <= u128_max() {
        Some(text_value(s, base) as u128)
    } else {
        None
    }
}

/// The character that writes digit `d`: `0-9`, then `a-z`, then `A-Z`.
pub open spec fn digit_char(d: nat) -> char {
    if d < 10 {
        ((48 + d) as u8) as char
    } else if d < 36 {
        ((97 + d - 10) as u8) as char
    } else {
        ((65 + d - 36) as u8) as char
    }
}

/// The fixed-width text of `n` in base `base`.
pub open spec fn encoded(n: nat, base: nat, width: nat) -> Seq<char> {
    fixed_digits(n, base, width).map_values(|d: nat| digit_char(d))
}

fn byte_digit(b: u8, base: u128) -> (r: Option<u128>)
    requires
        base == 16 || base == 62,
    ensures
        r matches Some(d) ==> digit_of(b as char, base as nat) == Some(d as nat) && d < base,
        r is None ==> digit_of(b as char, base as nat) is None,
{
    if b >= 48 && b <= 57 {
        Some((b - 48) as u128)
    } else if b >= 97 && b <= 102 {
        Some((b - 97 + 10) as u128)
    } else if b >= 103 && b <= 122 && base == 62 {
        Some((b - 97 + 10) as u128)
    } else if b >= 65 && b <= 70 && base == 16 {
        Some((b - 65 + 10) as u128)
    } else if b >= 65 && b <= 90 && base == 62 {
        Some((b - 65 + 36) as u128)
    } else {
        None
    }
}


/// Decodes `s` as a number in base `base`.
fn decode_digits(s: &str, base: u128) -> (r: Option<u128>)
    requires
        base == 16 || base == 62,
    ensures
        r == decoded(s@, base as nat),
{
    broadcast use vstd::string::is_ascii_spec_bytes, vstd::utf8::is_ascii_chars_encode_utf8;

    let ghost b = base as nat;
    if !s.is_ascii() {
        proof {
            let i = choose|i: int| 0 <= i < s@.len() && !('\0' <= #[trigger] s@[i] && s@[i] <= '\u{7f}');
            assert(digit_of(s@[i], b) is None);
        }
        return None;
    }
    let bytes = s.as_bytes();
    assert(bytes@.len() == s@.len());
    let mut n: u128 = 0;
    let mut i: usize = 0;
    while i < bytes.len()
        invariant
            i <= bytes@.len() == s@.len(),
            base == 16 || base == 62,
            b == base as nat,
            forall|k: int| 0 <= k < s@.len() ==> #[trigger] bytes@[k] == s@[k] as u8,
            is_ascii_chars(s@),
            forall|k: int| 0 <= k < i ==> (#[trigger] digit_of(s@[k], b)) is Some,
            n as nat == digits_value(digit_values(s@, b).take(i as int), b),
        decreases bytes@.len() - i,
    {
        let c = bytes[i];
        assert(c as char == s@[i as int]);
        let d = match byte_digit(c, base) {
            Some(d) => d,
            None => {
                return None;
            },
        };
        proof {
            assert(digit_values(s@, b).take(i + 1) =~= digit_values(s@, b).take(i as int).push(d as nat));
            lemma_digits_value_push(digit_values(s@, b).take(i as int), d as nat, b);
        }
        let lim = (u128::MAX - d) / base;
        if n > lim {
            proof {
                assert(n * base + d > u128::MAX) by (nonlinear_arith)
                    requires n > lim, lim == (u128::MAX - d) as int / base as int, base > 0, d < base;
                lemma_digits_value_prefix(digit_values(s@, b), i + 1, b);
            }
            return None;
        }
        assert(n * base + d <= u128::MAX) by (nonlinear_arith)
            requires n <= lim, lim == (u128::MAX - d) as int / base as int, base > 0, d < base;
        n = n * base + d;
        i = i + 1;
    }
    assert(digit_values(s@, b).take(i as int) =~= digit_values(s@, b));
    Some(n)
}


fn digit_char_exec(d: u128) -> (c: char)
    requires
        d < 62,
    ensures
        c == digit_char(d as nat),
{
    if d < 10 {
        (48 + d as u8) as char
    } else if d < 36 {
        (97 + d as u8 - 10) as char
    } else {
        (65 + d as u8 - 36) as char
    }
}

/// Each digit character reads back as the digit it writes.
proof fn lemma_digit_char_reads_back(d: nat, base: nat)
    requires
        base == 16 || base == 62,
        d < base,
    ensures
        digit_of(digit_char(d), base) == Some(d),
{
}

/// Writes `n` in base `base` with exactly `width` digits.
fn encode_digits(n: u128, base: u128, width: usize, top: u128) -> (r: String)
    requires
        base == 16 || base == 62,
        width >= 1,
        top == pow(base as int, (width - 1) as nat),
        n < pow(base as int, width as nat),
    ensures
        r@ == encoded(n as nat, base as nat, width as nat),
{
    let ghost b = base as nat;
    let ghost w = width as nat;
    let mut s = String::new();
    let mut p: u128 = top;
    let mut j: usize = 0;
    while j < width
        invariant
            j <= width,
            base == 16 || base == 62,
            b == base as nat,
            w == width as nat,
            j < width ==> p == pow(b as int, (w - 1 - j) as nat),
            s@ == encoded(n as nat, b, w).take(j as int),
        decreases width - j,
    {
        proof {
            vstd::arithmetic::power::lemma_pow_positive(b as int, (w - 1 - j) as nat);
        }
        let d = (n / p) % base;
        let c = digit_char_exec(d);
        push_char(&mut s, c);
        assert(s@ =~= encoded(n as nat, b, w).take(j + 1));
        if j + 1 < width {
            proof {
                let e = (w - 1 - (j + 1)) as nat;
                assert(pow(b as int, (e + 1) as nat) == b * pow(b as int, e)) by {
                    reveal(pow);
                }
                vstd::arithmetic::div_mod::lemma_div_multiples_vanish(pow(b as int, e), b as int);
            }
            p = p / base;
        }
        j = j + 1;
    }
    assert(s@ =~= encoded(n as nat, b, w));
    s
}

/// Decoding the fixed-width text of a number gives the number back.
pub proof fn lemma_decode_encoded(n: nat, base: nat, width: nat)
    requires
        base == 16 || base == 62,
        n <= u128_max(),
        n < pow(base as int, width),
    ensures
        decoded(encoded(n, base, width), base) == Some(n as u128),
{
    let e = encoded(n, base, width);
    assert forall|i: int| 0 <= i < e.len() implies (#[trigger] digit_of(e[i], base)) is Some by {
        lemma_digit_char_reads_back(fixed_digits(n, base, width)[i], base);
    }
    assert(digit_values(e, base) =~= fixed_digits(n, base, width)) by {
        assert forall|i: int| 0 <= i < e.len() implies #[trigger] digit_values(e, base)[i] == fixed_digits(n, base, width)[i] by {
            lemma_digit_char_reads_back(fixed_digits(n, base, width)[i], base);
        }
    }
    lemma_fixed_digits_prefix(n, base, width, width);
    assert(fixed_digits(n, base, width).take(width as int) =~= fixed_digits(n, base, width));
    assert(pow(base as int, 0) == 1) by {
        reveal(pow);
    }
    assert((width - width) as nat == 0);
    let fd = fixed_digits(n, base, width);
    assert(digits_value(fd.take(width as int), base) == n / (pow(base as int, 0) as nat));
    let one = pow(base as int, 0) as nat;
    assert(one == 1);
    assert(n / 1 == n);
    assert(n / one == n);
    assert(fd.take(width as int) == fd);
    assert(digits_value(fd, base) == n);
    assert(text_value(e, base) == digits_value(fd, base));
}


/// The powers of the bases that the fixed-width forms use.
proof fn lemma_width_powers()
    ensures
        pow(62, 21) == 43674252383913877424036476406214950912,
        pow(62, 22) > u128_max(),
        pow(16, 31) == 21267647932558653966460912964485513216,
        pow(16, 32) > u128_max(),
        pow(256, 15) == 1329227995784915872903807060280344576,
        pow(256, 16) > u128_max(),
{
    reveal_with_fuel(pow, 33);
}

/// The position of the last `c` in `s`, or -1 when there is none.
pub open spec fn last_index_of(s: Seq<char>, c: char) -> int
    decreases s.len(),
{
    if s.len() == 0 {
        -1
    } else if s.last() == c {
        s.len() - 1
    } else {
        last_index_of(s.drop_last(), c)
    }
}

/// The text after the last colon of a URI (the whole text when it has none).
pub open spec fn uri_id_text(s: Seq<char>) -> Seq<char> {
    s.subrange(last_index_of(s, ':') + 1, s.len() as int)
}

/// The segment before the id segment of a URI (empty when there is none).
pub open spec fn uri_type_text(s: Seq<char>) -> Seq<char> {
    let k = last_index_of(s, ':');
    if k < 0 {
        Seq::empty()
    } else {
        let head = s.subrange(0, k);
        head.subrange(last_index_of(head, ':') + 1, k)
    }
}

/// The type tag that a URI's type segment names.
pub open spec fn uri_type(s: Seq<char>) -> ItemIdType {
    let t = uri_type_text(s);
    if t == seq!['t', 'r', 'a', 'c', 'k'] {
        ItemIdType::Track
    } else if t == seq!['e', 'p', 'i', 's', 'o', 'd', 'e'] {
        ItemIdType::Podcast
    } else {
        ItemIdType::Unknown
    }
}

/// What parsing a URI yields: its id segment read in base 62, with the tag of
/// its type segment.
pub open spec fn parsed_uri(s: Seq<char>) -> Option<ItemId> {
    match decoded(uri_id_text(s), 62) {
        Some(n) => Some(ItemId { id: n, id_type: uri_type(s) }),
        None => None,
    }
}

/// The 64-bit FNV-1a offset basis, widened: the start of the path hash.
pub open spec fn local_hash_start() -> u128 {
    0x6c62272e07bb014262b821756295c58d
}

/// The 128-bit FNV prime.
pub open spec fn local_hash_prime() -> u128 {
    0x0000000001000000000000000000013b
}

/// The 128-bit FNV-1a hash of the bytes `b`.
pub open spec fn local_hash(b: Seq<u8>) -> u128
    decreases b.len(),
{
    if b.len() == 0 {
        local_hash_start()
    } else {
        (local_hash(b.drop_last()) ^ (b.last() as u128)).wrapping_mul(local_hash_prime())
    }
}

proof fn lemma_last_index_take(s: Seq<char>, c: char, j: int)
    requires
        0 <= j <= s.len(),
        forall|i: int| j <= i < s.len() ==> s[i] != c,
    ensures
        last_index_of(s, c) == last_index_of(s.take(j), c),
    decreases s.len(),
{
    if j < s.len() {
        lemma_last_index_take(s.drop_last(), c, j);
        assert(s.drop_last().take(j) =~= s.take(j));
    } else {
        assert(s.take(j) =~= s);
    }
}

/// The position of the last colon among the first `end` characters of `s`.
fn last_colon(s: &str, end: usize) -> (r: Option<usize>)
    requires
        end <= s@.len(),
    ensures
        r matches Some(k) ==> k < end && last_index_of(s@.take(end as int), ':') == k,
        r is None ==> last_index_of(s@.take(end as int), ':') == -1,
{
    let ghost t = s@.take(end as int);
    let mut i: usize = end;
    while i > 0
        invariant
            i <= end <= s@.len(),
            t == s@.take(end as int),
            forall|k: int| i <= k < end ==> t[k] != ':',
        decreases i,
    {
        if s.get_char(i - 1) == ':' {
            proof {
                lemma_last_index_take(t, ':', i as int);
                assert(t.take(i as int).last() == ':');
            }
            return Some(i - 1);
        }
        i = i - 1;
    }
    proof {
        lemma_last_index_take(t, ':', 0);
    }
    None
}

/// Whether the characters `from..to` of `s` are exactly `word`.
fn segment_is(s: &str, from: usize, to: usize, word: &str) -> (r: bool)
    requires
        from <= to <= s@.len(),
    ensures
        r == (s@.subrange(from as int, to as int) == word@),
{
    let n = word.unicode_len();
    if to - from != n {
        return false;
    }
    let mut i: usize = 0;
    while i < n
        invariant
            from <= to <= s@.len(),
            to - from == n == word@.len(),
            i <= n,
            forall|k: int| 0 <= k < i ==> s@[from + k] == word@[k],
        decreases n - i,
    {
        if s.get_char(from + i) != word.get_char(i) {
            assert(s@.subrange(from as int, to as int)[i as int] != word@[i as int]);
            return false;
        }
        i = i + 1;
    }
    assert(s@.subrange(from as int, to as int) =~= word@);
    true
}

/// The kind of content an identifier names.
#[derive(Clone, Copy, Debug, PartialEq, Eq, Hash, Structural)]
pub enum ItemIdType {
    Track,
    Podcast,
    LocalFile,
    Unknown,
}

/// A 128-bit content identifier with its type tag.
#[derive(Clone, Copy, Debug, PartialEq, Eq, Hash, Structural)]
pub struct ItemId {
    pub id: u128,
    pub id_type: ItemIdType,
}

impl ItemId {
    /// The invalid identifier: zero, of unknown type.
    pub fn invalid() -> (r: ItemId)
        ensures
            r.id == 0,
            r.id_type == ItemIdType::Unknown,
    {
        ItemId { id: 0, id_type: ItemIdType::Unknown }
    }

    pub fn new(id: u128, id_type: ItemIdType) -> (r: ItemId)
        ensures
            r.id == id,
            r.id_type == id_type,
    {
        ItemId { id, id_type }
    }

    /// Parses hexadecimal text (either case); the empty text is zero.
    pub fn from_base16(id: &str, id_type: ItemIdType) -> (r: Option<ItemId>)
        ensures
            r == (match decoded(id@, 16) {
                Some(n) => Some(ItemId { id: n, id_type }),
                None => None,
            }),
    {
        match decode_digits(id, 16) {
            Some(n) => Some(ItemId { id: n, id_type }),
            None => None,
        }
    }

    /// Parses base-62 text; the empty text is zero.
    pub fn from_base62(id: &str, id_type: ItemIdType) -> (r: Option<ItemId>)
        ensures
            r == (match decoded(id@, 62) {
                Some(n) => Some(ItemId { id: n, id_type }),
                None => None,
            }),
    {
        match decode_digits(id, 62) {
            Some(n) => Some(ItemId { id: n, id_type }),
            None => None,
        }
    }

    /// Reads exactly sixteen big-endian bytes.
    pub fn from_raw(data: &[u8], id_type: ItemIdType) -> (r: Option<ItemId>)
        ensures
            data@.len() == 16 ==> r == Some(ItemId { id: bytes_value(data@) as u128, id_type }),
            data@.len() != 16 ==> r is None,
    {
        if data.len() == 16 {
            let n = decode_be(data);
            Some(ItemId { id: n, id_type })
        } else {
            None
        }
    }

    /// The 32 lowercase hexadecimal digits of the number.
    pub fn to_base16(&self) -> (r: String)
        ensures
            r@ == encoded(self.id as nat, 16, 32),
            r@.len() == 32,
    {
        proof {
            lemma_width_powers();
        }
        encode_digits(self.id, 16, 32, 21267647932558653966460912964485513216)
    }

    /// The 22 base-62 digits of the number.
    pub fn to_base62(&self) -> (r: String)
        ensures
            r@ == encoded(self.id as nat, 62, 22),
            r@.len() == 22,
    {
        proof {
            lemma_width_powers();
        }
        encode_digits(self.id, 62, 22, 43674252383913877424036476406214950912)
    }

    /// The sixteen big-endian bytes of the number.
    pub fn to_raw(&self) -> (r: Vec<u8>)
        ensures
            r@ == fixed_bytes(self.id as nat, 16),
            bytes_value(r@) == self.id,
    {
        proof {
            lemma_width_powers();
        }
        encode_be(self.id, 16, 1329227995784915872903807060280344576)
    }

    /// Parses `scheme:type:id`: the last segment is the base-62 id, the one
    /// before it the type (`track`, `episode`; anything else is unknown).
    pub fn from_uri(uri: &str) -> (r: Option<ItemId>)
        ensures
            r == parsed_uri(uri@),
    {
        let n = uri.unicode_len();
        assert(uri@.take(n as int) =~= uri@);
        let (id_start, id_type) = match last_colon(uri, n) {
            None => {
                assert(uri_type_text(uri@) =~= Seq::<char>::empty());
                (0, ItemIdType::Unknown)
            },
            Some(k) => {
                let from = match last_colon(uri, k) {
                    Some(k2) => k2 + 1,
                    None => 0,
                };
                proof {
                    assert(uri@.subrange(0, k as int) =~= uri@.take(k as int));
                    reveal_strlit("track");
                    reveal_strlit("episode");
                    assert("track"@ =~= seq!['t', 'r', 'a', 'c', 'k']);
                    assert("episode"@ =~= seq!['e', 'p', 'i', 's', 'o', 'd', 'e']);
                }
                let tag = if segment_is(uri, from, k, "track") {
                    ItemIdType::Track
                } else if segment_is(uri, from, k, "episode") {
                    ItemIdType::Podcast
                } else {
                    ItemIdType::Unknown
                };
                proof {
                    assert(uri_type_text(uri@) =~= uri@.subrange(from as int, k as int));
                }
                (k + 1, tag)
            },
        };
        let text = uri.substring_char(id_start, n);
        assert(text@ =~= uri_id_text(uri@));
        assert(id_type == uri_type(uri@));
        match decode_digits(text, 62) {
            Some(v) => Some(ItemId { id: v, id_type }),
            None => None,
        }
    }

    /// `spotify:track:<base62>` or `spotify:podcast:<base62>`; local files and
    /// unknown items have no URI.
    pub fn to_uri(&self) -> (r: Option<String>)
        ensures
            self.id_type == ItemIdType::Track ==> (r matches Some(u) && u@ == "spotify:track:"@
                + encoded(self.id as nat, 62, 22)),
            self.id_type == ItemIdType::Podcast ==> (r matches Some(u) && u@ == "spotify:podcast:"@
                + encoded(self.id as nat, 62, 22)),
            self.id_type == ItemIdType::LocalFile ==> r is None,
            self.id_type == ItemIdType::Unknown ==> r is None,
    {
        match self.id_type {
            ItemIdType::Track => {
                let mut u = "spotify:track:".to_owned();
                let b = self.to_base62();
                u.append(b.as_str());
                Some(u)
            },
            ItemIdType::Podcast => {
                let mut u = "spotify:podcast:".to_owned();
                let b = self.to_base62();
                u.append(b.as_str());
                Some(u)
            },
            _ => None,
        }
    }

    /// The identifier that `from_local` gives the path `path`.
    pub open spec fn from_local_spec(path: Seq<char>) -> ItemId {
        ItemId { id: local_hash(encode_utf8(path)), id_type: ItemIdType::LocalFile }
    }

    /// The identifier of a local file: the FNV-1a hash of its path's UTF-8
    /// bytes, tagged as a local file. The same path always gives the same id.
    pub fn from_local(path: &str) -> (r: ItemId)
        ensures
            r.id == local_hash(encode_utf8(path@)),
            r.id_type == ItemIdType::LocalFile,
    {
        let bytes = path.as_bytes();
        let mut h: u128 = 0x6c62272e07bb014262b821756295c58d;
        let mut i: usize = 0;
        while i < bytes.len()
            invariant
                i <= bytes@.len(),
                bytes@ == encode_utf8(path@),
                h == local_hash(bytes@.take(i as int)),
            decreases bytes@.len() - i,
        {
            assert(bytes@.take(i + 1).drop_last() =~= bytes@.take(i as int));
            h = (h ^ bytes[i] as u128).wrapping_mul(0x0000000001000000000000000000013b);
            i = i + 1;
        }
        assert(bytes@.take(i as int) =~= bytes@);
        ItemId { id: h, id_type: ItemIdType::LocalFile }
    }
}

/// The path registered last under `id` among `entries`, if any.
pub open spec fn path_of(entries: Seq<(u128, Seq<char>)>, id: u128) -> Option<Seq<char>>
    decreases entries.len(),
{
    if entries.len() == 0 {
        None
    } else if entries.last().0 == id {
        Some(entries.last().1)
    } else {
        path_of(entries.drop_last(), id)
    }
}

/// The paths of the local files that have been given identifiers, so that
/// an identifier leads back to its path.
pub struct LocalFileRegistry {
    entries: Vec<(u128, String)>,
}

impl LocalFileRegistry {
    /// The registrations, oldest first, as (id, path).
    pub closed spec fn entries(&self) -> Seq<(u128, Seq<char>)> {
        self.entries@.map_values(|e: (u128, String)| (e.0, e.1@))
    }

    pub fn new() -> (r: LocalFileRegistry)
        ensures
            r.entries() == Seq::<(u128, Seq<char>)>::empty(),
    {
        let r = LocalFileRegistry { entries: Vec::new() };
        assert(r.entries() =~= Seq::<(u128, Seq<char>)>::empty());
        r
    }

    /// The identifier of the local file at `path`, remembered so that
    /// `to_local` can find the path again.
    pub fn from_local(&mut self, path: &str) -> (r: ItemId)
        ensures
            r == ItemId::from_local_spec(path@),
            final(self).entries() == old(self).entries().push((r.id, path@)),
    {
        let id = ItemId::from_local(path);
        self.entries.push((id.id, path.to_owned()));
        assert(final(self).entries() =~= old(self).entries().push((id.id, path@)));
        id
    }

    /// The path that the local-file identifier `id` was made from, if it was
    /// registered here.
    pub fn to_local(&self, id: ItemId) -> (r: Option<String>)
        requires
            id.id_type == ItemIdType::LocalFile,
        ensures
            match r {
                Some(p) => path_of(self.entries(), id.id) == Some(p@),
                None => path_of(self.entries(), id.id) is None,
            },
    {
        let ghost all = self.entries();
        let mut i: usize = self.entries.len();
        assert(all.take(i as int) =~= all);
        while i > 0
            invariant
                i <= self.entries@.len() == all.len(),
                all == self.entries(),
                path_of(all, id.id) == path_of(all.take(i as int), id.id),
            decreases i,
        {
            let e = &self.entries[i - 1];
            assert(all.take(i as int).last() == (e.0, e.1@));
            assert(all.take(i as int).drop_last() =~= all.take(i - 1));
            if e.0 == id.id {
                return Some(e.1.clone());
            }
            i = i - 1;
        }
        None
    }
}

impl Default for ItemId {
    /// The default identifier is the invalid one.
    fn default() -> (r: ItemId)
        ensures
            r.id == 0,
            r.id_type == ItemIdType::Unknown,
    {
        ItemId::invalid()
    }
}

impl From<ItemId> for String {
    /// The base-62 form.
    fn from(id: ItemId) -> String {
        id.to_base62()
    }
}

impl vstd::std_specs::convert::FromSpecImpl<ItemId> for String {
    open spec fn obeys_from_spec() -> bool {
        false
    }

    open spec fn from_spec(v: ItemId) -> String {
        arbitrary()
    }
}

/// Writing a number as sixteen big-endian bytes and reading them back gives
/// the number.
pub proof fn lemma_raw_round_trip(v: u128)
    ensures
        bytes_value(fixed_bytes(v as nat, 16)) == v,
{
    lemma_width_powers();
    lemma_fixed_bytes_value(v as nat, 16);
}

/// Text with a character outside the alphabet does not decode, and empty
/// text decodes to zero.
pub proof fn lemma_decode_rejects_and_empty(s: Seq<char>, base: nat, i: int)
    ensures
        0 <= i < s.len() && digit_of(s[i], base) is None ==> decoded(s, base) is None,
        decoded(Seq::empty(), base) == Some(0u128),
{
    assert(digit_values(Seq::empty(), base) =~= Seq::<nat>::empty());
}

/// Writing a number in base 16 or 62 and reading it back gives the number,
/// whatever the type tag.
pub proof fn lemma_text_round_trip(v: u128)
    ensures
        decoded(encoded(v as nat, 16, 32), 16) == Some(v),
        decoded(encoded(v as nat, 62, 22), 62) == Some(v),
{
    lemma_width_powers();
    lemma_decode_encoded(v as nat, 16, 32);
    lemma_decode_encoded(v as nat, 62, 22);
}


/// The lowercase hexadecimal text of the bytes `b`, two digits per byte.
pub open spec fn hex_of_bytes(b: Seq<u8>) -> Seq<char> {
    Seq::new(
        2 * b.len(),
        |i: int|
            if i % 2 == 0 {
                digit_char((b[i / 2] / 16) as nat)
            } else {
                digit_char((b[i / 2] % 16) as nat)
            },
    )
}

/// The bytes that hexadecimal text of even length writes, two digits per byte.
pub open spec fn bytes_of_hex(s: Seq<char>) -> Seq<u8> {
    Seq::new(
        s.len() / 2,
        |i: int|
            (16 * digit_of(s[2 * i], 16)->0 + digit_of(s[2 * i + 1], 16)->0) as u8,
    )
}

/// The 20-byte hash that names one encoded audio file.
#[derive(Clone, Copy, Debug, PartialEq, Eq, Hash)]
pub struct FileId(pub [u8; 20]);

impl FileId {
    /// Takes exactly twenty bytes.
    pub fn from_raw(data: &[u8]) -> (r: Option<FileId>)
        ensures
            data@.len() == 20 ==> (r matches Some(f) && f.0@ == data@),
            data@.len() != 20 ==> r is None,
    {
        if data.len() != 20 {
            return None;
        }
        let mut a = [0u8; 20];
        let mut i: usize = 0;
        while i < 20
            invariant
                data@.len() == 20,
                i <= 20,
                forall|k: int| 0 <= k < i ==> a@[k] == data@[k],
            decreases 20 - i,
        {
            a[i] = data[i];
            i = i + 1;
        }
        assert(a@ =~= data@);
        Some(FileId(a))
    }

    /// Parses exactly forty hexadecimal digits (either case).
    pub fn from_base16(id: &str) -> (r: Option<FileId>)
        ensures
            (id@.len() == 40 && all_digits(id@, 16)) ==> (r matches Some(f) && f.0@
                == bytes_of_hex(id@)),
            !(id@.len() == 40 && all_digits(id@, 16)) ==> r is None,
    {
        broadcast use vstd::string::is_ascii_spec_bytes, vstd::utf8::is_ascii_chars_encode_utf8;

        if !id.is_ascii() {
            proof {
                let i = choose|i: int| 0 <= i < id@.len() && !('\0' <= #[trigger] id@[i] && id@[i] <= '\u{7f}');
                assert(digit_of(id@[i], 16) is None);
            }
            return None;
        }
        let bytes = id.as_bytes();
        if bytes.len() != 40 {
            return None;
        }
        let mut a = [0u8; 20];
        let mut i: usize = 0;
        while i < 20
            invariant
                bytes@.len() == 40 == id@.len(),
                i <= 20,
                forall|k: int| 0 <= k < 40 ==> #[trigger] bytes@[k] == id@[k] as u8,
                is_ascii_chars(id@),
                forall|k: int| 0 <= k < 2 * i ==> (#[trigger] digit_of(id@[k], 16)) is Some,
                forall|k: int| 0 <= k < i ==> a@[k] == bytes_of_hex(id@)[k],
            decreases 20 - i,
        {
            assert(bytes@[2 * i as int] as char == id@[2 * i as int]);
            assert(bytes@[2 * i + 1] as char == id@[2 * i + 1]);
            let hi = match byte_digit(bytes[2 * i], 16) {
                Some(d) => d,
                None => {
                    return None;
                },
            };
            let lo = match byte_digit(bytes[2 * i + 1], 16) {
                Some(d) => d,
                None => {
                    return None;
                },
            };
            a[i] = (16 * hi + lo) as u8;
            i = i + 1;
        }
        assert(a@ =~= bytes_of_hex(id@));
        Some(FileId(a))
    }

    /// The 40 lowercase hexadecimal digits of the bytes.
    pub fn to_base16(&self) -> (r: String)
        ensures
            r@ == hex_of_bytes(self.0@),
            r@.len() == 40,
    {
        let mut s = String::new();
        let mut i: usize = 0;
        while i < 20
            invariant
                i <= 20,
                s@ == hex_of_bytes(self.0@).take(2 * i),
            decreases 20 - i,
        {
            let b = self.0[i];
            push_char(&mut s, digit_char_exec((b / 16) as u128));
            push_char(&mut s, digit_char_exec((b % 16) as u128));
            assert(s@ =~= hex_of_bytes(self.0@).take(2 * (i + 1)));
            i = i + 1;
        }
        assert(s@ =~= hex_of_bytes(self.0@));
        s
    }

    /// The twenty bytes.
    pub fn as_bytes(&self) -> (r: &[u8])
        ensures
            r@ == self.0@,
    {
        self.0.as_slice()
    }
}

impl core::ops::Deref for FileId {
    type Target = [u8];

    fn deref(&self) -> &[u8] {
        self.0.as_slice()
    }
}

} // verus!
