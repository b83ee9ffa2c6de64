//! The binary form of a cached track record.
//!
//! A record is a four-byte big-endian length followed by a body of exactly
//! that many bytes. The body holds the fields in a fixed order; an optional
//! field is a presence byte (0 or 1) and, when present, its value. Integers
//! are four bytes big-endian, flags one byte (0 or 1), byte strings and text
//! a four-byte length and then the bytes (text as UTF-8).

use vstd::prelude::*;
use vstd::slice::slice_subrange;
use vstd::utf8::{decode_utf8, encode_utf8, encode_utf8_decode_utf8, encode_utf8_valid_utf8, valid_utf8};

verus! {

/// The metadata of a track that the cache keeps.
#[derive(Clone, Debug, PartialEq, Eq)]
pub struct Track {
    pub gid: Option<Vec<u8>>,
    pub name: Option<String>,
    pub number: Option<i32>,
    pub disc_number: Option<i32>,
    pub duration: Option<i32>,
    pub popularity: Option<i32>,
    pub explicit: Option<bool>,
}

/// A track's fields as plain values.
pub type TrackView = (Option<Seq<u8>>, Option<Seq<char>>, Option<i32>, Option<i32>, Option<i32>, Option<i32>, Option<bool>);

/// The optional byte string as a sequence.
pub open spec fn opt_bytes_view(o: Option<Vec<u8>>) -> Option<Seq<u8>> {
    match o {
        Some(v) => Some(v@),
        None => None,
    }
}

/// The optional text as characters.
pub open spec fn opt_text_view(o: Option<String>) -> Option<Seq<char>> {
    match o {
        Some(s) => Some(s@),
        None => None,
    }
}

/// The fields of `t`.
pub open spec fn track_view(t: Track) -> TrackView {
    (opt_bytes_view(t.gid), opt_text_view(t.name), t.number, t.disc_number, t.duration, t.popularity, t.explicit)
}

/// The four big-endian bytes of `x`.
pub open spec fn u32_be(x: u32) -> Seq<u8> {
    seq![(x >> 24u32) as u8, (x >> 16u32) as u8, (x >> 8u32) as u8, x as u8]
}

/// The number that four bytes at `p` write, and the position after them.
pub open spec fn read_u32(s: Seq<u8>, p: int) -> Option<(u32, int)> {
    if 0 <= p && p + 4 <= s.len() {
        Some((
            ((s[p] as u32) << 24u32) | ((s[p + 1] as u32) << 16u32) | ((s[p + 2] as u32) << 8u32) | (s[p + 3] as u32),
            p + 4,
        ))
    } else {
        None
    }
}

/// A byte string with its length in front.
pub open spec fn enc_bytes(b: Seq<u8>) -> Seq<u8> {
    u32_be(b.len() as u32) + b
}

/// The length-prefixed byte string at `p`.
pub open spec fn read_bytes(s: Seq<u8>, p: int) -> Option<(Seq<u8>, int)> {
    match read_u32(s, p) {
        Some((n, q)) => if q + n <= s.len() {
            Some((s.subrange(q, q + n), q + n))
        } else {
            None
        },
        None => None,
    }
}

/// A presence byte, then the value's bytes when there is one.
pub open spec fn enc_opt(o: Option<Seq<u8>>) -> Seq<u8> {
    match o {
        Some(v) => seq![1u8] + v,
        None => seq![0u8],
    }
}

pub open spec fn enc_opt_bytes(o: Option<Seq<u8>>) -> Seq<u8> {
    enc_opt(
        match o {
            Some(b) => Some(enc_bytes(b)),
            None => None,
        },
    )
}

pub open spec fn enc_opt_text(o: Option<Seq<char>>) -> Seq<u8> {
    enc_opt_bytes(
        match o {
            Some(t) => Some(encode_utf8(t)),
            None => None,
        },
    )
}

pub open spec fn enc_opt_i32(o: Option<i32>) -> Seq<u8> {
    enc_opt(
        match o {
            Some(x) => Some(u32_be(x as u32)),
            None => None,
        },
    )
}

pub open spec fn enc_opt_bool(o: Option<bool>) -> Seq<u8> {
    enc_opt(
        match o {
            Some(b) => Some(seq![if b { 1u8 } else { 0u8 }]),
            None => None,
        },
    )
}

/// The presence byte at `p`: `Some(present)` when it is 0 or 1.
pub open spec fn read_presence(s: Seq<u8>, p: int) -> Option<bool> {
    if 0 <= p < s.len() && s[p] == 1 {
        Some(true)
    } else if 0 <= p < s.len() && s[p] == 0 {
        Some(false)
    } else {
        None
    }
}

pub open spec fn read_opt_bytes(s: Seq<u8>, p: int) -> Option<(Option<Seq<u8>>, int)> {
    match read_presence(s, p) {
        Some(true) => match read_bytes(s, p + 1) {
            Some((b, q)) => Some((Some(b), q)),
            None => None,
        },
        Some(false) => Some((None, p + 1)),
        None => None,
    }
}

pub open spec fn read_opt_text(s: Seq<u8>, p: int) -> Option<(Option<Seq<char>>, int)> {
    match read_opt_bytes(s, p) {
        Some((Some(b), q)) => if valid_utf8(b) {
            Some((Some(decode_utf8(b)), q))
        } else {
            None
        },
        Some((None, q)) => Some((None, q)),
        None => None,
    }
}

pub open spec fn read_opt_i32(s: Seq<u8>, p: int) -> Option<(Option<i32>, int)> {
    match read_presence(s, p) {
        Some(true) => match read_u32(s, p + 1) {
            Some((x, q)) => Some((Some(x as i32), q)),
            None => None,
        },
        Some(false) => Some((None, p + 1)),
        None => None,
    }
}

pub open spec fn read_opt_bool(s: Seq<u8>, p: int) -> Option<(Option<bool>, int)> {
    match read_presence(s, p) {
        Some(true) => match read_presence(s, p + 1) {
            Some(b) => Some((Some(b), p + 2)),
            None => None,
        },
        Some(false) => Some((None, p + 1)),
        None => None,
    }
}

/// The body of a record: the fields in order.
pub open spec fn enc_body(t: TrackView) -> Seq<u8> {
    enc_opt_bytes(t.0) + enc_opt_text(t.1) + enc_opt_i32(t.2) + enc_opt_i32(t.3) + enc_opt_i32(t.4)
        + enc_opt_i32(t.5) + enc_opt_bool(t.6)
}

/// A whole record: the body's length, then the body.
pub open spec fn enc_record(t: TrackView) -> Seq<u8> {
    u32_be(enc_body(t).len() as u32) + enc_body(t)
}

/// The fields read from `p` on, and the position after them.
pub open spec fn read_body(s: Seq<u8>, p: int) -> Option<(TrackView, int)> {
    match read_opt_bytes(s, p) {
        None => None,
        Some((gid, pos1)) => match read_opt_text(s, pos1) {
            None => None,
            Some((name, pos2)) => match read_opt_i32(s, pos2) {
                None => None,
                Some((number, pos3)) => match read_opt_i32(s, pos3) {
                    None => None,
                    Some((disc, pos4)) => match read_opt_i32(s, pos4) {
                        None => None,
                        Some((duration, pos5)) => match read_opt_i32(s, pos5) {
                            None => None,
                            Some((popularity, pos6)) => match read_opt_bool(s, pos6) {
                                None => None,
                                Some((explicit, pos7)) => Some(
                                    ((gid, name, number, disc, duration, popularity, explicit), pos7),
                                ),
                            },
                        },
                    },
                },
            },
        },
    }
}

/// What reading the bytes `s` as a record yields: the fields, when the
/// length in front matches the rest and the body holds exactly the fields.
pub open spec fn read_record(s: Seq<u8>) -> Option<TrackView> {
    match read_u32(s, 0) {
        Some((n, p)) => if s.len() == 4 + n {
            match read_body(s, p) {
                Some((t, q)) => if q == s.len() {
                    Some(t)
                } else {
                    None
                },
                None => None,
            }
        } else {
            None
        },
        None => None,
    }
}

/// Every byte string and text of `t` fits a four-byte length, with room to
/// spare for the whole record.
pub open spec fn fits_record(t: TrackView) -> bool {
    &&& (t.0 matches Some(b) ==> b.len() < 0x1000_0000)
    &&& (t.1 matches Some(c) ==> encode_utf8(c).len() < 0x1000_0000)
}

proof fn lemma_u32_round_trip(x: u32)
    ensures
        ((((x >> 24u32) as u8) as u32) << 24u32) | ((((x >> 16u32) as u8) as u32) << 16u32) | ((((x
            >> 8u32) as u8) as u32) << 8u32) | ((x as u8) as u32) == x,
{
    assert(((((x >> 24u32) as u8) as u32) << 24u32) | ((((x >> 16u32) as u8) as u32) << 16u32) | ((((x
        >> 8u32) as u8) as u32) << 8u32) | ((x as u8) as u32) == x) by (bit_vector);
}

/// Reading four bytes where `u32_be(x)` stands gives `x`.
proof fn lemma_read_u32(s: Seq<u8>, p: int, x: u32)
    requires
        0 <= p,
        p + 4 <= s.len(),
        s.subrange(p, p + 4) == u32_be(x),
    ensures
        read_u32(s, p) == Some((x, p + 4)),
{
    assert(s[p] == s.subrange(p, p + 4)[0]);
    assert(s[p + 1] == s.subrange(p, p + 4)[1]);
    assert(s[p + 2] == s.subrange(p, p + 4)[2]);
    assert(s[p + 3] == s.subrange(p, p + 4)[3]);
    lemma_u32_round_trip(x);
}


/// Where `a + b` stands at `p`, `a` stands at `p` and `b` right after it.
proof fn lemma_split(s: Seq<u8>, p: int, a: Seq<u8>, b: Seq<u8>)
    requires
        0 <= p,
        p + a.len() + b.len() <= s.len(),
        s.subrange(p, p + a.len() + b.len()) == a + b,
    ensures
        s.subrange(p, p + a.len()) == a,
        s.subrange(p + a.len(), p + a.len() + b.len()) == b,
{
    assert(s.subrange(p, p + a.len()) =~= (a + b).subrange(0, a.len() as int));
    assert((a + b).subrange(0, a.len() as int) =~= a);
    assert(s.subrange(p + a.len(), p + a.len() + b.len()) =~= (a + b).subrange(a.len() as int, (a.len() + b.len()) as int));
    assert((a + b).subrange(a.len() as int, (a.len() + b.len()) as int) =~= b);
}

proof fn lemma_read_bytes(s: Seq<u8>, p: int, b: Seq<u8>)
    requires
        0 <= p,
        b.len() <= u32::MAX,
        p + enc_bytes(b).len() <= s.len(),
        s.subrange(p, p + enc_bytes(b).len()) == enc_bytes(b),
    ensures
        read_bytes(s, p) == Some((b, p + enc_bytes(b).len())),
{
    lemma_split(s, p, u32_be(b.len() as u32), b);
    lemma_read_u32(s, p, b.len() as u32);
}

proof fn lemma_read_opt_bytes(s: Seq<u8>, p: int, o: Option<Seq<u8>>)
    requires
        0 <= p,
        o matches Some(b) ==> b.len() <= u32::MAX,
        p + enc_opt_bytes(o).len() <= s.len(),
        s.subrange(p, p + enc_opt_bytes(o).len()) == enc_opt_bytes(o),
    ensures
        read_opt_bytes(s, p) == Some((o, p + enc_opt_bytes(o).len())),
{
    assert(s[p] == s.subrange(p, p + enc_opt_bytes(o).len())[0]);
    if let Some(b) = o {
        lemma_split(s, p, seq![1u8], enc_bytes(b));
        lemma_read_bytes(s, p + 1, b);
    }
}

proof fn lemma_read_opt_text(s: Seq<u8>, p: int, o: Option<Seq<char>>)
    requires
        0 <= p,
        o matches Some(c) ==> encode_utf8(c).len() <= u32::MAX,
        p + enc_opt_text(o).len() <= s.len(),
        s.subrange(p, p + enc_opt_text(o).len()) == enc_opt_text(o),
    ensures
        read_opt_text(s, p) == Some((o, p + enc_opt_text(o).len())),
{
    let ob = match o {
        Some(t) => Some(encode_utf8(t)),
        None => None,
    };
    lemma_read_opt_bytes(s, p, ob);
    if let Some(c) = o {
        encode_utf8_valid_utf8(c);
        encode_utf8_decode_utf8(c);
    }
}

proof fn lemma_read_opt_i32(s: Seq<u8>, p: int, o: Option<i32>)
    requires
        0 <= p,
        p + enc_opt_i32(o).len() <= s.len(),
        s.subrange(p, p + enc_opt_i32(o).len()) == enc_opt_i32(o),
    ensures
        read_opt_i32(s, p) == Some((o, p + enc_opt_i32(o).len())),
{
    assert(s[p] == s.subrange(p, p + enc_opt_i32(o).len())[0]);
    if let Some(x) = o {
        lemma_split(s, p, seq![1u8], u32_be(x as u32));
        lemma_read_u32(s, p + 1, x as u32);
        assert((x as u32) as i32 == x) by (bit_vector);
    }
}

proof fn lemma_read_opt_bool(s: Seq<u8>, p: int, o: Option<bool>)
    requires
        0 <= p,
        p + enc_opt_bool(o).len() <= s.len(),
        s.subrange(p, p + enc_opt_bool(o).len()) == enc_opt_bool(o),
    ensures
        read_opt_bool(s, p) == Some((o, p + enc_opt_bool(o).len())),
{
    assert(s[p] == s.subrange(p, p + enc_opt_bool(o).len())[0]);
    if o is Some {
        assert(s[p + 1] == s.subrange(p, p + enc_opt_bool(o).len())[1]);
    }
}

proof fn lemma_read_body(s: Seq<u8>, p: int, t: TrackView)
    requires
        0 <= p,
        fits_record(t),
        p + enc_body(t).len() <= s.len(),
        s.subrange(p, p + enc_body(t).len()) == enc_body(t),
    ensures
        read_body(s, p) == Some((t, p + enc_body(t).len())),
{
    let e0 = enc_opt_bytes(t.0);
    let e1 = enc_opt_text(t.1);
    let e2 = enc_opt_i32(t.2);
    let e3 = enc_opt_i32(t.3);
    let e4 = enc_opt_i32(t.4);
    let e5 = enc_opt_i32(t.5);
    let e6 = enc_opt_bool(t.6);
    let a5 = e0 + e1 + e2 + e3 + e4 + e5;
    let a4 = e0 + e1 + e2 + e3 + e4;
    let a3 = e0 + e1 + e2 + e3;
    let a2 = e0 + e1 + e2;
    let a1 = e0 + e1;
    lemma_split(s, p, a5, e6);
    lemma_split(s, p, a4, e5);
    lemma_split(s, p, a3, e4);
    lemma_split(s, p, a2, e3);
    lemma_split(s, p, a1, e2);
    lemma_split(s, p, e0, e1);
    lemma_read_opt_bytes(s, p, t.0);
    lemma_read_opt_text(s, p + e0.len(), t.1);
    lemma_read_opt_i32(s, p + a1.len(), t.2);
    lemma_read_opt_i32(s, p + a2.len(), t.3);
    lemma_read_opt_i32(s, p + a3.len(), t.4);
    lemma_read_opt_i32(s, p + a4.len(), t.5);
    lemma_read_opt_bool(s, p + a5.len(), t.6);
}

proof fn lemma_body_len(t: TrackView)
    requires
        fits_record(t),
    ensures
        enc_body(t).len() < 0x1_0000_0000,
{
}

/// A record that fits reads back as the fields it was written from.
pub proof fn lemma_record_round_trip(t: TrackView)
    requires
        fits_record(t),
    ensures
        read_record(enc_record(t)) == Some(t),
{
    let body = enc_body(t);
    let s = enc_record(t);
    lemma_body_len(t);
    assert(s.subrange(0, (4 + body.len()) as int) =~= s);
    lemma_split(s, 0, u32_be(body.len() as u32), body);
    lemma_read_u32(s, 0, body.len() as u32);
    lemma_read_body(s, 4, t);
}

/// Cutting a record short, by any number of bytes, makes it unreadable.
pub proof fn lemma_truncated_record_unreadable(t: TrackView, k: int)
    requires
        fits_record(t),
        0 <= k < enc_record(t).len(),
    ensures
        read_record(enc_record(t).take(k)) is None,
{
    let body = enc_body(t);
    let s = enc_record(t);
    let c = s.take(k);
    if k >= 4 {
        lemma_body_len(t);
        assert(c.subrange(0, 4) =~= u32_be(body.len() as u32));
        lemma_read_u32(c, 0, body.len() as u32);
    }
}


/// Relies on `String::from_utf8`: the text that valid UTF-8 bytes encode,
/// and an error for any other bytes.
#[verifier::external_body]
fn text_from_utf8(bytes: Vec<u8>) -> (r: Option<String>)
    ensures
        r is Some <==> valid_utf8(bytes@),
        r matches Some(s) ==> s@ == decode_utf8(bytes@),
{
    String::from_utf8(bytes).ok()
}

fn put_u32(out: &mut Vec<u8>, x: u32)
    ensures
        final(out)@ == old(out)@ + u32_be(x),
{
    out.push((x >> 24u32) as u8);
    out.push((x >> 16u32) as u8);
    out.push((x >> 8u32) as u8);
    out.push(x as u8);
    assert(final(out)@ =~= old(out)@ + u32_be(x));
}

fn put_slice(out: &mut Vec<u8>, b: &[u8])
    ensures
        final(out)@ == old(out)@ + b@,
{
    let ghost start = out@;
    let mut i: usize = 0;
    while i < b.len()
        invariant
            i <= b@.len(),
            out@ == start + b@.take(i as int),
        decreases b@.len() - i,
    {
        out.push(b[i]);
        assert(out@ =~= start + b@.take(i + 1));
        i = i + 1;
    }
    assert(b@.take(i as int) =~= b@);
}

fn put_opt_bytes(out: &mut Vec<u8>, o: Option<&[u8]>)
    requires
        o matches Some(b) ==> b@.len() < 0x1000_0000,
    ensures
        final(out)@ == old(out)@ + enc_opt_bytes(
            match o {
                Some(b) => Some(b@),
                None => None,
            },
        ),
{
    match o {
        Some(b) => {
            out.push(1u8);
            put_u32(out, b.len() as u32);
            put_slice(out, b);
            assert(final(out)@ =~= old(out)@ + enc_opt_bytes(Some(b@)));
        },
        None => {
            out.push(0u8);
            assert(final(out)@ =~= old(out)@ + enc_opt_bytes(None));
        },
    }
}

fn put_opt_i32(out: &mut Vec<u8>, o: Option<i32>)
    ensures
        final(out)@ == old(out)@ + enc_opt_i32(o),
{
    match o {
        Some(x) => {
            out.push(1u8);
            put_u32(out, x as u32);
            assert(final(out)@ =~= old(out)@ + enc_opt_i32(o));
        },
        None => {
            out.push(0u8);
            assert(final(out)@ =~= old(out)@ + enc_opt_i32(o));
        },
    }
}

fn put_opt_bool(out: &mut Vec<u8>, o: Option<bool>)
    ensures
        final(out)@ == old(out)@ + enc_opt_bool(o),
{
    match o {
        Some(b) => {
            out.push(1u8);
            out.push(if b { 1u8 } else { 0u8 });
        },
        None => {
            out.push(0u8);
        },
    }
    assert(final(out)@ =~= old(out)@ + enc_opt_bool(o));
}

impl Track {
    /// Whether the track's byte strings and text are short enough to be
    /// written as a record.
    pub fn fits_record(&self) -> (r: bool)
        ensures
            r == fits_record(track_view(*self)),
    {
        let gid_ok = match &self.gid {
            Some(b) => b.len() < 0x1000_0000,
            None => true,
        };
        let name_ok = match &self.name {
            Some(n) => n.as_str().as_bytes().len() < 0x1000_0000,
            None => true,
        };
        gid_ok && name_ok
    }
}

/// The record of `track`.
pub fn encode_track(track: &Track) -> (r: Vec<u8>)
    requires
        fits_record(track_view(*track)),
    ensures
        r@ == enc_record(track_view(*track)),
{
    let ghost t = track_view(*track);
    let mut body: Vec<u8> = Vec::new();
    match &track.gid {
        Some(b) => put_opt_bytes(&mut body, Some(b.as_slice())),
        None => put_opt_bytes(&mut body, None),
    }
    match &track.name {
        Some(n) => put_opt_bytes(&mut body, Some(n.as_str().as_bytes())),
        None => put_opt_bytes(&mut body, None),
    }
    put_opt_i32(&mut body, track.number);
    put_opt_i32(&mut body, track.disc_number);
    put_opt_i32(&mut body, track.duration);
    put_opt_i32(&mut body, track.popularity);
    put_opt_bool(&mut body, track.explicit);
    assert(body@ =~= enc_body(t));
    proof {
        lemma_body_len(t);
    }
    let mut out: Vec<u8> = Vec::new();
    put_u32(&mut out, body.len() as u32);
    put_slice(&mut out, body.as_slice());
    assert(out@ =~= enc_record(t));
    out
}

fn get_u32(data: &[u8], p: usize) -> (r: Option<(u32, usize)>)
    ensures
        match read_u32(data@, p as int) {
            Some((x, q)) => r == Some((x, q as usize)),
            None => r is None,
        },
{
    if p > data.len() || data.len() - p < 4 {
        return None;
    }
    let x = ((data[p] as u32) << 24u32) | ((data[p + 1] as u32) << 16u32) | ((data[p + 2] as u32) << 8u32)
        | (data[p + 3] as u32);
    Some((x, p + 4))
}

fn get_presence(data: &[u8], p: usize) -> (r: Option<bool>)
    ensures
        r == read_presence(data@, p as int),
        r is Some ==> p < data@.len(),
        data@.len() <= usize::MAX,
{
    if p >= data.len() {
        None
    } else if data[p] == 1 {
        Some(true)
    } else if data[p] == 0 {
        Some(false)
    } else {
        None
    }
}

fn get_opt_bytes(data: &[u8], p: usize) -> (r: Option<(Option<Vec<u8>>, usize)>)
    ensures
        match read_opt_bytes(data@, p as int) {
            Some((o, q)) => r matches Some((v, q2)) && opt_bytes_view(v) == o && q2 == q,
            None => r is None,
        },
{
    match get_presence(data, p) {
        None => None,
        Some(false) => Some((None, p + 1)),
        Some(true) => {
            let (n, q) = match get_u32(data, p + 1) {
                Some(x) => x,
                None => {
                    return None;
                },
            };
            if (n as usize) > data.len() - q {
                return None;
            }
            let mut v: Vec<u8> = Vec::new();
            put_slice(&mut v, slice_subrange(data, q, q + n as usize));
            Some((Some(v), q + n as usize))
        },
    }
}

fn get_opt_i32(data: &[u8], p: usize) -> (r: Option<(Option<i32>, usize)>)
    ensures
        match read_opt_i32(data@, p as int) {
            Some((o, q)) => r == Some((o, q as usize)),
            None => r is None,
        },
{
    match get_presence(data, p) {
        None => None,
        Some(false) => Some((None, p + 1)),
        Some(true) => match get_u32(data, p + 1) {
            Some((x, q)) => Some((Some(x as i32), q)),
            None => None,
        },
    }
}

fn get_opt_bool(data: &[u8], p: usize) -> (r: Option<(Option<bool>, usize)>)
    ensures
        match read_opt_bool(data@, p as int) {
            Some((o, q)) => r == Some((o, q as usize)),
            None => r is None,
        },
{
    match get_presence(data, p) {
        None => None,
        Some(false) => Some((None, p + 1)),
        Some(true) => match get_presence(data, p + 1) {
            Some(b) => Some((Some(b), p + 2)),
            None => None,
        },
    }
}

/// The track that the record `data` holds; `None` for bytes that are not a
/// whole record (empty, cut short, with bytes left over, or malformed).
pub fn decode_track(data: &[u8]) -> (r: Option<Track>)
    ensures
        match read_record(data@) {
            Some(t) => r matches Some(track) && track_view(track) == t,
            None => r is None,
        },
{
    let (n, pos0) = match get_u32(data, 0) {
        Some(x) => x,
        None => {
            return None;
        },
    };
    if data.len() - 4 != n as usize {
        return None;
    }
    let (gid, pos1) = match get_opt_bytes(data, pos0) {
        Some(x) => x,
        None => {
            return None;
        },
    };
    let (name_bytes, pos2) = match get_opt_bytes(data, pos1) {
        Some(x) => x,
        None => {
            return None;
        },
    };
    let name = match name_bytes {
        Some(b) => match text_from_utf8(b) {
            Some(s) => Some(s),
            None => {
                return None;
            },
        },
        None => None,
    };
    let (number, pos3) = match get_opt_i32(data, pos2) {
        Some(x) => x,
        None => {
            return None;
        },
    };
    let (disc_number, pos4) = match get_opt_i32(data, pos3) {
        Some(x) => x,
        None => {
            return None;
        },
    };
    let (duration, pos5) = match get_opt_i32(data, pos4) {
        Some(x) => x,
        None => {
            return None;
        },
    };
    let (popularity, pos6) = match get_opt_i32(data, pos5) {
        Some(x) => x,
        None => {
            return None;
        },
    };
    let (explicit, pos7) = match get_opt_bool(data, pos6) {
        Some(x) => x,
        None => {
            return None;
        },
    };
    if pos7 != data.len() {
        return None;
    }
    Some(Track { gid, name, number, disc_number, duration, popularity, explicit })
}

} // verus!
