//! The layout and the read rule of the on-disk cache.
//!
//! The cache root holds one directory per kind of content. A track's record
//! is stored under `track/` in a file named by the 22 base-62 digits of its
//! id; a file's audio and key are named by the 40 hexadecimal digits of its
//! file id. Reading an entry that is missing or does not hold a whole record
//! finds nothing.

use crate::item_id::{encoded, hex_of_bytes, lemma_text_round_trip, FileId, ItemId};
use crate::record::{decode_track, enc_record, fits_record, lemma_record_round_trip, read_record, Track, TrackView, track_view};
use vstd::prelude::*;

verus! {

/// The kinds of cached content, one directory each.
#[derive(Clone, Copy, Debug, PartialEq, Eq, Structural)]
pub enum CacheClass {
    Track,
    Episode,
    Audio,
    Key,
}

/// The directory name of each kind of content.
pub open spec fn class_dir(c: CacheClass) -> Seq<char> {
    match c {
        CacheClass::Track => "track"@,
        CacheClass::Episode => "episode"@,
        CacheClass::Audio => "audio"@,
        CacheClass::Key => "key"@,
    }
}

impl CacheClass {
    /// Every kind, in the order the directories are created.
    pub fn all() -> (r: Vec<CacheClass>)
        ensures
            r@ == seq![CacheClass::Track, CacheClass::Episode, CacheClass::Audio, CacheClass::Key],
    {
        let mut v: Vec<CacheClass> = Vec::new();
        v.push(CacheClass::Track);
        v.push(CacheClass::Episode);
        v.push(CacheClass::Audio);
        v.push(CacheClass::Key);
        assert(v@ =~= seq![CacheClass::Track, CacheClass::Episode, CacheClass::Audio, CacheClass::Key]);
        v
    }

    /// The directory that holds this kind of content.
    pub fn dir_name(self) -> (r: &'static str)
        ensures
            r@ == class_dir(self),
    {
        match self {
            CacheClass::Track => "track",
            CacheClass::Episode => "episode",
            CacheClass::Audio => "audio",
            CacheClass::Key => "key",
        }
    }
}

/// The file name of an item's metadata entry: its base-62 form.
pub fn metadata_entry_name(id: ItemId) -> (r: String)
    ensures
        r@ == encoded(id.id as nat, 62, 22),
{
    id.to_base62()
}

/// The file name of a file's audio or key entry: its hexadecimal form.
pub fn file_entry_name(id: FileId) -> (r: String)
    ensures
        r@ == hex_of_bytes(id.0@),
{
    id.to_base16()
}

/// The track that a cache entry holds: nothing when the entry is missing
/// (`None`) or its bytes are not a whole record.
pub fn track_from_entry(contents: Option<&[u8]>) -> (r: Option<Track>)
    ensures
        match contents {
            None => r is None,
            Some(bytes) => match read_record(bytes@) {
                Some(t) => r matches Some(track) && track_view(track) == t,
                None => r is None,
            },
        },
{
    match contents {
        None => None,
        Some(bytes) => decode_track(bytes),
    }
}

/// The path of a track's entry below the cache root.
pub open spec fn track_entry(id: u128) -> Seq<char> {
    class_dir(CacheClass::Track) + seq!['/'] + encoded(id as nat, 62, 22)
}

/// The cache's files as a map from path (below the root) to contents.
pub type CacheFiles = Map<Seq<char>, Seq<u8>>;

/// The files after saving the record of `t` under `id`: the entry is
/// written whole, whatever it held before.
pub open spec fn saved(files: CacheFiles, id: ItemId, t: TrackView) -> CacheFiles {
    files.insert(track_entry(id.id), enc_record(t))
}

/// What getting the track `id` finds in `files`.
pub open spec fn fetched(files: CacheFiles, id: ItemId) -> Option<TrackView> {
    if files.contains_key(track_entry(id.id)) {
        read_record(files[track_entry(id.id)])
    } else {
        None
    }
}

/// Distinct ids have distinct entries.
pub proof fn lemma_track_entries_distinct(a: u128, b: u128)
    requires
        a != b,
    ensures
        track_entry(a) != track_entry(b),
{
    lemma_text_round_trip(a);
    lemma_text_round_trip(b);
    let pre = class_dir(CacheClass::Track) + seq!['/'];
    if track_entry(a) == track_entry(b) {
        assert(track_entry(a).skip(pre.len() as int) =~= encoded(a as nat, 62, 22));
        assert(track_entry(b).skip(pre.len() as int) =~= encoded(b as nat, 62, 22));
    }
}

/// Saving a record and getting it back gives the same fields.
pub proof fn lemma_save_then_get(files: CacheFiles, id: ItemId, t: TrackView)
    requires
        fits_record(t),
    ensures
        fetched(saved(files, id, t), id) == Some(t),
{
    lemma_record_round_trip(t);
}

/// Of two saves under one id, getting finds the second.
pub proof fn lemma_second_save_wins(files: CacheFiles, id: ItemId, first: TrackView, second: TrackView)
    requires
        fits_record(second),
    ensures
        fetched(saved(saved(files, id, first), id, second), id) == Some(second),
{
    lemma_record_round_trip(second);
    assert(saved(saved(files, id, first), id, second) =~= files.insert(track_entry(id.id), enc_record(second)));
}

/// Saving under one id leaves what every other id finds as it was.
pub proof fn lemma_other_ids_untouched(files: CacheFiles, id: ItemId, other: ItemId, t: TrackView)
    requires
        id.id != other.id,
    ensures
        fetched(saved(files, id, t), other) == fetched(files, other),
{
    lemma_track_entries_distinct(id.id, other.id);
}

/// Getting an id that was never saved finds nothing, and so does getting
/// one whose entry is empty.
pub proof fn lemma_absent_or_empty_is_missing(files: CacheFiles, id: ItemId)
    requires
        !files.contains_key(track_entry(id.id)) || files[track_entry(id.id)].len() == 0,
    ensures
        fetched(files, id) is None,
{
}

} // verus!
