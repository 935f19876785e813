//! Song metadata: the known tag fields of a song, the fields the library
//! does not know, and albums assembled from the metadata of their tracks.

use vstd::prelude::*;
use crate::strmap::{keys_sorted, seq_lookup, str_eq, StrMap};
use crate::tags::TagType;
use crate::text::{join_spec, spec_to_lowercase, str_to_lowercase};
use crate::tags::{join_tag_values, sanitize_tag_spec};

verus! {

/// The tag fields the library knows by name.
#[derive(Debug, Clone, Copy, PartialEq, Eq, Structural)]
pub enum ItemKey {
    Title,
    Artist,
    Album,
    AlbumArtist,
    Genre,
    TrackNumber,
    DiscNumber,
    Year,
    Mood,
    Composer,
    Comment,
}

/// Number of known fields.
pub const ITEM_KEY_COUNT: usize = 11;

/// Position of a key in the order of the fields.
pub open spec fn key_rank(k: ItemKey) -> nat {
    match k {
        ItemKey::Title => 0,
        ItemKey::Artist => 1,
        ItemKey::Album => 2,
        ItemKey::AlbumArtist => 3,
        ItemKey::Genre => 4,
        ItemKey::TrackNumber => 5,
        ItemKey::DiscNumber => 6,
        ItemKey::Year => 7,
        ItemKey::Mood => 8,
        ItemKey::Composer => 9,
        ItemKey::Comment => 10,
    }
}

/// The key at a position of the field order.
pub open spec fn key_at(i: nat) -> ItemKey {
    if i == 0 {
        ItemKey::Title
    } else if i == 1 {
        ItemKey::Artist
    } else if i == 2 {
        ItemKey::Album
    } else if i == 3 {
        ItemKey::AlbumArtist
    } else if i == 4 {
        ItemKey::Genre
    } else if i == 5 {
        ItemKey::TrackNumber
    } else if i == 6 {
        ItemKey::DiscNumber
    } else if i == 7 {
        ItemKey::Year
    } else if i == 8 {
        ItemKey::Mood
    } else if i == 9 {
        ItemKey::Composer
    } else {
        ItemKey::Comment
    }
}

/// The name under which a key is serialized (camel case).
pub open spec fn key_name_spec(k: ItemKey) -> Seq<char> {
    match k {
        ItemKey::Title => "title"@,
        ItemKey::Artist => "artist"@,
        ItemKey::Album => "album"@,
        ItemKey::AlbumArtist => "albumArtist"@,
        ItemKey::Genre => "genre"@,
        ItemKey::TrackNumber => "trackNumber"@,
        ItemKey::DiscNumber => "discNumber"@,
        ItemKey::Year => "year"@,
        ItemKey::Mood => "mood"@,
        ItemKey::Composer => "composer"@,
        ItemKey::Comment => "comment"@,
    }
}

/// Rank and position agree.
pub proof fn lemma_key_rank_at(k: ItemKey)
    ensures
        key_rank(k) < 11,
        key_at(key_rank(k)) == k,
{
}

impl ItemKey {
    /// Position of the key in the order of the fields.
    pub fn rank(&self) -> (r: usize)
        ensures
            r == key_rank(*self),
            r < ITEM_KEY_COUNT,
    {
        match self {
            ItemKey::Title => 0,
            ItemKey::Artist => 1,
            ItemKey::Album => 2,
            ItemKey::AlbumArtist => 3,
            ItemKey::Genre => 4,
            ItemKey::TrackNumber => 5,
            ItemKey::DiscNumber => 6,
            ItemKey::Year => 7,
            ItemKey::Mood => 8,
            ItemKey::Composer => 9,
            ItemKey::Comment => 10,
        }
    }

    /// The key at position `i` of the field order.
    pub fn from_rank(i: usize) -> (k: ItemKey)
        requires
            i < ITEM_KEY_COUNT,
        ensures
            k == key_at(i as nat),
            key_rank(k) == i,
    {
        if i == 0 {
            ItemKey::Title
        } else if i == 1 {
            ItemKey::Artist
        } else if i == 2 {
            ItemKey::Album
        } else if i == 3 {
            ItemKey::AlbumArtist
        } else if i == 4 {
            ItemKey::Genre
        } else if i == 5 {
            ItemKey::TrackNumber
        } else if i == 6 {
            ItemKey::DiscNumber
        } else if i == 7 {
            ItemKey::Year
        } else if i == 8 {
            ItemKey::Mood
        } else if i == 9 {
            ItemKey::Composer
        } else {
            ItemKey::Comment
        }
    }

    /// The name under which the key is serialized.
    pub fn name(&self) -> (r: &'static str)
        ensures
            r@ == key_name_spec(*self),
    {
        match self {
            ItemKey::Title => "title",
            ItemKey::Artist => "artist",
            ItemKey::Album => "album",
            ItemKey::AlbumArtist => "albumArtist",
            ItemKey::Genre => "genre",
            ItemKey::TrackNumber => "trackNumber",
            ItemKey::DiscNumber => "discNumber",
            ItemKey::Year => "year",
            ItemKey::Mood => "mood",
            ItemKey::Composer => "composer",
            ItemKey::Comment => "comment",
        }
    }
}

/// The view of an optional string.
pub open spec fn opt_view(o: Option<String>) -> Option<Seq<char>> {
    match o {
        Some(s) => Some(s@),
        None => None,
    }
}

/// The value of the last pair with key `k`, if any (later pairs win).
pub open spec fn last_field(items: Seq<(ItemKey, String)>, k: ItemKey) -> Option<Seq<char>>
    decreases items.len(),
{
    if items.len() == 0 {
        None
    } else if items.last().0 == k {
        Some(items.last().1@)
    } else {
        last_field(items.drop_last(), k)
    }
}

/// The value of the last pair with key `k`, if any (later pairs win).
pub open spec fn last_unknown(items: Seq<(String, String)>, k: Seq<char>) -> Option<String>
    decreases items.len(),
{
    if items.len() == 0 {
        None
    } else if items.last().0@ == k {
        Some(items.last().1)
    } else {
        last_unknown(items.drop_last(), k)
    }
}

/// Clones an optional string.
pub fn clone_opt(o: &Option<String>) -> (r: Option<String>)
    ensures
        opt_view(r) == opt_view(*o),
{
    match o {
        Some(s) => Some(s.clone()),
        None => None,
    }
}

/// The tags of a song: the known fields by key, and the fields whose
/// names the library does not know.
#[derive(Debug, Clone, PartialEq, Eq)]
pub struct Metadata {
    fields: Vec<Option<String>>,
    unknown: StrMap<String>,
}

impl Metadata {
    /// The value of a known field.
    pub closed spec fn field(&self, k: ItemKey) -> Option<Seq<char>> {
        opt_view(self.fields@[key_rank(k) as int])
    }

    /// The value of a field the library does not know by name.
    pub closed spec fn unknown(&self, k: Seq<char>) -> Option<String> {
        self.unknown.lookup(k)
    }

    /// The unknown fields, in name order.
    pub closed spec fn unknown_entries(&self) -> Seq<(String, String)> {
        self.unknown.entries_spec()
    }

    /// Internal consistency: one slot per known key, unknown fields sorted.
    pub closed spec fn wf(&self) -> bool {
        &&& self.fields@.len() == ITEM_KEY_COUNT
        &&& self.unknown.wf()
    }

    /// Metadata with no field set.
    pub fn empty() -> (m: Self)
        ensures
            m.wf(),
            forall|k: ItemKey| m.field(k) is None,
            forall|q: Seq<char>| m.unknown(q) is None,
            m.unknown_entries().len() == 0,
    {
        let mut fields: Vec<Option<String>> = Vec::new();
        let mut i: usize = 0;
        while i < ITEM_KEY_COUNT
            invariant
                i <= ITEM_KEY_COUNT,
                fields@.len() == i,
                forall|j: int| 0 <= j < i ==> fields@[j] is None,
            decreases ITEM_KEY_COUNT - i,
        {
            fields.push(None);
            i = i + 1;
        }
        let m = Metadata { fields, unknown: StrMap::new() };
        proof {
            assert forall|k: ItemKey| m.field(k) is None by {
                lemma_key_rank_at(k);
            }
        }
        m
    }

    /// Metadata holding the given known and unknown fields; where a key
    /// comes twice, the later pair wins.
    pub fn new(items: Vec<(ItemKey, String)>, unknown: Vec<(String, String)>) -> (m: Self)
        ensures
            m.wf(),
            forall|k: ItemKey| m.field(k) == last_field(items@, k),
            forall|q: Seq<char>| #[trigger] m.unknown(q) == last_unknown(unknown@, q),
    {
        let mut m = Metadata::empty();
        let mut items = items;
        let ghost all_items = items@;
        let ghost m0 = m;
        // Items are consumed back to front, so the first one applied is the last one given.
        let mut n = items.len();
        while n > 0
            invariant
                m.wf(),
                n == items@.len(),
                items@ == all_items.take(n as int),
                n <= all_items.len(),
                forall|k: ItemKey| m.field(k) == last_field(all_items.skip(n as int), k),
                m.unknown == m0.unknown,
            decreases n,
        {
            let (k, v) = items.pop().unwrap();
            n = n - 1;
            proof {
                assert(all_items.take(n as int) =~= all_items.take(n + 1).drop_last());
            }
            let ghost vv = v@;
            let ghost old_fields = m.fields@;
            let ghost prev = m;
            let r = k.rank();
            if m.fields[r].is_none() {
                m.fields.set(r, Some(v));
            }
            proof {
                let tail = all_items.skip(n as int);
                let rest = all_items.skip(n + 1);
                assert(tail.drop_first() =~= rest);
                assert(tail[0].0 == k);
                assert(tail[0].1@ == vv);
                assert(m.unknown == prev.unknown);
                assert forall|k2: ItemKey| m.field(k2) == last_field(tail, k2) by {
                    lemma_last_field_prepend(tail, k2);
                    lemma_key_rank_at(k2);
                    lemma_key_rank_at(k);
                    assert(prev.field(k2) == last_field(rest, k2));
                    if k2 == k {
                        assert(m.field(k2) == (if prev.field(k2) is None { Some(vv) } else { prev.field(k2) }));
                    } else {
                        assert(key_rank(k2) != key_rank(k));
                        assert(m.fields@[key_rank(k2) as int] == old_fields[key_rank(k2) as int]);
                        assert(m.field(k2) == prev.field(k2));
                    }
                }
            }
        }
        proof {
            assert(all_items.skip(0) =~= all_items);
        }
        let mut unknown = unknown;
        let ghost all_unknown = unknown@;
        let mut u = unknown.len();
        while u > 0
            invariant
                m.wf(),
                u == unknown@.len(),
                unknown@ == all_unknown.take(u as int),
                u <= all_unknown.len(),
                forall|k: ItemKey| m.field(k) == last_field(all_items, k),
                forall|q: Seq<char>| #[trigger] m.unknown(q) == last_unknown(all_unknown.skip(u as int), q),
            decreases u,
        {
            let (k, v) = unknown.pop().unwrap();
            u = u - 1;
            proof {
                assert(all_unknown.take(u as int) =~= all_unknown.take(u + 1).drop_last());
            }
            let ghost kk = k@;
            let ghost vv = v;
            let ghost prev = m;
            if !m.unknown.contains_key(k.as_str()) {
                m.unknown.insert(k, v);
            }
            proof {
                let tail = all_unknown.skip(u as int);
                let rest = all_unknown.skip(u + 1);
                assert(tail.drop_first() =~= rest);
                assert(tail[0].0@ == kk);
                assert(tail[0].1 == vv);
                assert forall|q: Seq<char>| #[trigger] m.unknown(q) == last_unknown(tail, q) by {
                    lemma_last_unknown_prepend(tail, q);
                    assert(prev.unknown(q) == last_unknown(rest, q));
                }
                assert forall|k2: ItemKey| m.field(k2) == last_field(all_items, k2) by {
                    assert(m.fields == prev.fields);
                    assert(prev.field(k2) == last_field(all_items, k2));
                }
            }
        }
        proof {
            assert(all_unknown.skip(0) =~= all_unknown);
        }
        m
    }

    /// Sets a known field.
    pub fn insert(&mut self, key: ItemKey, value: String)
        requires
            old(self).wf(),
        ensures
            final(self).wf(),
            final(self).field(key) == Some(value@),
            forall|k: ItemKey| k != key ==> final(self).field(k) == old(self).field(k),
            forall|q: Seq<char>| final(self).unknown(q) == old(self).unknown(q),
            final(self).unknown_entries() == old(self).unknown_entries(),
    {
        let r = key.rank();
        self.fields.set(r, Some(value));
        proof {
            assert forall|k: ItemKey| k != key implies self.field(k) == old(self).field(k) by {
                lemma_key_rank_at(k);
                lemma_key_rank_at(key);
            }
        }
    }

    /// The value of a known field.
    pub fn get(&self, key: &ItemKey) -> (r: Option<&String>)
        requires
            self.wf(),
        ensures
            match r {
                Some(v) => self.field(*key) == Some(v@),
                None => self.field(*key) is None,
            },
    {
        let i = key.rank();
        self.fields[i].as_ref()
    }

    /// The value of a field the library does not know by name.
    pub fn get_unknown(&self, key: &str) -> (r: Option<&String>)
        requires
            self.wf(),
        ensures
            match r {
                Some(v) => self.unknown(key@) == Some(*v),
                None => self.unknown(key@) is None,
            },
    {
        self.unknown.get(key)
    }

    /// The known fields that are set, in field order.
    pub fn fields(&self) -> (r: Vec<(ItemKey, String)>)
        requires
            self.wf(),
        ensures
            forall|i: int, j: int| 0 <= i < j < r@.len() ==> key_rank(#[trigger] r@[i].0) < key_rank(#[trigger] r@[j].0),
            forall|i: int| 0 <= i < r@.len() ==> self.field(#[trigger] r@[i].0) == Some(r@[i].1@),
            forall|k: ItemKey| self.field(k) is Some ==> exists|i: int| 0 <= i < r@.len() && #[trigger] r@[i].0 == k,
    {
        let mut out: Vec<(ItemKey, String)> = Vec::new();
        let mut i: usize = 0;
        while i < ITEM_KEY_COUNT
            invariant
                self.wf(),
                i <= ITEM_KEY_COUNT,
                forall|a: int, b: int| 0 <= a < b < out@.len() ==> key_rank(#[trigger] out@[a].0) < key_rank(#[trigger] out@[b].0),
                forall|a: int| 0 <= a < out@.len() ==> key_rank(#[trigger] out@[a].0) < i,
                forall|a: int| 0 <= a < out@.len() ==> self.field(#[trigger] out@[a].0) == Some(out@[a].1@),
                forall|k: ItemKey| key_rank(k) < i && self.field(k) is Some ==> exists|a: int| 0 <= a < out@.len() && #[trigger] out@[a].0 == k,
            decreases ITEM_KEY_COUNT - i,
        {
            let k = ItemKey::from_rank(i);
            match &self.fields[i] {
                Some(v) => {
                    let ghost old_out = out@;
                    out.push((k, v.clone()));
                    proof {
                        let n = old_out.len() as int;
                        assert(out@[n].0 == k);
                        assert forall|a: int| 0 <= a < old_out.len() implies out@[a] == old_out[a] by {}
                        assert forall|k2: ItemKey| key_rank(k2) < i + 1 && self.field(k2) is Some implies exists|a: int| 0 <= a < out@.len() && #[trigger] out@[a].0 == k2 by {
                            lemma_key_rank_at(k2);
                            if key_rank(k2) == i {
                                assert(out@[n].0 == k2);
                            } else {
                                let a = choose|a: int| 0 <= a < old_out.len() && #[trigger] old_out[a].0 == k2;
                                assert(out@[a] == old_out[a]);
                            }
                        }
                    }
                },
                None => {
                    proof {
                        assert forall|k2: ItemKey| key_rank(k2) < i + 1 && self.field(k2) is Some implies exists|a: int| 0 <= a < out@.len() && #[trigger] out@[a].0 == k2 by {
                            lemma_key_rank_at(k2);
                        }
                    }
                },
            }
            i = i + 1;
        }
        proof {
            assert forall|k: ItemKey| self.field(k) is Some implies exists|a: int| 0 <= a < out@.len() && #[trigger] out@[a].0 == k by {
                lemma_key_rank_at(k);
            }
        }
        out
    }

    /// Replaces the unknown fields by `entries`, which are in name order.
    pub fn set_unknown_entries(&mut self, entries: Vec<(String, String)>)
        requires
            old(self).wf(),
            keys_sorted(entries@),
        ensures
            final(self).wf(),
            final(self).unknown_entries() == entries@,
            forall|q: Seq<char>| #[trigger] final(self).unknown(q) == seq_lookup(entries@, q),
            forall|k: ItemKey| final(self).field(k) == old(self).field(k),
    {
        self.unknown = StrMap::from_sorted(entries);
    }

    /// The known fields that are set, as (serialized name, value) pairs in
    /// field order.
    pub fn field_pairs(&self) -> (r: Vec<(String, String)>)
        requires
            self.wf(),
        ensures
            r@.map_values(|p: (String, String)| (p.0@, p.1@)) == field_pairs_upto(*self, 11),
    {
        let mut out: Vec<(String, String)> = Vec::new();
        let mut i: usize = 0;
        while i < ITEM_KEY_COUNT
            invariant
                self.wf(),
                i <= ITEM_KEY_COUNT,
                out@.map_values(|p: (String, String)| (p.0@, p.1@)) == field_pairs_upto(*self, i as nat),
            decreases ITEM_KEY_COUNT - i,
        {
            let k = ItemKey::from_rank(i);
            let ghost before = out@.map_values(|p: (String, String)| (p.0@, p.1@));
            match &self.fields[i] {
                Some(v) => {
                    out.push((String::from_str(k.name()), v.clone()));
                    assert(out@.map_values(|p: (String, String)| (p.0@, p.1@)) =~= before.push((key_name_spec(k), v@)));
                },
                None => {},
            }
            i = i + 1;
        }
        out
    }

    /// Whether two sets of tags are the same: the same known fields and the
    /// same unknown fields.
    pub fn same_as(&self, other: &Metadata) -> (r: bool)
        requires
            self.wf(),
            other.wf(),
        ensures
            r == ((forall|k: ItemKey| #[trigger] self.field(k) == other.field(k))
                && entry_views(self.unknown_entries()) == entry_views(other.unknown_entries())),
    {
        let mut i: usize = 0;
        while i < ITEM_KEY_COUNT
            invariant
                self.wf(),
                other.wf(),
                i <= ITEM_KEY_COUNT,
                forall|j: int| 0 <= j < i ==> opt_view(self.fields@[j]) == opt_view(other.fields@[j]),
            decreases ITEM_KEY_COUNT - i,
        {
            let same = match (&self.fields[i], &other.fields[i]) {
                (Some(a), Some(b)) => str_eq(a.as_str(), b.as_str()),
                (None, None) => true,
                _ => false,
            };
            if !same {
                proof {
                    let k = key_at(i as nat);
                    lemma_key_rank_at(k);
                    assert(self.field(k) != other.field(k));
                }
                return false;
            }
            i = i + 1;
        }
        proof {
            assert forall|k: ItemKey| #[trigger] self.field(k) == other.field(k) by {
                lemma_key_rank_at(k);
            }
        }
        let a = self.unknown.entries();
        let b = other.unknown.entries();
        if a.len() != b.len() {
            proof {
                assert(entry_views(a@).len() != entry_views(b@).len());
            }
            return false;
        }
        let mut j: usize = 0;
        while j < a.len()
            invariant
                j <= a@.len(),
                a@.len() == b@.len(),
                a@ == self.unknown_entries(),
                b@ == other.unknown_entries(),
                forall|x: int| 0 <= x < j ==> a@[x].0@ == b@[x].0@ && a@[x].1@ == b@[x].1@,
            decreases a.len() - j,
        {
            if !str_eq(a[j].0.as_str(), b[j].0.as_str()) || !str_eq(a[j].1.as_str(), b[j].1.as_str()) {
                proof {
                    assert(entry_views(a@)[j as int] != entry_views(b@)[j as int]);
                }
                return false;
            }
            j = j + 1;
        }
        proof {
            assert(entry_views(a@) =~= entry_views(b@));
        }
        true
    }

    /// The fields the library does not know by name, in name order.
    pub fn unknown_fields(&self) -> (r: &Vec<(String, String)>)
        ensures
            r@ == self.unknown_entries(),
    {
        self.unknown.entries()
    }
}

/// The views of name and value pairs.
pub open spec fn entry_views(s: Seq<(String, String)>) -> Seq<(Seq<char>, Seq<char>)> {
    s.map_values(|p: (String, String)| (p.0@, p.1@))
}

/// Why a list of tracks does not make an album.
#[derive(Debug, Clone, Copy, PartialEq, Eq, Structural)]
pub enum AlbumError {
    NoAlbum,
    NoTracks,
    MixedTracks,
}

/// Why the tags of a song could not be read.
#[derive(Debug, Clone, Copy, PartialEq, Eq, Structural)]
pub enum SongError {
    NoTag,
}

/// Errors of the metadata layer; the last three carry the message of an
/// I/O, number parsing or tag reading failure.
#[derive(Debug, Clone, PartialEq, Eq)]
pub enum Error {
    Album(AlbumError),
    Song(SongError),
    Io(String),
    Parse(String),
    Lofty(String),
}

/// The message of an album error.
pub open spec fn album_error_message(e: AlbumError) -> Seq<char> {
    match e {
        AlbumError::NoAlbum => "No album found"@,
        AlbumError::NoTracks => "No tracks found"@,
        AlbumError::MixedTracks => "All tracks must be from the same album"@,
    }
}

/// The message of a metadata error: that of the album or song error it
/// wraps, or the message of the failure it carries.
pub open spec fn metadata_error_message(e: Error) -> Seq<char> {
    match e {
        Error::Album(a) => album_error_message(a),
        Error::Song(SongError::NoTag) => "No Tag(s) found"@,
        Error::Io(m) => m@,
        Error::Parse(m) => m@,
        Error::Lofty(m) => m@,
    }
}

impl AlbumError {
    /// The human readable message of the error.
    pub fn message(&self) -> (r: String)
        ensures
            r@ == album_error_message(*self),
    {
        match self {
            AlbumError::NoAlbum => String::from_str("No album found"),
            AlbumError::NoTracks => String::from_str("No tracks found"),
            AlbumError::MixedTracks => String::from_str("All tracks must be from the same album"),
        }
    }
}

impl Error {
    /// The human readable message of the error.
    pub fn message(&self) -> (r: String)
        ensures
            r@ == metadata_error_message(*self),
    {
        match self {
            Error::Album(a) => a.message(),
            Error::Song(SongError::NoTag) => String::from_str("No Tag(s) found"),
            Error::Io(m) => m.clone(),
            Error::Parse(m) => m.clone(),
            Error::Lofty(m) => m.clone(),
        }
    }
}

/// An album assembled from the metadata of its tracks.
#[derive(Debug, Clone)]
pub struct Album {
    pub title: String,
    pub tracks: Vec<Metadata>,
    pub barcode: Option<String>,
    pub catalog_number: Option<String>,
    pub comment: Option<String>,
    pub country: Option<String>,
    pub artist: Option<String>,
    pub label: Option<String>,
    pub date: Option<String>,
    pub original_date: Option<String>,
}

/// Every track after the first has the album of the first.
pub open spec fn same_album(tracks: Seq<Metadata>) -> bool {
    forall|i: int| 1 <= i < tracks.len() ==> #[trigger] tracks[i].field(ItemKey::Album) == tracks[0].field(ItemKey::Album)
}

impl Album {
    /// Builds the album of `tracks`: the first track names the album and its
    /// artist, and every other track must name the same album.
    pub fn try_from(tracks: Vec<Metadata>) -> (r: Result<Album, Error>)
        requires
            forall|i: int| 0 <= i < tracks@.len() ==> #[trigger] tracks@[i].wf(),
        ensures
            tracks@.len() == 0 ==> r == Err::<Album, Error>(Error::Album(AlbumError::NoTracks)),
            tracks@.len() > 0 && tracks@[0].field(ItemKey::Album) is None ==> r == Err::<Album, Error>(Error::Album(AlbumError::NoAlbum)),
            tracks@.len() > 0 && tracks@[0].field(ItemKey::Album) is Some && !same_album(tracks@)
                ==> r == Err::<Album, Error>(Error::Album(AlbumError::MixedTracks)),
            r is Ok <==> (tracks@.len() > 0 && tracks@[0].field(ItemKey::Album) is Some && same_album(tracks@)),
            r matches Ok(a) ==> {
                &&& Some(a.title@) == tracks@[0].field(ItemKey::Album)
                &&& opt_view(a.artist) == tracks@[0].field(ItemKey::AlbumArtist)
                &&& a.tracks@ == tracks@
                &&& a.barcode is None && a.catalog_number is None && a.comment is None
                &&& a.country is None && a.label is None && a.date is None && a.original_date is None
            },
    {
        if tracks.len() == 0 {
            return Err(Error::Album(AlbumError::NoTracks));
        }
        let title = match tracks[0].get(&ItemKey::Album) {
            Some(t) => t.clone(),
            None => return Err(Error::Album(AlbumError::NoAlbum)),
        };
        let mut i: usize = 1;
        while i < tracks.len()
            invariant
                1 <= i <= tracks@.len(),
                tracks@[0].field(ItemKey::Album) is Some,
                forall|j: int| 0 <= j < tracks@.len() ==> #[trigger] tracks@[j].wf(),
                forall|j: int| 1 <= j < i ==> #[trigger] tracks@[j].field(ItemKey::Album) == tracks@[0].field(ItemKey::Album),
            decreases tracks.len() - i,
        {
            let same = match (tracks[i].get(&ItemKey::Album), tracks[0].get(&ItemKey::Album)) {
                (Some(a), Some(b)) => str_eq(a.as_str(), b.as_str()),
                (None, None) => true,
                _ => false,
            };
            if !same {
                return Err(Error::Album(AlbumError::MixedTracks));
            }
            i = i + 1;
        }
        let artist = match tracks[0].get(&ItemKey::AlbumArtist) {
            Some(a) => Some(a.clone()),
            None => None,
        };
        Ok(Album {
            title,
            tracks,
            barcode: None,
            catalog_number: None,
            comment: None,
            country: None,
            artist,
            label: None,
            date: None,
            original_date: None,
        })
    }
}

/// Which cover a picture shows.
#[non_exhaustive]
#[derive(Debug, Clone, Copy, PartialEq, Eq, Structural)]
pub enum CoverArtType {
    Front,
    Back,
    Other,
}

impl CoverArtType {
    /// Parses a cover type name, case-insensitively.
    pub fn try_from(value: &str) -> (r: Result<CoverArtType, String>)
        ensures
            spec_to_lowercase(value@) == "front"@ <==> r == Ok::<CoverArtType, String>(CoverArtType::Front),
            spec_to_lowercase(value@) == "back"@ <==> r == Ok::<CoverArtType, String>(CoverArtType::Back),
            spec_to_lowercase(value@) == "other"@ <==> r == Ok::<CoverArtType, String>(CoverArtType::Other),
            r matches Err(m) ==> m@ == "Invalid cover art type: "@ + value@,
    {
        let lower = str_to_lowercase(value);
        proof {
            reveal_strlit("front");
            reveal_strlit("back");
            reveal_strlit("other");
            assert("front"@.len() == 5 && "back"@.len() == 4 && "other"@.len() == 5);
            assert("front"@[0] != "other"@[0]);
            assert("front"@ != "back"@ && "front"@ != "other"@ && "back"@ != "other"@);
        }
        if str_eq(lower.as_str(), "front") {
            Ok(CoverArtType::Front)
        } else if str_eq(lower.as_str(), "back") {
            Ok(CoverArtType::Back)
        } else if str_eq(lower.as_str(), "other") {
            Ok(CoverArtType::Other)
        } else {
            let mut m = String::from_str("Invalid cover art type: ");
            m.append(value);
            Err(m)
        }
    }
}

/// The kind of a picture embedded in a tag, as far as cover art cares.
#[derive(Debug, Clone, Copy, PartialEq, Eq, Structural)]
pub enum PictureRole {
    /// The front cover.
    CoverFront,
    /// The back cover.
    CoverBack,
    /// A picture marked as "other".
    Other,
    /// Any other kind of picture (artist, leaflet, ...).
    Misc,
}

/// A picture read from a tag.
#[derive(Debug, Clone)]
pub struct Picture {
    pub role: PictureRole,
    pub mime_type: String,
    pub data: Vec<u8>,
}

/// A cover image of a song.
#[derive(Debug, Clone)]
pub struct CoverArt {
    pub cover_type: CoverArtType,
    pub mime_type: String,
    pub data: Vec<u8>,
}

/// The cover type a picture kind stands for.
pub open spec fn cover_type_of(role: PictureRole) -> CoverArtType {
    match role {
        PictureRole::CoverFront => CoverArtType::Front,
        PictureRole::CoverBack => CoverArtType::Back,
        _ => CoverArtType::Other,
    }
}

/// The cover type a picture kind stands for.
pub fn cover_type_from_role(role: PictureRole) -> (t: CoverArtType)
    ensures
        t == cover_type_of(role),
{
    match role {
        PictureRole::CoverFront => CoverArtType::Front,
        PictureRole::CoverBack => CoverArtType::Back,
        _ => CoverArtType::Other,
    }
}

/// A cover made from a picture.
pub open spec fn cover_of(p: Picture, t: CoverArtType) -> (CoverArtType, Seq<char>, Seq<u8>) {
    (t, p.mime_type@, p.data@)
}

/// The view of a cover.
pub open spec fn cover_view(c: CoverArt) -> (CoverArtType, Seq<char>, Seq<u8>) {
    (c.cover_type, c.mime_type@, c.data@)
}

/// The covers found among the pictures of a tag: MP4 tags give the first
/// picture as the front cover and the others as "other"; with several
/// pictures each keeps its own kind; a lone picture counts only when it is
/// a front cover or marked "other", and then as the front cover.
pub open spec fn select_cover_art_spec(tag_type: TagType, pictures: Seq<Picture>) -> Seq<(CoverArtType, Seq<char>, Seq<u8>)> {
    if pictures.len() == 0 {
        seq![]
    } else if tag_type == TagType::Mp4Ilst {
        Seq::new(pictures.len(), |i: int| cover_of(pictures[i], if i == 0 { CoverArtType::Front } else { CoverArtType::Other }))
    } else if pictures.len() > 1 {
        Seq::new(pictures.len(), |i: int| cover_of(pictures[i], cover_type_of(pictures[i].role)))
    } else if pictures[0].role == PictureRole::CoverFront || pictures[0].role == PictureRole::Other {
        seq![cover_of(pictures[0], CoverArtType::Front)]
    } else {
        seq![]
    }
}

/// Chooses the cover art among the pictures of a tag.
pub fn select_cover_art(tag_type: TagType, pictures: &Vec<Picture>) -> (r: Vec<CoverArt>)
    ensures
        r@.map_values(|c: CoverArt| cover_view(c)) == select_cover_art_spec(tag_type, pictures@),
{
    let mut out: Vec<CoverArt> = Vec::new();
    let n = pictures.len();
    if n == 0 {
        proof {
            assert(out@.map_values(|c: CoverArt| cover_view(c)) =~= select_cover_art_spec(tag_type, pictures@));
        }
        return out;
    }
    if n == 1 && tag_type != TagType::Mp4Ilst {
        let p = &pictures[0];
        if p.role == PictureRole::CoverFront || p.role == PictureRole::Other {
            out.push(CoverArt { cover_type: CoverArtType::Front, mime_type: p.mime_type.clone(), data: p.data.clone() });
        }
        proof {
            assert(out@.map_values(|c: CoverArt| cover_view(c)) =~= select_cover_art_spec(tag_type, pictures@));
        }
        return out;
    }
    let ghost target = select_cover_art_spec(tag_type, pictures@);
    let mut i: usize = 0;
    while i < n
        invariant
            n == pictures@.len(),
            n > 0,
            n > 1 || tag_type == TagType::Mp4Ilst,
            target == select_cover_art_spec(tag_type, pictures@),
            target.len() == n,
            i <= n,
            out@.len() == i,
            forall|j: int| 0 <= j < i ==> cover_view(#[trigger] out@[j]) == target[j],
        decreases n - i,
    {
        let p = &pictures[i];
        let t = if tag_type == TagType::Mp4Ilst {
            if i == 0 { CoverArtType::Front } else { CoverArtType::Other }
        } else {
            cover_type_from_role(p.role)
        };
        out.push(CoverArt { cover_type: t, mime_type: p.mime_type.clone(), data: p.data.clone() });
        i = i + 1;
    }
    proof {
        assert(out@.map_values(|c: CoverArt| cover_view(c)) =~= target);
    }
    out
}

/// The unknown fields of well formed metadata are in name order.
pub proof fn lemma_unknown_sorted(m: Metadata)
    requires
        m.wf(),
    ensures
        keys_sorted(m.unknown_entries()),
{
}

/// The unknown field lookup of metadata is the lookup in its entries.
pub proof fn lemma_unknown_lookup(m: Metadata, q: Seq<char>)
    ensures
        m.unknown(q) == seq_lookup(m.unknown_entries(), q),
{
}

/// The set known fields among the first `n` of the field order, as
/// (serialized name, value) pairs.
pub open spec fn field_pairs_upto(m: Metadata, n: nat) -> Seq<(Seq<char>, Seq<char>)>
    decreases n,
{
    if n == 0 {
        seq![]
    } else {
        let k = key_at((n - 1) as nat);
        let rest = field_pairs_upto(m, (n - 1) as nat);
        match m.field(k) {
            Some(v) => rest.push((key_name_spec(k), v)),
            None => rest,
        }
    }
}

/// Prepending a pair to a list: the last pair with a key is the same
/// unless the key only appears in the new first pair.
pub proof fn lemma_last_field_prepend(s: Seq<(ItemKey, String)>, k: ItemKey)
    requires
        s.len() > 0,
    ensures
        last_field(s, k) == (if last_field(s.drop_first(), k) is Some {
            last_field(s.drop_first(), k)
        } else if s[0].0 == k {
            Some(s[0].1@)
        } else {
            None
        }),
    decreases s.len(),
{
    let d = s.drop_first();
    let t = s.drop_last();
    if s.len() > 1 {
        assert(t.drop_first() =~= d.drop_last());
        assert(d.last() == s.last());
        assert(t[0] == s[0]);
        lemma_last_field_prepend(t, k);
        assert(last_field(s, k) == (if s.last().0 == k { Some(s.last().1@) } else { last_field(t, k) }));
        assert(last_field(d, k) == (if d.last().0 == k { Some(d.last().1@) } else { last_field(d.drop_last(), k) }));
    } else {
        assert(d.len() == 0);
        assert(t.len() == 0);
        assert(s.last() == s[0]);
        assert(last_field(d, k) is None);
        assert(last_field(t, k) is None);
        assert(last_field(s, k) == (if s.last().0 == k { Some(s.last().1@) } else { last_field(t, k) }));
    }
}

/// Prepending a pair to a list: the last pair with a key is the same
/// unless the key only appears in the new first pair.
pub proof fn lemma_last_unknown_prepend(s: Seq<(String, String)>, k: Seq<char>)
    requires
        s.len() > 0,
    ensures
        last_unknown(s, k) == (if last_unknown(s.drop_first(), k) is Some {
            last_unknown(s.drop_first(), k)
        } else if s[0].0@ == k {
            Some(s[0].1)
        } else {
            None
        }),
    decreases s.len(),
{
    let d = s.drop_first();
    let t = s.drop_last();
    if s.len() > 1 {
        assert(t.drop_first() =~= d.drop_last());
        assert(d.last() == s.last());
        assert(t[0] == s[0]);
        lemma_last_unknown_prepend(t, k);
        assert(last_unknown(s, k) == (if s.last().0@ == k { Some(s.last().1) } else { last_unknown(t, k) }));
        assert(last_unknown(d, k) == (if d.last().0@ == k { Some(d.last().1) } else { last_unknown(d.drop_last(), k) }));
    } else {
        assert(d.len() == 0);
        assert(t.len() == 0);
        assert(s.last() == s[0]);
        assert(last_unknown(d, k) is None);
        assert(last_unknown(t, k) is None);
        assert(last_unknown(s, k) == (if s.last().0@ == k { Some(s.last().1) } else { last_unknown(t, k) }));
    }
}

/// The text stored for the values of a tag field: each sanitized, joined
/// with `"; "`.
pub open spec fn tag_text(values: Seq<String>) -> Seq<char> {
    join_spec(values.map_values(|v: String| sanitize_tag_spec(v@)), "; "@)
}

/// The text of the last entry for key `k`, if any.
pub open spec fn last_tag_text(items: Seq<(ItemKey, Vec<String>)>, k: ItemKey) -> Option<Seq<char>>
    decreases items.len(),
{
    if items.len() == 0 {
        None
    } else if items.last().0 == k {
        Some(tag_text(items.last().1@))
    } else {
        last_tag_text(items.drop_last(), k)
    }
}

/// The text of the last entry named `k`, if any.
pub open spec fn last_unknown_text(items: Seq<(String, Vec<String>)>, k: Seq<char>) -> Option<Seq<char>>
    decreases items.len(),
{
    if items.len() == 0 {
        None
    } else if items.last().0@ == k {
        Some(tag_text(items.last().1@))
    } else {
        last_unknown_text(items.drop_last(), k)
    }
}

/// Pairs whose texts are those of the value lists give the same last text.
proof fn lemma_last_text(items: Seq<(ItemKey, String)>, raw: Seq<(ItemKey, Vec<String>)>, k: ItemKey)
    requires
        items.len() == raw.len(),
        forall|i: int| #![trigger items[i]] 0 <= i < items.len() ==> items[i].0 == raw[i].0 && items[i].1@ == tag_text(raw[i].1@),
    ensures
        last_field(items, k) == last_tag_text(raw, k),
    decreases items.len(),
{
    if items.len() > 0 {
        assert forall|i: int| #![trigger items.drop_last()[i]] 0 <= i < items.len() - 1 implies
            items.drop_last()[i].0 == raw.drop_last()[i].0 && items.drop_last()[i].1@ == tag_text(raw.drop_last()[i].1@) by {
            assert(items.drop_last()[i] == items[i]);
            assert(raw.drop_last()[i] == raw[i]);
        }
        lemma_last_text(items.drop_last(), raw.drop_last(), k);
        assert(items.last() == items[items.len() - 1]);
    }
}

/// Pairs whose texts are those of the value lists give the same last text.
proof fn lemma_last_unknown_text(items: Seq<(String, String)>, raw: Seq<(String, Vec<String>)>, k: Seq<char>)
    requires
        items.len() == raw.len(),
        forall|i: int| #![trigger items[i]] 0 <= i < items.len() ==> items[i].0@ == raw[i].0@ && items[i].1@ == tag_text(raw[i].1@),
    ensures
        opt_view(last_unknown(items, k)) == last_unknown_text(raw, k),
    decreases items.len(),
{
    if items.len() > 0 {
        assert forall|i: int| #![trigger items.drop_last()[i]] 0 <= i < items.len() - 1 implies
            items.drop_last()[i].0@ == raw.drop_last()[i].0@ && items.drop_last()[i].1@ == tag_text(raw.drop_last()[i].1@) by {
            assert(items.drop_last()[i] == items[i]);
            assert(raw.drop_last()[i] == raw[i]);
        }
        lemma_last_unknown_text(items.drop_last(), raw.drop_last(), k);
        assert(items.last() == items[items.len() - 1]);
    }
}

impl Metadata {
    /// The tags read from a file: for each field, every value it holds,
    /// sanitized and joined with `"; "`; fields known by name and the
    /// others apart.
    pub fn from_tag_values(known: Vec<(ItemKey, Vec<String>)>, unknown: Vec<(String, Vec<String>)>) -> (m: Metadata)
        ensures
            m.wf(),
            forall|k: ItemKey| #[trigger] m.field(k) == last_tag_text(known@, k),
            forall|q: Seq<char>| #[trigger] opt_view(m.unknown(q)) == last_unknown_text(unknown@, q),
    {
        let mut items: Vec<(ItemKey, String)> = Vec::new();
        let mut i: usize = 0;
        while i < known.len()
            invariant
                i <= known@.len(),
                items@.len() == i,
                forall|j: int| #![trigger items@[j]] 0 <= j < i ==> items@[j].0 == known@[j].0 && items@[j].1@ == tag_text(known@[j].1@),
            decreases known.len() - i,
        {
            items.push((known[i].0, join_tag_values(&known[i].1)));
            i = i + 1;
        }
        let mut others: Vec<(String, String)> = Vec::new();
        let mut j: usize = 0;
        while j < unknown.len()
            invariant
                j <= unknown@.len(),
                others@.len() == j,
                forall|x: int| #![trigger others@[x]] 0 <= x < j ==> others@[x].0@ == unknown@[x].0@ && others@[x].1@ == tag_text(unknown@[x].1@),
            decreases unknown.len() - j,
        {
            others.push((unknown[j].0.clone(), join_tag_values(&unknown[j].1)));
            j = j + 1;
        }
        let ghost items_view = items@;
        let ghost others_view = others@;
        let m = Metadata::new(items, others);
        proof {
            assert forall|k: ItemKey| #[trigger] m.field(k) == last_tag_text(known@, k) by {
                lemma_last_text(items_view, known@, k);
            }
            assert forall|q: Seq<char>| #[trigger] opt_view(m.unknown(q)) == last_unknown_text(unknown@, q) by {
                lemma_last_unknown_text(others_view, unknown@, q);
            }
        }
        m
    }
}

/// The kind of a song file (the file types of `lofty::file::FileType`).
#[non_exhaustive]
#[derive(Debug, Clone, Copy, PartialEq, Eq, Structural)]
pub enum SongFileType {
    Aac,
    Aiff,
    Ape,
    Flac,
    Mpeg,
    Mp4,
    Mpc,
    Opus,
    Vorbis,
    Speex,
    Wav,
    WavPack,
    Unknown,
}

/// A song file as read from disk; times are Unix timestamps in
/// nanoseconds.
#[derive(Debug, Clone)]
pub struct SongFile {
    path: String,
    tag_type: TagType,
    file_type: SongFileType,
    created: i128,
    last_modified: i128,
    size: u64,
    metadata: Option<Metadata>,
}

impl SongFile {
    /// The path of the file.
    pub closed spec fn path_spec(&self) -> String {
        self.path
    }

    /// The tags of the file, if it has any.
    pub closed spec fn metadata_spec(&self) -> Option<Metadata> {
        self.metadata
    }

    /// The tag format of the file.
    pub closed spec fn tag_type_spec(&self) -> TagType {
        self.tag_type
    }

    /// A song file with what was read of it.
    pub fn new(path: String, tag_type: TagType, file_type: SongFileType, created: i128, last_modified: i128, size: u64,
        metadata: Option<Metadata>) -> (f: SongFile)
        ensures
            f.path_spec() == path,
            f.tag_type_spec() == tag_type,
            f.metadata_spec() == metadata,
            f.file_type_spec() == file_type,
            f.created_spec() == created,
            f.last_modified_spec() == last_modified,
            f.size_spec() == size,
    {
        SongFile { path, tag_type, file_type, created, last_modified, size, metadata }
    }

    /// The path of the file.
    pub fn path(&self) -> (r: &String)
        ensures
            *r == self.path_spec(),
    {
        &self.path
    }

    /// The tags of the file, if it has any.
    pub fn metadata(&self) -> (r: &Option<Metadata>)
        ensures
            *r == self.metadata_spec(),
    {
        &self.metadata
    }

    /// Forgets the tags.
    pub fn remove_metadata(&mut self)
        ensures
            final(self).metadata_spec() is None,
            final(self).tag_type_spec() == old(self).tag_type_spec(),
            final(self).same_file(*old(self)),
    {
        self.metadata = None;
    }

    /// Replaces the tags.
    pub fn set_metadata(&mut self, metadata: Metadata)
        ensures
            final(self).metadata_spec() == Some(metadata),
            final(self).tag_type_spec() == old(self).tag_type_spec(),
            final(self).same_file(*old(self)),
    {
        self.metadata = Some(metadata);
    }

    /// The tags of the file, to change in place.
    pub fn metadata_mut(&mut self) -> (r: &mut Option<Metadata>)
        ensures
            *r == old(self).metadata_spec(),
            final(self).metadata_spec() == *final(r),
            final(self).tag_type_spec() == old(self).tag_type_spec(),
            final(self).same_file(*old(self)),
    {
        &mut self.metadata
    }

    /// The tag format of the file, to change in place.
    pub fn tag_type_mut(&mut self) -> (r: &mut TagType)
        ensures
            *r == old(self).tag_type_spec(),
            final(self).tag_type_spec() == *final(r),
            final(self).metadata_spec() == old(self).metadata_spec(),
            final(self).same_file(*old(self)),
    {
        &mut self.tag_type
    }

    /// Whether two values describe the same file: the same path, kind,
    /// times and size.
    pub open spec fn same_file(&self, other: SongFile) -> bool {
        &&& self.path_spec() == other.path_spec()
        &&& self.file_type_spec() == other.file_type_spec()
        &&& self.created_spec() == other.created_spec()
        &&& self.last_modified_spec() == other.last_modified_spec()
        &&& self.size_spec() == other.size_spec()
    }

    /// The tag format of the file.
    pub fn tag_type(&self) -> (t: TagType)
        ensures
            t == self.tag_type_spec(),
    {
        self.tag_type
    }

    /// The kind of file.
    pub fn file_type(&self) -> (t: SongFileType)
        ensures
            t == self.file_type_spec(),
    {
        self.file_type
    }

    /// The size of the file in bytes.
    pub fn size(&self) -> (n: u64)
        ensures
            n == self.size_spec(),
    {
        self.size
    }

    /// When the file was last modified.
    pub fn last_modified(&self) -> (t: i128)
        ensures
            t == self.last_modified_spec(),
    {
        self.last_modified
    }

    /// When the file was created.
    pub fn created(&self) -> (t: i128)
        ensures
            t == self.created_spec(),
    {
        self.created
    }

    /// The kind of file.
    pub closed spec fn file_type_spec(&self) -> SongFileType {
        self.file_type
    }

    /// The size in bytes.
    pub closed spec fn size_spec(&self) -> u64 {
        self.size
    }

    /// When the file was last modified.
    pub closed spec fn last_modified_spec(&self) -> i128 {
        self.last_modified
    }

    /// When the file was created.
    pub closed spec fn created_spec(&self) -> i128 {
        self.created
    }
}

/// The covers chosen among the pictures of a tag keep each picture's type
/// and data: a lone front cover or "other" picture of a tag that is not
/// MP4 is the front cover and a lone picture of another kind gives none;
/// with several pictures each gives a cover, front for a front cover, back
/// for a back cover and "other" otherwise; an MP4 tag gives its first
/// picture as the front cover and the rest as "other".
pub proof fn law_cover_art_selection(tag_type: TagType, pictures: Seq<Picture>)
    ensures
        pictures.len() == 0 ==> select_cover_art_spec(tag_type, pictures).len() == 0,
        pictures.len() == 1 && tag_type != TagType::Mp4Ilst
            && (pictures[0].role == PictureRole::CoverFront || pictures[0].role == PictureRole::Other)
            ==> select_cover_art_spec(tag_type, pictures)
                == seq![(CoverArtType::Front, pictures[0].mime_type@, pictures[0].data@)],
        pictures.len() == 1 && tag_type != TagType::Mp4Ilst
            && pictures[0].role != PictureRole::CoverFront && pictures[0].role != PictureRole::Other
            ==> select_cover_art_spec(tag_type, pictures).len() == 0,
        pictures.len() > 1 || tag_type == TagType::Mp4Ilst ==> {
            let r = select_cover_art_spec(tag_type, pictures);
            &&& r.len() == pictures.len()
            &&& forall|i: int| 0 <= i < r.len() ==> (#[trigger] r[i]).1 == pictures[i].mime_type@ && r[i].2 == pictures[i].data@
            &&& tag_type == TagType::Mp4Ilst ==> forall|i: int| 0 <= i < r.len()
                ==> ((#[trigger] r[i]).0 == CoverArtType::Front <==> i == 0) && (i != 0 ==> r[i].0 == CoverArtType::Other)
            &&& tag_type != TagType::Mp4Ilst ==> forall|i: int| 0 <= i < r.len() ==> {
                &&& ((#[trigger] r[i]).0 == CoverArtType::Front <==> pictures[i].role == PictureRole::CoverFront)
                &&& (r[i].0 == CoverArtType::Back <==> pictures[i].role == PictureRole::CoverBack)
                &&& (r[i].0 == CoverArtType::Other <==> pictures[i].role != PictureRole::CoverFront
                    && pictures[i].role != PictureRole::CoverBack)
            }
        },
{
}

} // verus!
