//! Decisions of the database migrations: which migrations to apply, which
//! have logic to run afterwards, and the data the data-moving migrations
//! compute.

use vstd::prelude::*;
use crate::db::is_prefix;
use crate::metadata::opt_view;
use crate::strmap::{StrMap, str_eq, str_lt};
use crate::db::str_starts_with;

verus! {

/// Why the migrations cannot run.
#[derive(Debug, Clone, Copy, PartialEq, Eq, Structural)]
pub enum MigrationError {
    /// A migration of this version was left half applied.
    Dirty(i64),
    /// A migration of this version was applied but is not known.
    VersionMissing(i64),
    /// A migration of this version was applied with other contents.
    VersionMismatch(i64),
}

/// Every applied migration must be known, unless missing ones are
/// ignored; otherwise the first applied version that is not known is
/// reported.
pub fn validate_applied_migrations(applied: &Vec<i64>, known: &Vec<i64>, ignore_missing: bool)
    -> (r: Result<(), MigrationError>)
    ensures
        ignore_missing ==> r == Ok::<(), MigrationError>(()),
        !ignore_missing ==> match r {
            Ok(()) => forall|i: int| 0 <= i < applied@.len() ==> known@.contains(#[trigger] applied@[i]),
            Err(e) => exists|i: int| 0 <= i < applied@.len() && e == MigrationError::VersionMissing(#[trigger] applied@[i])
                && !known@.contains(applied@[i])
                && forall|j: int| 0 <= j < i ==> known@.contains(#[trigger] applied@[j]),
        },
{
    if ignore_missing {
        return Ok(());
    }
    let mut i: usize = 0;
    while i < applied.len()
        invariant
            i <= applied@.len(),
            !ignore_missing,
            forall|j: int| 0 <= j < i ==> known@.contains(#[trigger] applied@[j]),
        decreases applied.len() - i,
    {
        let v = applied[i];
        let mut found = false;
        let mut k: usize = 0;
        while k < known.len() && !found
            invariant
                k <= known@.len(),
                found ==> known@.contains(v),
                !found ==> forall|x: int| 0 <= x < k ==> known@[x] != v,
            decreases known.len() - k,
        {
            if known[k] == v {
                assert(known@[k as int] == v);
                found = true;
            }
            k = k + 1;
        }
        if !found {
            assert(!known@.contains(v));
            assert(MigrationError::VersionMissing(v) == MigrationError::VersionMissing(applied@[i as int]));
            return Err(MigrationError::VersionMissing(v));
        }
        i = i + 1;
    }
    Ok(())
}

/// What to do with a known migration.
#[derive(Debug, Clone, Copy, PartialEq, Eq, Structural)]
pub enum MigrationStep {
    /// A down migration, or one already applied with the same contents.
    Skip,
    /// Applied before with other contents: the run fails.
    Mismatch(i64),
    /// Not applied yet.
    Apply,
}

/// The checksum recorded for `version` among the applied migrations; the
/// last record of a version counts.
pub open spec fn applied_checksum(applied: Seq<(i64, Vec<u8>)>, version: i64) -> Option<Seq<u8>>
    decreases applied.len(),
{
    if applied.len() == 0 {
        None
    } else if applied.last().0 == version {
        Some(applied.last().1@)
    } else {
        applied_checksum(applied.drop_last(), version)
    }
}

/// What to do with the known migration `version` of checksum `checksum`.
pub open spec fn migration_step_spec(version: i64, checksum: Seq<u8>, is_down: bool, applied: Seq<(i64, Vec<u8>)>) -> MigrationStep {
    if is_down {
        MigrationStep::Skip
    } else {
        match applied_checksum(applied, version) {
            Some(c) => if c == checksum { MigrationStep::Skip } else { MigrationStep::Mismatch(version) },
            None => MigrationStep::Apply,
        }
    }
}

/// Whether two byte strings are equal.
fn bytes_eq(a: &Vec<u8>, b: &Vec<u8>) -> (r: bool)
    ensures
        r == (a@ == b@),
{
    if a.len() != b.len() {
        return false;
    }
    let mut i: usize = 0;
    while i < a.len()
        invariant
            i <= a@.len(),
            a@.len() == b@.len(),
            forall|j: int| 0 <= j < i ==> a@[j] == b@[j],
        decreases a.len() - i,
    {
        if a[i] != b[i] {
            return false;
        }
        i = i + 1;
    }
    assert(a@ =~= b@);
    true
}

/// Decides what to do with a known migration, given the applied ones.
pub fn migration_step(version: i64, checksum: &Vec<u8>, is_down: bool, applied: &Vec<(i64, Vec<u8>)>) -> (s: MigrationStep)
    ensures
        s == migration_step_spec(version, checksum@, is_down, applied@),
{
    if is_down {
        return MigrationStep::Skip;
    }
    let mut i: usize = applied.len();
    assert(applied@.take(applied@.len() as int) =~= applied@);
    while i > 0
        invariant
            i <= applied@.len(),
            !is_down,
            applied_checksum(applied@, version) == applied_checksum(applied@.take(i as int), version),
        decreases i,
    {
        let ghost p = applied@.take(i as int);
        assert(p.drop_last() =~= applied@.take(i - 1));
        if applied[i - 1].0 == version {
            assert(p.last() == applied@[i - 1]);
            assert(applied_checksum(p, version) == Some(applied@[i - 1].1@));
            if bytes_eq(&applied[i - 1].1, checksum) {
                return MigrationStep::Skip;
            } else {
                return MigrationStep::Mismatch(version);
            }
        }
        i = i - 1;
    }
    MigrationStep::Apply
}

/// The versions of the migrations that have logic to run after them.
pub open spec fn has_after_logic_spec(version: i64) -> bool {
    version == 20250905175005i64 || version == 20260115231518i64 || version == 20250916122132i64
}

/// Whether applying migration `version` is followed by its own logic:
/// only on an existing database, and only for the migrations that have it.
pub fn runs_after_logic(version: i64, new_database: bool) -> (b: bool)
    ensures
        b == (!new_database && has_after_logic_spec(version)),
{
    !new_database && (version == 20250905175005i64 || version == 20260115231518i64 || version == 20250916122132i64)
}

/// Index of the first `(name, path)` directory whose path is a string
/// prefix of `path`.
pub open spec fn first_dir(dirs: Seq<(String, String)>, path: Seq<char>) -> Option<int> {
    if exists|i: int| 0 <= i < dirs.len() && is_prefix(#[trigger] dirs[i].1@, path) {
        Some(choose|i: int| 0 <= i < dirs.len() && is_prefix(#[trigger] dirs[i].1@, path)
            && forall|j: int| 0 <= j < i ==> !is_prefix(#[trigger] dirs[j].1@, path))
    } else {
        None
    }
}

/// The directory of each `(id, path)` song: the name of the first
/// `(name, path)` directory whose path is a string prefix of the song's
/// path. `None` when some song lies in no directory.
pub fn song_directories(songs: &Vec<(String, String)>, dirs: &Vec<(String, String)>) -> (r: Option<Vec<(String, String)>>)
    ensures
        match r {
            Some(v) => v@.len() == songs@.len() && forall|k: int| 0 <= k < v@.len() ==> {
                &&& #[trigger] v@[k].0@ == songs@[k].0@
                &&& first_dir(dirs@, songs@[k].1@) matches Some(i) && v@[k].1@ == dirs@[i].0@
            },
            None => exists|k: int| 0 <= k < songs@.len() && #[trigger] first_dir(dirs@, songs@[k].1@) is None,
        },
{
    let mut out: Vec<(String, String)> = Vec::new();
    let mut k: usize = 0;
    while k < songs.len()
        invariant
            k <= songs@.len(),
            out@.len() == k,
            forall|x: int| 0 <= x < k ==> {
                &&& #[trigger] out@[x].0@ == songs@[x].0@
                &&& first_dir(dirs@, songs@[x].1@) matches Some(i) && out@[x].1@ == dirs@[i].0@
            },
        decreases songs.len() - k,
    {
        let path = songs[k].1.as_str();
        let mut i: usize = 0;
        let mut found: Option<usize> = None;
        while i < dirs.len() && found.is_none()
            invariant
                i <= dirs@.len(),
                found is None ==> forall|j: int| 0 <= j < i ==> !is_prefix(#[trigger] dirs@[j].1@, path@),
                found matches Some(f) ==> f < dirs@.len() && is_prefix(dirs@[f as int].1@, path@)
                    && forall|j: int| 0 <= j < f ==> !is_prefix(#[trigger] dirs@[j].1@, path@),
            decreases dirs.len() - i,
        {
            if str_starts_with(path, dirs[i].1.as_str()) {
                found = Some(i);
            }
            i = i + 1;
        }
        match found {
            Some(f) => {
                proof {
                    let w = choose|w: int| 0 <= w < dirs@.len() && is_prefix(#[trigger] dirs@[w].1@, path@)
                        && forall|j: int| 0 <= j < w ==> !is_prefix(#[trigger] dirs@[j].1@, path@);
                    assert(is_prefix(dirs@[f as int].1@, path@));
                    if w < f {
                        assert(!is_prefix(dirs@[w].1@, path@));
                    }
                    if w > f {
                        assert(!is_prefix(dirs@[f as int].1@, path@));
                    }
                    assert(w == f);
                    assert(first_dir(dirs@, songs@[k as int].1@) == Some(f as int));
                }
                out.push((songs[k].0.clone(), dirs[f].0.clone()));
            },
            None => {
                assert(first_dir(dirs@, songs@[k as int].1@) is None);
                return None;
            },
        }
        k = k + 1;
    }
    Some(out)
}

/// The ids of the songs whose album is `title`, in order; songs are
/// `(id, album, album artist)`.
pub open spec fn album_ids(songs: Seq<(String, Option<String>, Option<String>)>, title: Seq<char>) -> Seq<String>
    decreases songs.len(),
{
    if songs.len() == 0 {
        Seq::empty()
    } else {
        let prev = album_ids(songs.drop_last(), title);
        if opt_view(songs.last().1) == Some(title) { prev.push(songs.last().0) } else { prev }
    }
}

/// The index of the first song with id `id`.
pub open spec fn first_with_id(songs: Seq<(String, Option<String>, Option<String>)>, id: Seq<char>) -> Option<int> {
    if exists|i: int| 0 <= i < songs.len() && #[trigger] songs[i].0@ == id {
        Some(choose|i: int| 0 <= i < songs.len() && #[trigger] songs[i].0@ == id
            && forall|j: int| 0 <= j < i ==> #[trigger] songs[j].0@ != id)
    } else {
        None
    }
}

/// Groups `(id, album, album artist)` songs by album, in album order: each
/// album with the ids of its songs in order, and as artist the album
/// artist of the first song that has the first of those ids.
pub fn album_groups(songs: &Vec<(String, Option<String>, Option<String>)>) -> (r: Vec<(String, Vec<String>, Option<String>)>)
    ensures
        forall|a: int, b: int| 0 <= a < b < r@.len() ==> str_lt(#[trigger] r@[a].0@, #[trigger] r@[b].0@),
        forall|k: int| 0 <= k < r@.len() ==> {
            &&& (#[trigger] r@[k]).1@ == album_ids(songs@, r@[k].0@)
            &&& r@[k].1@.len() > 0
            &&& first_with_id(songs@, r@[k].1@[0]@) matches Some(p) && opt_view(r@[k].2) == opt_view(songs@[p].2)
        },
        forall|t: Seq<char>| album_ids(songs@, t).len() > 0 ==> exists|k: int| 0 <= k < r@.len() && (#[trigger] r@[k]).0@ == t,
{
    let map = album_id_map(songs);
    groups_of(songs, map)
}

/// The ids of the songs of each album, by album.
fn album_id_map(songs: &Vec<(String, Option<String>, Option<String>)>) -> (map: StrMap<Vec<String>>)
    ensures
        map.wf(),
        forall|t: Seq<char>| #[trigger] map.lookup(t) is Some <==> album_ids(songs@, t).len() > 0,
        forall|t: Seq<char>| #[trigger] map.lookup(t) is Some ==> map.lookup(t)->0@ == album_ids(songs@, t),
{
    let mut map: StrMap<Vec<String>> = StrMap::new();
    let mut i: usize = 0;
    while i < songs.len()
        invariant
            i <= songs@.len(),
            map.wf(),
            forall|t: Seq<char>| #[trigger] map.lookup(t) is Some <==> album_ids(songs@.take(i as int), t).len() > 0,
            forall|t: Seq<char>| #[trigger] map.lookup(t) is Some ==> map.lookup(t)->0@ == album_ids(songs@.take(i as int), t),
        decreases songs.len() - i,
    {
        let ghost p = songs@.take(i as int);
        let ghost q = songs@.take(i + 1);
        assert(q.drop_last() =~= p);
        assert(q.last() == songs@[i as int]);
        match &songs[i].1 {
            Some(album) => {
                let mut ids = match map.remove(album.as_str()) {
                    Some(v) => v,
                    None => Vec::new(),
                };
                ids.push(songs[i].0.clone());
                map.insert(album.clone(), ids);
                assert forall|t: Seq<char>| #[trigger] map.lookup(t) is Some implies map.lookup(t)->0@ == album_ids(q, t) by {
                    if t != album@ {
                        assert(album_ids(q, t) == album_ids(p, t));
                    }
                }
                assert forall|t: Seq<char>| #[trigger] map.lookup(t) is Some <==> album_ids(q, t).len() > 0 by {
                    if t != album@ {
                        assert(album_ids(q, t) == album_ids(p, t));
                    }
                }
            },
            None => {
                assert forall|t: Seq<char>| album_ids(q, t) == album_ids(p, t) by {}
            },
        }
        i = i + 1;
    }
    assert(songs@.take(songs@.len() as int) =~= songs@);
    map
}

/// The groups of the albums of `map`, in album order, with their artists.
fn groups_of(songs: &Vec<(String, Option<String>, Option<String>)>, map: StrMap<Vec<String>>)
    -> (r: Vec<(String, Vec<String>, Option<String>)>)
    requires
        map.wf(),
        forall|t: Seq<char>| #[trigger] map.lookup(t) is Some <==> album_ids(songs@, t).len() > 0,
        forall|t: Seq<char>| #[trigger] map.lookup(t) is Some ==> map.lookup(t)->0@ == album_ids(songs@, t),
    ensures
        forall|a: int, b: int| 0 <= a < b < r@.len() ==> str_lt(#[trigger] r@[a].0@, #[trigger] r@[b].0@),
        forall|k: int| 0 <= k < r@.len() ==> {
            &&& (#[trigger] r@[k]).1@ == album_ids(songs@, r@[k].0@)
            &&& r@[k].1@.len() > 0
            &&& first_with_id(songs@, r@[k].1@[0]@) matches Some(p) && opt_view(r@[k].2) == opt_view(songs@[p].2)
        },
        forall|t: Seq<char>| album_ids(songs@, t).len() > 0 ==> exists|k: int| 0 <= k < r@.len() && (#[trigger] r@[k]).0@ == t,
{
    let entries = map.entries();
    let mut out: Vec<(String, Vec<String>, Option<String>)> = Vec::new();
    let mut k: usize = 0;
    while k < entries.len()
        invariant
            k <= entries@.len(),
            entries@ == map.entries_spec(),
            map.wf(),
            forall|t: Seq<char>| #[trigger] map.lookup(t) is Some <==> album_ids(songs@, t).len() > 0,
            forall|t: Seq<char>| #[trigger] map.lookup(t) is Some ==> map.lookup(t)->0@ == album_ids(songs@, t),
            out@.len() == k,
            forall|x: int| 0 <= x < k ==> (#[trigger] out@[x]).0 == entries@[x].0 && out@[x].1@ == entries@[x].1@,
            forall|x: int| 0 <= x < k ==> {
                &&& (#[trigger] out@[x]).1@.len() > 0
                &&& first_with_id(songs@, out@[x].1@[0]@) matches Some(p) && opt_view(out@[x].2) == opt_view(songs@[p].2)
            },
        decreases entries.len() - k,
    {
        proof {
            crate::strmap::lemma_lookup_at(map.entries_spec(), k as int);
            assert(map.lookup(entries@[k as int].0@) == Some(entries@[k as int].1));
        }
        let group = group_entry(songs, &entries[k].0, &entries[k].1);
        out.push(group);
        k = k + 1;
    }
    proof {
        assert forall|a: int, b: int| 0 <= a < b < out@.len() implies str_lt(#[trigger] out@[a].0@, #[trigger] out@[b].0@) by {
            assert(out@[a].0 == entries@[a].0);
            assert(out@[b].0 == entries@[b].0);
        }
        assert forall|x: int| 0 <= x < out@.len() implies (#[trigger] out@[x]).1@ == album_ids(songs@, out@[x].0@) by {
            crate::strmap::lemma_lookup_at(map.entries_spec(), x);
            assert(map.lookup(entries@[x].0@) == Some(entries@[x].1));
        }
        assert forall|t: Seq<char>| album_ids(songs@, t).len() > 0 implies exists|x: int| 0 <= x < out@.len() && (#[trigger] out@[x]).0@ == t by {
            assert(map.lookup(t) is Some);
            let x = choose|x: int| 0 <= x < map.entries_spec().len() && #[trigger] map.entries_spec()[x].0@ == t;
            assert(out@[x].0@ == t);
        }
    }
    out
}

/// The group of album `title` with song ids `ids`, and as artist the
/// album artist of the first song with the first id.
fn group_entry(songs: &Vec<(String, Option<String>, Option<String>)>, title: &String, ids: &Vec<String>)
    -> (g: (String, Vec<String>, Option<String>))
    requires
        ids@ == album_ids(songs@, title@),
        ids@.len() > 0,
    ensures
        g.0 == *title,
        g.1@ == ids@,
        first_with_id(songs@, ids@[0]@) matches Some(p) && opt_view(g.2) == opt_view(songs@[p].2),
{
    let first = ids[0].as_str();
    let mut j: usize = 0;
    let mut pos: Option<usize> = None;
    while j < songs.len() && pos.is_none()
        invariant
            j <= songs@.len(),
            pos is None ==> forall|y: int| 0 <= y < j ==> #[trigger] songs@[y].0@ != first@,
            pos matches Some(f) ==> f < songs@.len() && songs@[f as int].0@ == first@
                && forall|y: int| 0 <= y < f ==> #[trigger] songs@[y].0@ != first@,
        decreases songs.len() - j,
    {
        if str_eq(songs[j].0.as_str(), first) {
            pos = Some(j);
        }
        j = j + 1;
    }
    proof {
        lemma_album_ids_members(songs@, title@, 0);
    }
    let artist = match pos {
        Some(f) => {
            proof {
                let w = choose|w: int| 0 <= w < songs@.len() && #[trigger] songs@[w].0@ == first@
                    && forall|y: int| 0 <= y < w ==> #[trigger] songs@[y].0@ != first@;
                assert(songs@[f as int].0@ == first@);
                if w < f {
                    assert(songs@[w].0@ != first@);
                }
                if w > f {
                    assert(songs@[f as int].0@ != first@);
                }
                assert(w == f);
            }
            crate::metadata::clone_opt(&songs[f].2)
        },
        None => {
            proof {
                let w = choose|w: int| 0 <= w < songs@.len() && #[trigger] songs@[w].0 == album_ids(songs@, title@)[0];
                assert(songs@[w].0@ == first@);
            }
            None
        },
    };
    (title.clone(), clone_ids(ids), artist)
}

/// Every id listed for an album is the id of some song.
proof fn lemma_album_ids_members(songs: Seq<(String, Option<String>, Option<String>)>, title: Seq<char>, k: int)
    requires
        0 <= k < album_ids(songs, title).len(),
    ensures
        exists|i: int| 0 <= i < songs.len() && #[trigger] songs[i].0 == album_ids(songs, title)[k],
    decreases songs.len(),
{
    let prev = album_ids(songs.drop_last(), title);
    if k < prev.len() {
        lemma_album_ids_members(songs.drop_last(), title, k);
        let i = choose|i: int| 0 <= i < songs.drop_last().len() && #[trigger] songs.drop_last()[i].0 == prev[k];
        assert(songs[i].0 == album_ids(songs, title)[k]);
    } else {
        assert(songs[songs.len() - 1].0 == album_ids(songs, title)[k]);
    }
}

/// A copy of a list of ids.
fn clone_ids(v: &Vec<String>) -> (r: Vec<String>)
    ensures
        r@ == v@,
{
    let mut r: Vec<String> = Vec::new();
    let mut i: usize = 0;
    while i < v.len()
        invariant
            i <= v@.len(),
            r@ == v@.take(i as int),
        decreases v.len() - i,
    {
        r.push(v[i].clone());
        i = i + 1;
        assert(r@ =~= v@.take(i as int));
    }
    assert(v@.take(v@.len() as int) =~= v@);
    r
}

/// The migrations that move data and so run their own logic after them on
/// an existing database are exactly those of versions 20250905175005 (ids
/// of songs), 20260115231518 (directories of songs) and 20250916122132
/// (names of directories).
pub proof fn law_after_logic_versions(version: i64)
    ensures
        has_after_logic_spec(version) <==> (version == 20250905175005i64 || version == 20260115231518i64
            || version == 20250916122132i64),
        has_after_logic_spec(20250905175005i64),
        has_after_logic_spec(20260115231518i64),
        has_after_logic_spec(20250916122132i64),
{
}

} // verus!
