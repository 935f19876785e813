//! The history of a song's tags: every edit keeps the tags it replaced in
//! a JSON file named after the time of the edit.

use vstd::prelude::*;
use crate::metadata::{ItemKey, Metadata, entry_views};
use crate::paths::{path_extension, path_file_stem, path_join, spec_path_extension, spec_path_file_stem, spec_path_join};
use crate::strmap::str_eq;
use crate::text::{lemma_signed_decimal_reads_back, parse_i128, parse_i128_spec, signed_decimal, signed_decimal_spec, str_concat};

verus! {

/// The directory holding the earlier tags of song `song_id`.
pub fn song_history_dir(data_dir: &str, song_id: &str) -> (r: String)
    ensures
        r@ == spec_path_join(spec_path_join(data_dir@, "history"@), song_id@),
{
    let dir = path_join(data_dir, "history");
    path_join(dir.as_str(), song_id)
}

/// The file keeping the tags replaced at `timestamp` (nanoseconds since
/// the epoch).
pub fn history_file_name(timestamp: i128) -> (r: String)
    ensures
        r@ == signed_decimal_spec(timestamp as int) + ".json"@,
{
    str_concat(signed_decimal(timestamp).as_str(), ".json")
}

/// A history entry is found again under the time it was written: the name
/// of the file for `timestamp` is that time in decimal followed by
/// `.json`, and the decimal part reads back as the same time.
pub proof fn law_history_name_reads_back(timestamp: i128)
    ensures
        parse_i128_spec(signed_decimal_spec(timestamp as int)) == Some(timestamp as int),
{
    lemma_signed_decimal_reads_back(timestamp as int);
}

/// A history entry is a file with the extension `json`.
pub fn is_history_file(path: &str, is_file: bool) -> (b: bool)
    ensures
        b == (spec_path_extension(path@) == Some("json"@) && is_file),
{
    match path_extension(path) {
        Some(e) => str_eq(e.as_str(), "json") && is_file,
        None => false,
    }
}

/// The time a history file was written, read from its file stem.
pub fn history_timestamp(path: &str) -> (r: Option<i128>)
    ensures
        match spec_path_file_stem(path@) {
            Some(stem) => match r {
                Some(t) => parse_i128_spec(stem) == Some(t as int),
                None => parse_i128_spec(stem) is None,
            },
            None => r is None,
        },
{
    match path_file_stem(path) {
        Some(stem) => parse_i128(stem.as_str()),
        None => None,
    }
}

/// Writing new tags keeps a history entry and rewrites the file, unless
/// the file already holds exactly these tags.
pub fn tags_differ(original: Option<&Metadata>, new: &Metadata) -> (b: bool)
    requires
        original matches Some(m) ==> m.wf(),
        new.wf(),
    ensures
        b == match original {
            Some(m) => !((forall|k: ItemKey| #[trigger] m.field(k) == new.field(k))
                && entry_views(m.unknown_entries()) == entry_views(new.unknown_entries())),
            None => true,
        },
{
    match original {
        Some(m) => !m.same_as(new),
        None => true,
    }
}

} // verus!
