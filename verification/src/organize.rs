//! Organising songs on disk: the path a song gets from a template and its
//! (sanitized) metadata.

use vstd::prelude::*;
use handlebars::{Handlebars, RenderErrorReason};
use serde_json::Value;
use crate::metadata::{ITEM_KEY_COUNT, ItemKey, Metadata, field_pairs_upto, key_at, lemma_unknown_lookup, lemma_unknown_sorted, key_name_spec, key_rank, lemma_key_rank_at, opt_view};
use crate::strmap::{keys_sorted, lemma_lookup_at, lemma_lookup_absent, seq_lookup};
use crate::paths::{path_extension, path_file_name, path_with_file_name, spec_path_extension, spec_path_file_name, spec_path_parent, spec_path_with_file_name};
use crate::text::{chars_of, split_chars, split_spec, str_trim, string_of, trim_spec};

verus! {

/// The template the library organises songs with.
pub const DEFAULT_TEMPLATE: &'static str = "\n{{#if albumArtist}}\n  {{albumArtist}}/\n{{else}}\n  {{artist}}/\n{{/if}}\n\n{{#if album}}\n  {{album}}/\n{{/if}}\n\n{{title}} - {{trackNumber}}\n";

/// Why a song path could not be made.
#[non_exhaustive]
#[derive(Debug)]
pub enum OrganizeError {
    /// Rendering the template failed: `template_error` says whether the
    /// template itself was at fault, `message` says what went wrong.
    Handlebars { template_error: bool, message: String },
    NoFileName(String),
}

impl OrganizeError {
    /// The HTTP status code of the error: 400 for a file without a name
    /// and for a broken template, 500 for another rendering failure.
    pub fn status_code(&self) -> (r: u16)
        ensures
            self is NoFileName ==> r == 400,
            self matches OrganizeError::Handlebars { template_error, .. } ==> r == (if *template_error { 400u16 } else { 500u16 }),
    {
        match self {
            OrganizeError::Handlebars { template_error, .. } => if *template_error { 400 } else { 500 },
            OrganizeError::NoFileName(_) => 400,
        }
    }

    /// The message of the error: the file path that has no name, or the
    /// message of the rendering failure.
    pub fn message(&self) -> (r: String)
        ensures
            self matches OrganizeError::NoFileName(p) ==> r@ == p@,
            self matches OrganizeError::Handlebars { message, .. } ==> r@ == message@,
    {
        match self {
            OrganizeError::Handlebars { message, .. } => message.clone(),
            OrganizeError::NoFileName(p) => p.clone(),
        }
    }
}

/// A song to organise: where it is and what its tags say.
#[derive(Debug)]
pub struct Song {
    pub file_path: String,
    pub metadata: Metadata,
}

/// Characters `sanitize_filename` takes out of a name on Unix: path and
/// shell specials and the C0 and C1 control characters.
pub open spec fn is_name_illegal(c: char) -> bool {
    let v = c as u32;
    ||| c == '/' || c == '?' || c == '<' || c == '>' || c == '\\'
    ||| c == ':' || c == '*' || c == '|' || c == '"'
    ||| v <= 0x1f
    ||| (0x80 <= v && v <= 0x9f)
}

/// `s` without its illegal characters.
pub open spec fn strip_illegal(s: Seq<char>) -> Seq<char>
    decreases s.len(),
{
    if s.len() == 0 {
        s
    } else if is_name_illegal(s.last()) {
        strip_illegal(s.drop_last())
    } else {
        strip_illegal(s.drop_last()).push(s.last())
    }
}

/// Number of bytes of a character in UTF-8.
pub open spec fn utf8_width(c: char) -> nat {
    let v = c as u32;
    if v < 0x80 {
        1
    } else if v < 0x800 {
        2
    } else if v < 0x10000 {
        3
    } else {
        4
    }
}

/// The longest prefix of `s` whose UTF-8 encoding fits in `n` bytes.
pub open spec fn prefix_within(s: Seq<char>, n: nat) -> Seq<char>
    decreases s.len(),
{
    if s.len() == 0 || utf8_width(s[0]) > n {
        Seq::empty()
    } else {
        seq![s[0]] + prefix_within(s.drop_first(), (n - utf8_width(s[0])) as nat)
    }
}

/// A name made only of dots.
pub open spec fn all_dots(s: Seq<char>) -> bool {
    s.len() > 0 && forall|i: int| 0 <= i < s.len() ==> s[i] == '.'
}

/// `sanitize_filename::sanitize` on Unix: illegal characters removed, a
/// name of only dots emptied, and the result cut to at most 255 bytes.
pub open spec fn sanitize_filename_spec(s: Seq<char>) -> Seq<char> {
    let a = strip_illegal(s);
    let b = if all_dots(a) { Seq::<char>::empty() } else { a };
    prefix_within(b, 255)
}

/// No character left by `strip_illegal` is illegal.
proof fn lemma_strip_illegal_clean(s: Seq<char>)
    ensures
        forall|i: int| 0 <= i < strip_illegal(s).len() ==> !is_name_illegal(#[trigger] strip_illegal(s)[i]),
    decreases s.len(),
{
    if s.len() > 0 {
        let p = strip_illegal(s.drop_last());
        lemma_strip_illegal_clean(s.drop_last());
        if !is_name_illegal(s.last()) {
            assert forall|i: int| 0 <= i < strip_illegal(s).len() implies !is_name_illegal(#[trigger] strip_illegal(s)[i]) by {
                if i < p.len() {
                    assert(strip_illegal(s)[i] == p[i]);
                }
            }
        }
    }
}

/// `prefix_within` gives a prefix.
proof fn lemma_prefix_within_prefix(s: Seq<char>, n: nat)
    ensures
        prefix_within(s, n).len() <= s.len(),
        forall|i: int| 0 <= i < prefix_within(s, n).len() ==> #[trigger] prefix_within(s, n)[i] == s[i],
    decreases s.len(),
{
    if !(s.len() == 0 || utf8_width(s[0]) > n) {
        let rest = prefix_within(s.drop_first(), (n - utf8_width(s[0])) as nat);
        lemma_prefix_within_prefix(s.drop_first(), (n - utf8_width(s[0])) as nat);
        assert forall|i: int| 0 <= i < prefix_within(s, n).len() implies #[trigger] prefix_within(s, n)[i] == s[i] by {
            if i > 0 {
                assert(prefix_within(s, n)[i] == rest[i - 1]);
                assert(rest[i - 1] == s.drop_first()[i - 1]);
            }
        }
    }
}

/// A sanitized file name holds no illegal character: no path separator,
/// no shell special and no control character, whatever the input.
pub proof fn law_sanitized_name_is_legal(name: Seq<char>)
    ensures
        forall|i: int| 0 <= i < sanitize_filename_spec(name).len()
            ==> !is_name_illegal(#[trigger] sanitize_filename_spec(name)[i]),
{
    let a = strip_illegal(name);
    let b = if all_dots(a) { Seq::<char>::empty() } else { a };
    lemma_strip_illegal_clean(name);
    lemma_prefix_within_prefix(b, 255);
    assert forall|i: int| 0 <= i < sanitize_filename_spec(name).len()
        implies !is_name_illegal(#[trigger] sanitize_filename_spec(name)[i]) by {
        assert(sanitize_filename_spec(name)[i] == b[i]);
        assert(b[i] == a[i]);
    }
}

/// `sanitize_filename::sanitize` with its default options. On a non-Windows
/// target its source removes the characters of `is_name_illegal`, replaces a
/// name made only of dots by the empty string and truncates to 255 bytes at
/// a character boundary; the contract says exactly that. It holds on Unix
/// targets only: on Windows the crate also rewrites reserved names and
/// trailing dots and spaces, which the contract does not state.
#[verifier::external_body]
pub(crate) fn sanitize_filename(name: &str) -> (r: String)
    ensures
        r@ == sanitize_filename_spec(name@),
{
    sanitize_filename::sanitize(name)
}

/// What rendering a template with `handlebars` gives: the rendered text,
/// or, where it fails, whether the template itself was at fault and the
/// message of the failure. The data are the known fields by name and, when
/// there are any, the unknown fields under the name `unknown`.
pub uninterp spec fn spec_render_template(
    template: Seq<char>,
    fields: Seq<(Seq<char>, Seq<char>)>,
    unknown: Option<Seq<(Seq<char>, Seq<char>)>>,
) -> Result<Seq<char>, (bool, Seq<char>)>;

/// The view of a list of string pairs.
pub open spec fn pairs_view(v: Seq<(String, String)>) -> Seq<(Seq<char>, Seq<char>)> {
    v.map_values(|p: (String, String)| (p.0@, p.1@))
}

/// `Handlebars::render_template` with a default registry (HTML escaping on,
/// strict mode off), on a JSON object made of the given fields. Its result
/// is only named. A failure comes back as plain values: whether its reason
/// is `RenderErrorReason::TemplateError`, and the message of that template
/// error, or else of the whole render error.
#[verifier::external_body]
fn render_template(
    template: &str,
    fields: &Vec<(String, String)>,
    unknown: Option<&Vec<(String, String)>>,
) -> (r: Result<String, (bool, String)>)
    ensures
        spec_render_template(template@, pairs_view(fields@), match unknown {
            Some(u) => Some(pairs_view(u@)),
            None => None,
        }) == match r {
            Ok(s) => Ok(s@),
            Err((t, m)) => Err((t, m@)),
        },
{
    let mut data = serde_json::Map::new();
    for (k, v) in fields {
        data.insert(k.clone(), Value::String(v.clone()));
    }
    if let Some(u) = unknown {
        let m: serde_json::Map<String, Value> = u.iter().map(|(k, v)| (k.clone(), Value::String(v.clone()))).collect();
        data.insert("unknown".to_string(), Value::Object(m));
    }
    match Handlebars::new().render_template(template, &data) {
        Ok(s) => Ok(s),
        Err(e) => match e.reason() {
            RenderErrorReason::TemplateError(t) => Err((true, t.to_string())),
            _ => Err((false, e.to_string())),
        },
    }
}

/// A sanitized optional value.
pub open spec fn sanitize_opt(o: Option<Seq<char>>) -> Option<Seq<char>> {
    match o {
        Some(v) => Some(sanitize_filename_spec(v)),
        None => None,
    }
}

/// Name/value pairs with every value sanitized.
pub open spec fn sanitize_pairs(s: Seq<(String, String)>) -> Seq<(Seq<char>, Seq<char>)> {
    s.map_values(|p: (String, String)| (p.0@, sanitize_filename_spec(p.1@)))
}

/// The set known fields among the first `n` of the field order, sanitized,
/// as (serialized name, value) pairs.
pub open spec fn sanitized_field_pairs(m: Metadata, n: nat) -> Seq<(Seq<char>, Seq<char>)>
    decreases n,
{
    if n == 0 {
        seq![]
    } else {
        let k = key_at((n - 1) as nat);
        let rest = sanitized_field_pairs(m, (n - 1) as nat);
        match m.field(k) {
            Some(v) => rest.push((key_name_spec(k), sanitize_filename_spec(v))),
            None => rest,
        }
    }
}

/// Field pairs of metadata whose fields are the sanitized fields of `m`.
pub proof fn lemma_sanitized_field_pairs(m: Metadata, r: Metadata, n: nat)
    requires
        forall|k: ItemKey| r.field(k) == sanitize_opt(m.field(k)),
    ensures
        field_pairs_upto(r, n) == sanitized_field_pairs(m, n),
    decreases n,
{
    if n > 0 {
        lemma_sanitized_field_pairs(m, r, (n - 1) as nat);
    }
}

/// Metadata with every value, known or not, passed through
/// `sanitize_filename`, so that it can stand in a path.
pub fn sanitize_metadata(metadata: &Metadata) -> (r: Metadata)
    requires
        metadata.wf(),
    ensures
        r.wf(),
        forall|k: ItemKey| r.field(k) == sanitize_opt(metadata.field(k)),
        pairs_view(r.unknown_entries()) == sanitize_pairs(metadata.unknown_entries()),
        forall|q: Seq<char>| #[trigger] opt_view(r.unknown(q)) == sanitize_opt(opt_view(metadata.unknown(q))),
{
    let mut r = Metadata::empty();
    let mut i: usize = 0;
    while i < ITEM_KEY_COUNT
        invariant
            metadata.wf(),
            r.wf(),
            i <= ITEM_KEY_COUNT,
            forall|k: ItemKey| key_rank(k) < i ==> r.field(k) == sanitize_opt(metadata.field(k)),
            forall|k: ItemKey| key_rank(k) >= i ==> r.field(k) is None,
        decreases ITEM_KEY_COUNT - i,
    {
        let k = ItemKey::from_rank(i);
        match metadata.get(&k) {
            Some(v) => {
                let c = sanitize_filename(v.as_str());
                r.insert(k, c);
            },
            None => {},
        }
        proof {
            assert forall|k2: ItemKey| key_rank(k2) >= i + 1 implies r.field(k2) is None by {
                lemma_key_rank_at(k2);
            }
        }
        i = i + 1;
    }
    let unknown = metadata.unknown_fields();
    let mut entries: Vec<(String, String)> = Vec::new();
    let mut j: usize = 0;
    proof {
        lemma_unknown_sorted(*metadata);
    }
    while j < unknown.len()
        invariant
            unknown@ == metadata.unknown_entries(),
            keys_sorted(unknown@),
            j <= unknown@.len(),
            entries@.len() == j,
            forall|a: int| 0 <= a < j ==> #[trigger] entries@[a].0@ == unknown@[a].0@,
            forall|a: int| 0 <= a < j ==> #[trigger] entries@[a].1@ == sanitize_filename_spec(unknown@[a].1@),
        decreases unknown.len() - j,
    {
        let key = unknown[j].0.clone();
        let value = sanitize_filename(unknown[j].1.as_str());
        entries.push((key, value));
        j = j + 1;
    }
    proof {
        assert forall|a: int, b: int| 0 <= a < b < entries@.len() implies crate::strmap::str_lt(#[trigger] entries@[a].0@, #[trigger] entries@[b].0@) by {
            assert(crate::strmap::str_lt(unknown@[a].0@, unknown@[b].0@));
        }
    }
    r.set_unknown_entries(entries);
    proof {
        let e = r.unknown_entries();
        assert(pairs_view(e) =~= sanitize_pairs(unknown@));
        assert forall|q: Seq<char>| #[trigger] opt_view(r.unknown(q)) == sanitize_opt(opt_view(metadata.unknown(q))) by {
            if exists|a: int| 0 <= a < unknown@.len() && #[trigger] unknown@[a].0@ == q {
                let a = choose|a: int| 0 <= a < unknown@.len() && #[trigger] unknown@[a].0@ == q;
                lemma_lookup_at(unknown@, a);
                lemma_lookup_at(e, a);
                lemma_unknown_lookup(*metadata, q);
            } else {
                lemma_lookup_absent(unknown@, q);
                assert forall|a: int| 0 <= a < e.len() implies #[trigger] e[a].0@ != q by {
                    assert(e[a].0@ == unknown@[a].0@);
                }
                lemma_lookup_absent(e, q);
                lemma_unknown_lookup(*metadata, q);
            }
        }
    }
    r
}

/// The rendered template with each line trimmed, the lines joined without
/// separator.
pub open spec fn concat_trimmed(lines: Seq<Seq<char>>) -> Seq<char>
    decreases lines.len(),
{
    if lines.len() == 0 {
        Seq::empty()
    } else {
        concat_trimmed(lines.drop_last()) + trim_spec(lines.last())
    }
}

/// Every `\` turned into the path separator `/`.
pub open spec fn to_separators(s: Seq<char>) -> Seq<char> {
    s.map_values(|c: char| if c == '\\' { '/' } else { c })
}

/// A rendered template made into one relative path: lines trimmed and
/// joined (blank lines vanish), backslashes turned into `/`.
pub open spec fn collapse_spec(rendered: Seq<char>) -> Seq<char> {
    to_separators(concat_trimmed(split_spec(rendered, '\n')))
}

/// Makes one path out of a rendered template.
pub fn collapse_rendered(rendered: &str) -> (r: String)
    ensures
        r@ == collapse_spec(rendered@),
{
    let lines = split_chars(rendered, '\n');
    let ghost lv = lines@.map_values(|p: String| p@);
    let mut joined: Vec<char> = Vec::new();
    let mut i: usize = 0;
    while i < lines.len()
        invariant
            lv == lines@.map_values(|p: String| p@),
            lv == split_spec(rendered@, '\n'),
            i <= lines.len(),
            joined@ == to_separators(concat_trimmed(lv.take(i as int))),
        decreases lines.len() - i,
    {
        let t = str_trim(lines[i].as_str());
        let cs = chars_of(t);
        let ghost before = joined@;
        let mut j: usize = 0;
        while j < cs.len()
            invariant
                j <= cs.len(),
                cs@ == trim_spec(lv[i as int]),
                joined@ == before + to_separators(cs@.take(j as int)),
            decreases cs.len() - j,
        {
            let c = cs[j];
            if c == '\\' {
                joined.push('/');
            } else {
                joined.push(c);
            }
            assert(cs@.take(j + 1) =~= cs@.take(j as int).push(c));
            assert(to_separators(cs@.take(j + 1)) =~= to_separators(cs@.take(j as int)).push(if c == '\\' { '/' } else { c }));
            j = j + 1;
        }
        assert(cs@.take(cs.len() as int) =~= cs@);
        assert(lv.take(i + 1).drop_last() =~= lv.take(i as int));
        assert(to_separators(concat_trimmed(lv.take(i + 1))) =~= to_separators(concat_trimmed(lv.take(i as int))) + to_separators(cs@));
        i = i + 1;
    }
    assert(lv.take(lines.len() as int) =~= lv);
    string_of(&joined)
}

/// The path a rendered template gives a song: the collapsed template, the
/// extension of the original file, and, unless the file is renamed, the
/// original file name in place of the rendered one. `None` where the file
/// name is needed and the original path has none.
pub open spec fn song_path_spec(rendered: Seq<char>, file_path: Seq<char>, rename: bool) -> Option<Seq<char>> {
    let base = collapse_spec(rendered) + match spec_path_extension(file_path) {
        Some(e) => seq!['.'] + e,
        None => Seq::empty(),
    };
    if rename {
        Some(base)
    } else {
        match spec_path_file_name(file_path) {
            Some(n) => Some(spec_path_with_file_name(base, n)),
            None => None,
        }
    }
}

/// Keeping the original file name changes only the last component of the
/// renamed path: where that path has a file name, the kept one has the same
/// parent and the file name of the original file.
pub open spec fn keeps_only_the_name(rendered: Seq<char>, file_path: Seq<char>, kept: Seq<char>) -> bool {
    let renamed = song_path_spec(rendered, file_path, true)->Some_0;
    spec_path_file_name(renamed) is Some
        ==> spec_path_parent(kept) == spec_path_parent(renamed) && spec_path_file_name(kept) == spec_path_file_name(file_path)
}

/// Turns a rendered template into the path of a song.
pub fn finish_song_path(rendered: &str, file_path: &str, rename_original_file: bool) -> (r: Result<String, OrganizeError>)
    ensures
        match r {
            Ok(p) => song_path_spec(rendered@, file_path@, rename_original_file) == Some(p@),
            Err(OrganizeError::NoFileName(f)) => song_path_spec(rendered@, file_path@, rename_original_file) is None && f@ == file_path@,
            Err(_) => false,
        },
        !rename_original_file && r is Ok ==> keeps_only_the_name(rendered@, file_path@, r->Ok_0@),
{
    let mut path = collapse_rendered(rendered);
    match path_extension(file_path) {
        Some(ext) => {
            proof {
                reveal_strlit(".");
            }
            path.append(".");
            path.append(ext.as_str());
            proof {
                assert(path@ =~= collapse_spec(rendered@) + (seq!['.'] + ext@));
            }
        },
        None => {
            proof {
                assert(path@ =~= collapse_spec(rendered@) + Seq::<char>::empty());
            }
        },
    }
    if rename_original_file {
        Ok(path)
    } else {
        match path_file_name(file_path) {
            Some(name) => Ok(path_with_file_name(path.as_str(), name.as_str())),
            None => Err(OrganizeError::NoFileName(String::from_str(file_path))),
        }
    }
}

/// The unknown fields handed to a template: none when there are none.
pub open spec fn unknown_data(m: Metadata) -> Option<Seq<(Seq<char>, Seq<char>)>> {
    if m.unknown_entries().len() == 0 {
        None
    } else {
        Some(sanitize_pairs(m.unknown_entries()))
    }
}

/// Renders the path of a song from a template: the template is filled with
/// the sanitized metadata of the song, the result collapsed into a path
/// that keeps the extension of the original file and, unless
/// `rename_original_file`, its file name.
pub fn render_song_path(template: &str, song: &Song, rename_original_file: bool) -> (r: Result<String, OrganizeError>)
    requires
        song.metadata.wf(),
    ensures
        match spec_render_template(template@, sanitized_field_pairs(song.metadata, 11), unknown_data(song.metadata)) {
            Err((t, m)) => r matches Err(OrganizeError::Handlebars { template_error, message })
                && template_error == t && message@ == m,
            Ok(rendered) => match r {
                Ok(p) => song_path_spec(rendered, song.file_path@, rename_original_file) == Some(p@)
                    && (!rename_original_file ==> keeps_only_the_name(rendered, song.file_path@, p@)),
                Err(OrganizeError::NoFileName(f)) => song_path_spec(rendered, song.file_path@, rename_original_file) is None && f@ == song.file_path@,
                Err(_) => false,
            },
        },
{
    let sanitized = sanitize_metadata(&song.metadata);
    let fields = sanitized.field_pairs();
    proof {
        lemma_sanitized_field_pairs(song.metadata, sanitized, 11);
    }
    let unknown = sanitized.unknown_fields();
    proof {
        assert(pairs_view(unknown@).len() == unknown@.len());
        assert(sanitize_pairs(song.metadata.unknown_entries()).len() == song.metadata.unknown_entries().len());
        if unknown@.len() > 0 {
            assert(unknown_data(song.metadata) == Some(pairs_view(unknown@)));
        }
    }
    let rendered = if unknown.len() == 0 {
        render_template(template, &fields, None)
    } else {
        render_template(template, &fields, Some(unknown))
    };
    match rendered {
        Ok(text) => finish_song_path(text.as_str(), song.file_path.as_str(), rename_original_file),
        Err((template_error, message)) => Err(OrganizeError::Handlebars { template_error, message }),
    }
}

} // verus!
