//! Tag types and the clean-up applied to every tag value read from a file.

use vstd::prelude::*;
use crate::text::{is_white_space, join_spec, join_strings, lemma_remove_char_absent, lemma_split_nonempty, lemma_trimmed, remove_char, remove_char_spec, split_chars, split_spec, str_trim, trim_spec};

verus! {

/// The tag formats a song file can carry (the formats of `lofty::tag::TagType`).
#[non_exhaustive]
#[derive(Debug, Clone, Copy, PartialEq, Eq, Structural)]
pub enum TagType {
    Ape,
    Id3v1,
    Id3v2,
    Mp4Ilst,
    VorbisComments,
    RiffInfo,
    AiffText,
}

/// A tag value with every NUL character removed and then surrounding
/// white space trimmed.
pub open spec fn sanitize_tag_spec(tag: Seq<char>) -> Seq<char> {
    trim_spec(remove_char_spec(tag, '\0'))
}

/// Sanitize a tag by removing leading and trailing whitespace and null characters.
pub fn sanitize_tag(tag: &str) -> (r: String)
    ensures
        r@ == sanitize_tag_spec(tag@),
{
    let without_nul = remove_char(tag, '\0');
    String::from_str(str_trim(without_nul.as_str()))
}

/// The text stored for a tag field read from a file: every value the tag
/// holds for the field, sanitized, joined with `"; "`.
pub fn join_tag_values(values: &Vec<String>) -> (r: String)
    ensures
        r@ == join_spec(values@.map_values(|v: String| sanitize_tag_spec(v@)), "; "@),
{
    let mut cleaned: Vec<String> = Vec::new();
    let mut i: usize = 0;
    while i < values.len()
        invariant
            i <= values.len(),
            cleaned@.len() == i,
            cleaned@.map_values(|v: String| v@) == values@.take(i as int).map_values(|v: String| sanitize_tag_spec(v@)),
        decreases values.len() - i,
    {
        let c = sanitize_tag(values[i].as_str());
        let ghost old_c = cleaned@;
        cleaned.push(c);
        assert(values@.take(i + 1) =~= values@.take(i as int).push(values@[i as int]));
        assert forall|j: int| 0 <= j < i implies #[trigger] cleaned@[j]@ == sanitize_tag_spec(values@[j]@) by {
            assert(cleaned@[j] == old_c[j]);
            assert(old_c.map_values(|v: String| v@)[j] == values@.take(i as int).map_values(|v: String| sanitize_tag_spec(v@))[j]);
        }
        assert(cleaned@.map_values(|v: String| v@) =~= values@.take(i + 1).map_values(|v: String| sanitize_tag_spec(v@)));
        i = i + 1;
    }
    assert(values@.take(values.len() as int) =~= values@);
    join_strings(&cleaned, "; ")
}

/// The values a field text is written as: when it holds `;`, each piece
/// between the semicolons, trimmed; otherwise the text itself.
pub open spec fn tag_item_values_spec(value: Seq<char>) -> Seq<Seq<char>> {
    let pieces = split_spec(value, ';');
    if pieces.len() == 1 {
        seq![value]
    } else {
        pieces.map_values(|p: Seq<char>| trim_spec(p))
    }
}

/// Splits a field text into the values to write to the tag.
pub fn tag_item_values(value: &str) -> (r: Vec<String>)
    ensures
        r@.map_values(|v: String| v@) == tag_item_values_spec(value@),
{
    let pieces = split_chars(value, ';');
    proof {
        lemma_split_nonempty(value@, ';');
    }
    let mut out: Vec<String> = Vec::new();
    if pieces.len() == 1 {
        out.push(String::from_str(value));
        assert(out@.map_values(|v: String| v@) =~= tag_item_values_spec(value@));
        return out;
    }
    let ghost pv = pieces@.map_values(|p: String| p@);
    let mut i: usize = 0;
    while i < pieces.len()
        invariant
            pv == pieces@.map_values(|p: String| p@),
            pv == split_spec(value@, ';'),
            i <= pieces.len(),
            out@.len() == i,
            out@.map_values(|v: String| v@) == pv.take(i as int).map_values(|p: Seq<char>| trim_spec(p)),
        decreases pieces.len() - i,
    {
        let t = str_trim(pieces[i].as_str());
        let ghost old_o = out@;
        out.push(String::from_str(t));
        assert(pv.take(i + 1) =~= pv.take(i as int).push(pv[i as int]));
        assert forall|j: int| 0 <= j < i implies #[trigger] out@[j]@ == trim_spec(pv[j]) by {
            assert(out@[j] == old_o[j]);
            assert(old_o.map_values(|v: String| v@)[j] == pv.take(i as int).map_values(|p: Seq<char>| trim_spec(p))[j]);
        }
        assert(out@.map_values(|v: String| v@) =~= pv.take(i + 1).map_values(|p: Seq<char>| trim_spec(p)));
        i = i + 1;
    }
    assert(pv.take(pieces.len() as int) =~= pv);
    out
}

/// A sanitized tag never holds a NUL character, and neither begins nor
/// ends with white space.
pub proof fn sanitized_tag_has_no_nul(tag: Seq<char>)
    ensures
        !sanitize_tag_spec(tag).contains('\0'),
        sanitize_tag_spec(tag).len() > 0 ==> !is_white_space(sanitize_tag_spec(tag)[0])
            && !is_white_space(sanitize_tag_spec(tag).last()),
{
    let r = remove_char_spec(tag, '\0');
    lemma_remove_char_absent(tag, '\0');
    lemma_trimmed(r);
    let (a, b) = choose|a: int, b: int| 0 <= a <= b <= r.len() && #[trigger] r.subrange(a, b) == trim_spec(r);
    assert forall|i: int| 0 <= i < trim_spec(r).len() implies trim_spec(r)[i] != '\0' by {
        assert(trim_spec(r)[i] == r[a + i]);
    }
}

} // verus!
