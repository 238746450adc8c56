//! The mime types of text.

use vstd::prelude::*;
use crate::item::ImageFormat;
use crate::text::same_text;

verus! {

/// Text mime types that are offered to other programs.
pub const TEXT_MIME_TYPES: [&'static str; 3] = [
    "text/plain;charset=utf-8",
    "UTF8_STRING",
    "text/plain",
];

/// The mime type of a list of files.
pub const FILE_LIST_MIME_TYPE: &'static str = "text/uri-list";

/// Text mime types that are accepted from other programs.
pub const ALLOWED_TEXT_MIME_TYPES: [&'static str; 2] = ["text/plain;charset=utf-8", "UTF8_STRING"];

/// The values of [`TEXT_MIME_TYPES`].
pub open spec fn text_mimes() -> Seq<Seq<char>> {
    seq!["text/plain;charset=utf-8"@, "UTF8_STRING"@, "text/plain"@]
}

/// The values of [`ALLOWED_TEXT_MIME_TYPES`].
pub open spec fn allowed_text_mimes() -> Seq<Seq<char>> {
    seq!["text/plain;charset=utf-8"@, "UTF8_STRING"@]
}

/// The texts of a list of strings.
pub open spec fn string_views(strings: Seq<String>) -> Seq<Seq<char>> {
    strings.map_values(|string: String| string@)
}

/// The texts of a list of string slices.
pub open spec fn str_views(strings: Seq<&'static str>) -> Seq<Seq<char>> {
    strings.map_values(|string: &'static str| string@)
}

/// Whether a list of string slices holds a text.
pub fn contains_text(strings: &[&'static str], text: &str) -> (found: bool)
    ensures
        found == str_views(strings@).contains(text@),
{
    let mut i: usize = 0;
    while i < strings.len()
        invariant
            i <= strings@.len(),
            forall|j: int| 0 <= j < i ==> (#[trigger] strings@[j])@ != text@,
        decreases strings@.len() - i,
    {
        if same_text(strings[i], text) {
            assert(str_views(strings@)[i as int] == text@);
            return true;
        }
        i += 1;
    }
    assert forall|j: int| 0 <= j < str_views(strings@).len() implies str_views(strings@)[j]
        != text@ by {
        assert(strings@[j]@ != text@);
    }
    false
}

/// Whether text is offered under a mime type.
pub fn is_text_mime_type(mime_type: &str) -> (found: bool)
    ensures
        found == text_mimes().contains(mime_type@),
{
    assert(str_views(TEXT_MIME_TYPES@) =~= text_mimes());
    contains_text(&TEXT_MIME_TYPES, mime_type)
}

/// Whether text is accepted under a mime type.
pub fn is_allowed_text_mime_type(mime_type: &str) -> (found: bool)
    ensures
        found == allowed_text_mimes().contains(mime_type@),
{
    assert(str_views(ALLOWED_TEXT_MIME_TYPES@) =~= allowed_text_mimes());
    contains_text(&ALLOWED_TEXT_MIME_TYPES, mime_type)
}

/// No image format is offered under a mime type of text.
pub proof fn image_mimes_are_not_text(format: ImageFormat)
    ensures
        !text_mimes().contains(format.mime()),
{
    reveal_strlit("text/plain;charset=utf-8");
    reveal_strlit("UTF8_STRING");
    reveal_strlit("text/plain");
    reveal_strlit("image/png");
    reveal_strlit("image/jpeg");
    reveal_strlit("image/webp");
    reveal_strlit("image/gif");
    reveal_strlit("image/svg+xml");
    reveal_strlit("image/bmp");
    reveal_strlit("image/tiff");
    reveal_strlit("image/ico");
    reveal_strlit("image/x-portable-anymap");
    assert(format.mime()[0] == 'i');
    assert(text_mimes()[0][0] == 't');
    assert(text_mimes()[1][0] == 'U');
    assert(text_mimes()[2][0] == 't');
}

/// The mime types under which text is offered are distinct.
pub proof fn text_mimes_are_distinct()
    ensures
        text_mimes().no_duplicates(),
{
    reveal_strlit("text/plain;charset=utf-8");
    reveal_strlit("UTF8_STRING");
    reveal_strlit("text/plain");
    assert(text_mimes()[0].len() == 24);
    assert(text_mimes()[1].len() == 11);
    assert(text_mimes()[2].len() == 10);
}

} // verus!
