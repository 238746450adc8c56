//! What the items of a clipboard hold, and under which names they are exchanged.

use vstd::arithmetic::power::{lemma_pow0, pow};
use vstd::prelude::*;
use vstd::utf8::{
    decode_utf8_encode_utf8, encode_utf8, encode_utf8_decode_utf8, encode_utf8_valid_utf8,
};
use crate::ids::{
    id_text, lemma_prefix_extends, lemma_top_of_range, primary_self_mime_of, self_mime_of,
};
use crate::item::{
    format_of_mime, format_order, joined_text, ClipboardEntry, ClipboardItem, EntryModel, Image,
    ImageFormat, ImageModel,
};
use crate::mime::{
    allowed_text_mimes, is_allowed_text_mime_type, is_text_mime_type, str_views, string_views,
    text_mimes,
};
use crate::png::{is_png, png_dimensions, starts_as_png};
use crate::text::{
    has_crlf, lemma_nothing_to_replace, lemma_replaced_joins, replaced, utf8_text, with_line_feeds,
};

verus! {

/// The value of an item has one entry for each of its entries, with the same contents.
pub proof fn the_value_of_an_item_is_all_of_it(item: ClipboardItem)
    ensures
        item@.len() == item.entries@.len(),
        forall|i: int|
            0 <= i < item.entries@.len() ==> match #[trigger] item.entries@[i] {
                ClipboardEntry::String(string) => {
                    &&& item@[i] matches EntryModel::Text { text, metadata }
                    &&& text == string.text@
                    &&& string.metadata matches Some(kept) ==> metadata == Some(kept@)
                    &&& string.metadata is None ==> metadata is None
                },
                ClipboardEntry::Image(image) => {
                    &&& item@[i] matches EntryModel::Image(value)
                    &&& value.format == image.format
                    &&& value.bytes == image.bytes@
                    &&& value.id == image.id
                },
            },
{
}

/// An item of one text holds that text, and nothing beside it.
pub proof fn a_new_string_holds_its_text(text: String, item: ClipboardItem)
    requires
        call_ensures(ClipboardItem::new_string, (text,), item),
    ensures
        item@.len() == 1,
        item@[0] matches EntryModel::Text { text: held, metadata } && held == text@
            && metadata is None,
{
}

/// An item of one image holds that image, whole.
pub proof fn a_new_image_holds_its_bytes(image: Image, item: ClipboardItem)
    requires
        call_ensures(ClipboardItem::new_image, (&image,), item),
    ensures
        item@.len() == 1,
        item@[0] matches EntryModel::Image(held) && held.format == image.format && held.bytes
            == image.bytes@ && held.id == image.id,
{
}

/// A copy of an image has the same bytes.
pub proof fn a_copy_of_an_image_is_the_same(image: Image, copy: Image)
    requires
        call_ensures(Image::clone, (&image,), copy),
    ensures
        copy.format == image.format,
        copy.bytes@ == image.bytes@,
        copy.id == image.id,
{
}

/// A copy of an item has the same entries.
pub proof fn a_copy_of_an_item_is_the_same(item: ClipboardItem, copy: ClipboardItem)
    requires
        call_ensures(ClipboardItem::clone, (&item,), copy),
    ensures
        copy@.len() == item@.len(),
        forall|i: int| 0 <= i < item@.len() ==> #[trigger] copy@[i] == item@[i],
{
}

/// The text of two items behind one another is their texts behind one another. An entry of text
/// counts with all of its text, and an image with none.
pub proof fn texts_are_joined(a: Seq<EntryModel>, b: Seq<EntryModel>)
    ensures
        joined_text(a + b) == joined_text(a) + joined_text(b),
        joined_text(Seq::empty()) == Seq::<char>::empty(),
        forall|text: Seq<char>, metadata: Option<Seq<char>>|
            #[trigger] joined_text(seq![EntryModel::Text { text, metadata }]) == text,
        forall|image: ImageModel|
            #[trigger] joined_text(seq![EntryModel::Image(image)]) == Seq::<char>::empty(),
    decreases b.len(),
{
    assert forall|text: Seq<char>, metadata: Option<Seq<char>>|
        #[trigger] joined_text(seq![EntryModel::Text { text, metadata }]) == text by {
        let one = seq![EntryModel::Text { text, metadata }];
        assert(joined_text(one.drop_last()) == Seq::<char>::empty());
        assert(joined_text(one) =~= text);
    }
    assert forall|image: ImageModel|
        #[trigger] joined_text(seq![EntryModel::Image(image)]) == Seq::<char>::empty() by {
        let one = seq![EntryModel::Image(image)];
        assert(joined_text(one.drop_last()) == Seq::<char>::empty());
        assert(joined_text(one) =~= Seq::<char>::empty());
    }
    if b.len() == 0 {
        assert(a + b =~= a);
        assert(joined_text(a) + joined_text(b) =~= joined_text(a));
    } else {
        texts_are_joined(a, b.drop_last());
        assert((a + b).drop_last() =~= a + b.drop_last());
        assert((a + b).last() == b.last());
        assert(joined_text(a + b) =~= joined_text(a) + joined_text(b));
    }
}

/// An item has text exactly when the texts of its entries are not all empty, and then it is
/// those texts.
pub proof fn an_item_gives_its_joined_text(item: ClipboardItem, text: Option<String>)
    requires
        call_ensures(ClipboardItem::text, (&item,), text),
    ensures
        text is Some <==> joined_text(item@).len() > 0,
        text matches Some(text) ==> text@ == joined_text(item@),
{
}

/// The mime types of text.
pub proof fn text_goes_by_three_names(mime: &str, is_text: bool, is_allowed: bool)
    requires
        call_ensures(is_text_mime_type, (mime,), is_text),
        call_ensures(is_allowed_text_mime_type, (mime,), is_allowed),
    ensures
        is_text <==> mime@ == "text/plain;charset=utf-8"@ || mime@ == "UTF8_STRING"@ || mime@
            == "text/plain"@,
        is_allowed <==> mime@ == "text/plain;charset=utf-8"@ || mime@ == "UTF8_STRING"@,
{
    text_names(mime@);
}

/// The mime types under which text is offered are three, of which two are accepted.
pub proof fn text_names(mime: Seq<char>)
    ensures
        text_mimes().contains(mime) <==> mime == "text/plain;charset=utf-8"@ || mime
            == "UTF8_STRING"@ || mime == "text/plain"@,
        allowed_text_mimes().contains(mime) <==> mime == "text/plain;charset=utf-8"@ || mime
            == "UTF8_STRING"@,
        text_mimes().len() == 3,
        text_mimes()[0] == "text/plain;charset=utf-8"@,
        text_mimes()[1] == "UTF8_STRING"@,
        text_mimes()[2] == "text/plain"@,
{
    assert(text_mimes()[0] == "text/plain;charset=utf-8"@);
    assert(text_mimes()[1] == "UTF8_STRING"@);
    assert(text_mimes()[2] == "text/plain"@);
    assert(allowed_text_mimes()[0] == "text/plain;charset=utf-8"@);
    assert(allowed_text_mimes()[1] == "UTF8_STRING"@);
}

/// The mime types of images: each format has one of its own, and two go by a second name too.
pub proof fn images_go_by_these_names(
    format: ImageFormat,
    own: &'static str,
    mime: &str,
    named: Option<ImageFormat>,
)
    requires
        call_ensures(ImageFormat::mime_type, (format,), own),
        call_ensures(ImageFormat::from_mime_type, (mime,), named),
    ensures
        own@ == format.mime(),
        named == format_of_mime(mime@),
        own@ == match format {
            ImageFormat::Png => "image/png"@,
            ImageFormat::Jpeg => "image/jpeg"@,
            ImageFormat::Webp => "image/webp"@,
            ImageFormat::Gif => "image/gif"@,
            ImageFormat::Svg => "image/svg+xml"@,
            ImageFormat::Bmp => "image/bmp"@,
            ImageFormat::Tiff => "image/tiff"@,
            ImageFormat::Ico => "image/ico"@,
            ImageFormat::Pnm => "image/x-portable-anymap"@,
        },
        named == Some(format) ==> mime@ == own@ || (format == ImageFormat::Jpeg && mime@
            == "image/jpg"@) || (format == ImageFormat::Tiff && mime@ == "image/tif"@),
        mime@ == own@ ==> named == Some(format),
        mime@ == "image/jpg"@ ==> named == Some(ImageFormat::Jpeg),
        mime@ == "image/tif"@ ==> named == Some(ImageFormat::Tiff),
{
    crate::item::mime_type_names_its_format(format);
    crate::item::mime_type_names_its_format(ImageFormat::Png);
    reveal_strlit("image/jpg");
    reveal_strlit("image/tif");
    reveal_strlit("image/png");
    reveal_strlit("image/jpeg");
    reveal_strlit("image/webp");
    reveal_strlit("image/gif");
    reveal_strlit("image/svg+xml");
    reveal_strlit("image/bmp");
    reveal_strlit("image/tiff");
    reveal_strlit("image/ico");
    reveal_strlit("image/x-portable-anymap");
    assert("image/jpg"@[6] == 'j');
    assert("image/tif"@[6] == 't');
    assert("image/png"@[6] == 'p');
    assert("image/gif"@[6] == 'g');
    assert("image/bmp"@[6] == 'b');
}

/// The formats are tried in one order, each at one place.
pub proof fn formats_stand_in_one_order(
    format: ImageFormat,
    index: usize,
    place: usize,
    at: Option<ImageFormat>,
)
    requires
        call_ensures(ImageFormat::at, (place,), at),
        call_ensures(ImageFormat::index, (format,), index),
    ensures
        index == format.rank(),
        format_order().len() == 9,
        0 <= format.rank() < 9,
        format_order()[format.rank()] == format,
        at == Some(format) <==> place == format.rank(),
        at is None <==> place >= 9,
        ImageFormat::Png.rank() < ImageFormat::Jpeg.rank() < ImageFormat::Webp.rank()
            < ImageFormat::Gif.rank() < ImageFormat::Svg.rank() < ImageFormat::Bmp.rank()
            < ImageFormat::Tiff.rank() < ImageFormat::Ico.rank() < ImageFormat::Pnm.rank(),
{
}

/// The value of a list of texts has the value of each at its place.
pub proof fn lists_of_texts_are_viewed_in_place(strings: Seq<String>, strs: Seq<&'static str>)
    ensures
        string_views(strings).len() == strings.len(),
        str_views(strs).len() == strs.len(),
        forall|i: int|
            0 <= i < strings.len() ==> #[trigger] string_views(strings)[i] == strings[i]@,
        forall|i: int| 0 <= i < strs.len() ==> #[trigger] str_views(strs)[i] == strs[i]@,
{
}

/// The position of a hexadecimal digit of an identifier in its text.
pub open spec fn digit_position(place: int) -> int {
    if place < 8 {
        place
    } else if place < 12 {
        place + 1
    } else if place < 16 {
        place + 2
    } else if place < 20 {
        place + 3
    } else {
        place + 4
    }
}

/// The number that the first so many hexadecimal digits of a text of an identifier spell.
pub open spec fn spelled(text: Seq<char>, places: nat) -> int
    decreases places,
{
    if places == 0 {
        0
    } else {
        16 * spelled(text, (places - 1) as nat) + "0123456789abcdef"@.index_of(
            text[digit_position(places - 1)],
        )
    }
}

proof fn lemma_spelled_prefix(id: u128, places: nat)
    requires
        places <= 32,
    ensures
        spelled(id_text(id), places) == id as int / pow(16, (32 - places) as nat),
    decreases places,
{
    if places == 0 {
        lemma_top_of_range();
        vstd::arithmetic::div_mod::lemma_basic_div(id as int, pow(16, 32));
    } else {
        let place = places - 1;
        lemma_spelled_prefix(id, place as nat);
        lemma_prefix_extends(id, place);
        let digits = "0123456789abcdef"@;
        reveal_strlit("0123456789abcdef");
        let value = crate::ids::nibble(id, place);
        assert(id_text(id)[digit_position(place)] == digits[value]);
        assert(digits.contains(digits[value]));
        let found = digits.index_of(digits[value]);
        assert(digits[found] == digits[value]);
        assert(found == value);
    }
}

/// The text of an identifier is 36 characters long, has hyphens at four places, and its other
/// characters spell the identifier in hexadecimal digits.
pub proof fn the_text_of_an_identifier_spells_it(id: u128)
    ensures
        id_text(id).len() == 36,
        id_text(id)[8] == '-' && id_text(id)[13] == '-' && id_text(id)[18] == '-' && id_text(
            id,
        )[23] == '-',
        forall|place: int|
            0 <= place < 32 ==> "0123456789abcdef"@.contains(
                #[trigger] id_text(id)[digit_position(place)],
            ),
        spelled(id_text(id), 32) == id,
{
    lemma_spelled_prefix(id, 32);
    lemma_pow0(16);
    reveal_strlit("0123456789abcdef");
    assert forall|place: int| 0 <= place < 32 implies "0123456789abcdef"@.contains(
        #[trigger] id_text(id)[digit_position(place)],
    ) by {
        let value = crate::ids::nibble(id, place);
        assert(id_text(id)[digit_position(place)] == "0123456789abcdef"@[value]);
    }
}

/// The marks of a program: a fixed beginning, the nonce, and for a source the source.
pub proof fn marks_are_made_of_nonce_and_source(
    nonce: u128,
    source_id: u128,
    mark: String,
    primary: String,
)
    requires
        call_ensures(self_mime_of, (nonce, source_id), mark),
        call_ensures(primary_self_mime_of, (nonce,), primary),
    ensures
        mark@.len() == 101,
        mark@.take(28) == "application/x-zed-clipboard-"@,
        mark@.subrange(28, 64) == id_text(nonce),
        mark@[64] == '-',
        mark@.skip(65) == id_text(source_id),
        primary@.len() == 62,
        primary@.take(26) == "application/x-zed-primary-"@,
        primary@.skip(26) == id_text(nonce),
{
    reveal_strlit("application/x-zed-clipboard-");
    reveal_strlit("application/x-zed-primary-");
    reveal_strlit("-");
    assert(mark@.take(28) =~= "application/x-zed-clipboard-"@);
    assert(mark@.subrange(28, 64) =~= id_text(nonce));
    assert(mark@.skip(65) =~= id_text(source_id));
    assert(primary@.take(26) =~= "application/x-zed-primary-"@);
    assert(primary@.skip(26) =~= id_text(nonce));
}

/// Wherever a carriage return and a line feed stand in a text, a line feed takes their place; a
/// text without them stays as it is.
pub proof fn only_line_ends_are_replaced(
    head: Seq<char>,
    tail: Seq<char>,
    text: &str,
    result: String,
)
    requires
        call_ensures(with_line_feeds, (text,), result),
    ensures
        result@ == replaced(text@, "\r\n"@, "\n"@),
        !has_crlf(text@) ==> result@ == text@,
        replaced(head + seq!['\r', '\n'] + tail, "\r\n"@, "\n"@) == replaced(
            head,
            "\r\n"@,
            "\n"@,
        ) + seq!['\n'] + replaced(tail, "\r\n"@, "\n"@),
{
    if !has_crlf(text@) {
        lemma_nothing_to_replace(text@);
    }
    lemma_replaced_joins(head, tail);
    reveal_strlit("\r\n");
    reveal_strlit("\n");
    assert("\r\n"@ =~= seq!['\r', '\n']);
    assert("\n"@ =~= seq!['\n']);
}

/// Bytes are read as a text exactly when they encode that text.
pub proof fn text_is_what_bytes_encode(bytes: Seq<u8>, text: Seq<char>)
    ensures
        utf8_text(bytes) == Some(text) <==> bytes == encode_utf8(text),
        utf8_text(bytes) is Some ==> bytes == encode_utf8(utf8_text(bytes)->0),
{
    encode_utf8_valid_utf8(text);
    encode_utf8_decode_utf8(text);
    if utf8_text(bytes) is Some {
        decode_utf8_encode_utf8(bytes);
    }
}

/// Bytes are taken for a PNG image exactly when the decoder gives dimensions for them, whatever
/// these are.
pub proof fn png_images_are_what_decodes(bytes: Seq<u8>)
    ensures
        is_png(bytes) <==> png_dimensions(bytes, usize::BITS) is Some,
{
}

/// What starts as a PNG image has the signature in its first eight bytes, and width and height
/// in the last eight of its first twenty-four.
pub proof fn a_png_image_starts_with_its_header(bytes: Seq<u8>, width: u32, height: u32)
    requires
        starts_as_png(bytes, width, height),
    ensures
        bytes.len() >= 24,
        bytes[0] == 137 && bytes[1] == 80 && bytes[2] == 78 && bytes[3] == 71,
        bytes[4] == 13 && bytes[5] == 10 && bytes[6] == 26 && bytes[7] == 10,
        width == bytes[16] * 0x1000000 + bytes[17] * 0x10000 + bytes[18] * 0x100 + bytes[19],
        height == bytes[20] * 0x1000000 + bytes[21] * 0x10000 + bytes[22] * 0x100 + bytes[23],
{
    let start = bytes.take(8);
    assert(start[0] == bytes[0] && start[1] == bytes[1] && start[2] == bytes[2] && start[3]
        == bytes[3]);
    assert(start[4] == bytes[4] && start[5] == bytes[5] && start[6] == bytes[6] && start[7]
        == bytes[7]);
}

} // verus!
