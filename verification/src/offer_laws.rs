//! What each step of reading an offer does.

use vstd::prelude::*;
use vstd::utf8::encode_utf8;
use crate::item::{ClipboardItem, EntryModel, ImageFormat, FORMAT_COUNT};
use crate::item_laws::{text_is_what_bytes_encode, text_names};
use crate::offer::{
    first_text_mime, image_step, next_format, next_step, optional_bytes, text_from_bytes,
    DataOffer, ExternalSelection, ReadStage, ReadStep, StepModel,
};
use crate::store::{first_image, SendModel, StoreModel};
use crate::text::with_line_feeds;

verus! {

/// Whether a step asks for the images of an offer, from a place in the order of the formats on:
/// for the first format that is offered, or, where none is, for nothing more.
pub open spec fn asks_for_images(
    mimes: Seq<Seq<char>>,
    from: int,
    step: StepModel,
) -> bool {
    match step {
        StepModel::Receive { mime, stage: ReadStage::Image(format) } => {
            &&& mime == format.mime()
            &&& mimes.contains(mime)
            &&& format.rank() >= from
            &&& forall|better: ImageFormat|
                from <= better.rank() < format.rank() ==> !mimes.contains(
                    #[trigger] better.mime(),
                )
        },
        StepModel::Receive { mime, stage: ReadStage::Text } => false,
        StepModel::Done(item) => {
            &&& item is None
            &&& forall|format: ImageFormat|
                from <= format.rank() ==> !mimes.contains(#[trigger] format.mime())
        },
    }
}

/// Whether text is accepted under a mime type.
pub open spec fn is_accepted_text(mime: Seq<char>) -> bool {
    mime == "text/plain;charset=utf-8"@ || mime == "UTF8_STRING"@
}

/// Whether a step begins to read an offer: with the first mime type of accepted text among those
/// offered, or, where there is none, with the images.
pub open spec fn begins_to_read(mimes: Seq<Seq<char>>, step: StepModel) -> bool {
    if exists|i: int| 0 <= i < mimes.len() && is_accepted_text(#[trigger] mimes[i]) {
        &&& step matches StepModel::Receive { mime, stage }
        &&& stage == ReadStage::Text
        &&& exists|i: int|
            {
                &&& 0 <= i < mimes.len()
                &&& #[trigger] mimes[i] == mime
                &&& is_accepted_text(mime)
                &&& forall|j: int| 0 <= j < i ==> !is_accepted_text(#[trigger] mimes[j])
            }
    } else {
        asks_for_images(mimes, 0, step)
    }
}

pub(crate) proof fn lemma_image_step_asks(mimes: Seq<Seq<char>>, from: int)
    requires
        0 <= from,
    ensures
        asks_for_images(mimes, from, image_step(mimes, from)),
    decreases FORMAT_COUNT - from,
{
    if from < FORMAT_COUNT {
        let format = crate::item::format_order()[from];
        lemma_image_step_asks(mimes, from + 1);
        assert(format.rank() == from);
        assert forall|other: ImageFormat| other.rank() == from implies other == format by {}
        if !mimes.contains(format.mime()) {
            assert(next_format(mimes, from) == next_format(mimes, from + 1));
        }
    } else {
        assert(forall|format: ImageFormat| format.rank() < FORMAT_COUNT);
    }
}

pub(crate) proof fn lemma_first_step_begins(mimes: Seq<Seq<char>>)
    ensures
        begins_to_read(mimes, crate::offer::first_step(mimes)),
{
    lemma_first_text(mimes);
    lemma_image_step_asks(mimes, 0);
}

proof fn lemma_first_text(mimes: Seq<Seq<char>>)
    ensures
        match first_text_mime(mimes) {
            Some(mime) => exists|i: int|
                {
                    &&& 0 <= i < mimes.len()
                    &&& #[trigger] mimes[i] == mime
                    &&& is_accepted_text(mime)
                    &&& forall|j: int| 0 <= j < i ==> !is_accepted_text(#[trigger] mimes[j])
                },
            None => forall|i: int|
                0 <= i < mimes.len() ==> !is_accepted_text(#[trigger] mimes[i]),
        },
    decreases mimes.len(),
{
    if mimes.len() > 0 {
        text_names(mimes[0]);
        let rest = mimes.skip(1);
        lemma_first_text(rest);
        if !is_accepted_text(mimes[0]) {
            match first_text_mime(mimes) {
                Some(mime) => {
                    let k = choose|k: int|
                        {
                            &&& 0 <= k < rest.len()
                            &&& #[trigger] rest[k] == mime
                            &&& is_accepted_text(mime)
                            &&& forall|j: int|
                                0 <= j < k ==> !is_accepted_text(#[trigger] rest[j])
                        };
                    assert(mimes[k + 1] == mime);
                    assert forall|j: int| 0 <= j < k + 1 implies !is_accepted_text(
                        #[trigger] mimes[j],
                    ) by {
                        if j > 0 {
                            assert(rest[j - 1] == mimes[j]);
                        }
                    }
                },
                None => {
                    assert forall|i: int| 0 <= i < mimes.len() implies !is_accepted_text(
                        #[trigger] mimes[i],
                    ) by {
                        if i > 0 {
                            assert(rest[i - 1] == mimes[i]);
                        }
                    }
                },
            }
        } else {
            assert(mimes[0] == first_text_mime(mimes)->0);
        }
    }
}

/// The value of an offer's mime types is each of them, in its place.
pub proof fn the_mime_types_of_an_offer_are_all_of_them<T>(offer: DataOffer<T>)
    ensures
        offer.mimes().len() == offer.mime_types@.len(),
        forall|i: int|
            0 <= i < offer.mime_types@.len() ==> #[trigger] offer.mimes()[i]
                == offer.mime_types@[i]@,
{
}

/// A new offer has no mime types, and each that is noted comes behind the others.
pub proof fn mime_types_are_noted_in_order<T>(
    inner: T,
    fresh: DataOffer<T>,
    offer: &mut DataOffer<T>,
    mime: String,
)
    requires
        call_ensures(DataOffer::<T>::new, (inner,), fresh),
        call_ensures(DataOffer::<T>::add_mime_type, (offer, mime), ()),
    ensures
        fresh.inner == inner,
        fresh.mimes().len() == 0,
        final(offer).inner == old(offer).inner,
        final(offer).mimes().len() == old(offer).mimes().len() + 1,
        final(offer).mimes().drop_last() == old(offer).mimes(),
        final(offer).mimes().last() == mime@,
{
    assert(old(offer).mimes().push(mime@).drop_last() =~= old(offer).mimes());
}

/// A copy of an offer has the same mime types, and a copy of what stands behind it.
pub proof fn a_copy_of_an_offer_is_the_same<T: Clone>(offer: DataOffer<T>, copy: DataOffer<T>)
    requires
        call_ensures(DataOffer::<T>::clone, (&offer,), copy),
    ensures
        cloned(offer.inner, copy.inner),
        copy.mimes().len() == offer.mimes().len(),
        forall|i: int|
            0 <= i < offer.mimes().len() ==> #[trigger] copy.mimes()[i] == offer.mimes()[i],
{
}

/// An offer has a mime type exactly when it was noted.
pub proof fn an_offer_has_what_was_noted<T>(offer: DataOffer<T>, mime: &str, found: bool)
    requires
        call_ensures(DataOffer::<T>::has_mime_type, (&offer, mime), found),
    ensures
        found <==> exists|i: int| 0 <= i < offer.mimes().len() && #[trigger] offer.mimes()[i]
            == mime@,
{
}

/// The value of a step is all of it.
pub proof fn the_value_of_a_step_is_all_of_it(step: ReadStep)
    ensures
        match step {
            ReadStep::Done(item) => {
                &&& step@ matches StepModel::Done(value)
                &&& value is Some <==> item is Some
                &&& item matches Some(item) ==> value == Some(item@)
            },
            ReadStep::Receive { mime_type, stage } => {
                &&& step@ matches StepModel::Receive { mime, stage: value }
                &&& mime == mime_type@
                &&& value == stage
            },
        },
{
}

/// Reading begins with the first mime type of accepted text, or with the images.
pub proof fn reading_begins_with_text<T>(offer: DataOffer<T>, step: ReadStep)
    requires
        call_ensures(DataOffer::<T>::read_text, (&offer,), step),
    ensures
        begins_to_read(offer.mimes(), step@),
{
    lemma_first_step_begins(offer.mimes());
}

/// The images are asked for in their order, from a place on.
pub proof fn images_are_asked_for_in_order<T>(offer: DataOffer<T>, from: usize, step: ReadStep)
    requires
        call_ensures(DataOffer::<T>::read_image, (&offer, from), step),
    ensures
        asks_for_images(offer.mimes(), from as int, step@),
{
    lemma_image_step_asks(offer.mimes(), from as int);
}

/// A text that comes is the item that is read, with line feeds for the ends of its lines; bytes
/// that encode no text give none.
pub proof fn a_text_that_comes_is_read(
    bytes: Vec<u8>,
    item: Option<ClipboardItem>,
    text: &str,
    converted: String,
)
    requires
        call_ensures(text_from_bytes, (bytes,), item),
        call_ensures(with_line_feeds, (text,), converted),
    ensures
        bytes@ == encode_utf8(text@) ==> {
            &&& item matches Some(item)
            &&& item@.len() == 1
            &&& item@[0] matches EntryModel::Text { text: read, metadata }
            &&& read == converted@
            &&& metadata is None
        },
        item is Some ==> exists|sent: Seq<char>| bytes@ == #[trigger] encode_utf8(sent),
{
    text_is_what_bytes_encode(bytes@, text@);
    if item is Some {
        let sent = crate::text::utf8_text(bytes@)->0;
        text_is_what_bytes_encode(bytes@, sent);
        assert(bytes@ == encode_utf8(sent));
    }
}

/// What follows a reply. Text that comes ends the reading as that text. An image that comes ends
/// it as one image of the format that was asked for, with every byte of the reply. Where nothing
/// fit comes, the images are asked for that are left.
pub proof fn a_reply_is_read_whole<T>(
    offer: DataOffer<T>,
    stage: ReadStage,
    reply: Option<Vec<u8>>,
    id: u64,
    step: ReadStep,
    text: &str,
    converted: String,
)
    requires
        call_ensures(DataOffer::<T>::received_as, (&offer, stage, reply, id), step),
        call_ensures(with_line_feeds, (text,), converted),
    ensures
        follows_reply(offer.mimes(), stage, optional_bytes(reply), id, step@, text@, converted@),
        match reply {
            Some(bytes) => optional_bytes(reply) == Some(bytes@),
            None => optional_bytes(reply) is None,
        },
{
    lemma_step_follows_reply(
        offer.mimes(),
        stage,
        optional_bytes(reply),
        id,
        text@,
        converted@,
    );
}

/// Whether a step follows a reply, where `converted` is what `text` is read as.
pub open spec fn follows_reply(
    mimes: Seq<Seq<char>>,
    stage: ReadStage,
    reply: Option<Seq<u8>>,
    id: u64,
    step: StepModel,
    text: Seq<char>,
    converted: Seq<char>,
) -> bool {
    match stage {
        ReadStage::Image(format) => match reply {
            Some(bytes) => is_image_read(format, bytes, id, step),
            None => asks_for_images(mimes, format.rank() + 1, step),
        },
        ReadStage::Text => {
            &&& reply == Some(encode_utf8(text)) ==> {
                &&& step matches StepModel::Done(Some(item))
                &&& item.len() == 1
                &&& item[0] matches EntryModel::Text { text: read, metadata }
                &&& read == converted
                &&& metadata is None
            }
            &&& (reply is None || forall|sent: Seq<char>|
                reply->0 != #[trigger] encode_utf8(sent)) ==> asks_for_images(mimes, 0, step)
        },
    }
}

/// Whether reading is over with one image, of a format and with all of some bytes.
pub open spec fn is_image_read(
    format: ImageFormat,
    bytes: Seq<u8>,
    id: u64,
    step: StepModel,
) -> bool {
    &&& step matches StepModel::Done(Some(item))
    &&& item.len() == 1
    &&& item[0] matches EntryModel::Image(image)
    &&& image.format == format
    &&& image.bytes.len() == bytes.len()
    &&& forall|i: int| 0 <= i < bytes.len() ==> #[trigger] image.bytes[i] == bytes[i]
    &&& image.id == id
}

pub(crate) proof fn lemma_step_follows_reply(
    mimes: Seq<Seq<char>>,
    stage: ReadStage,
    reply: Option<Seq<u8>>,
    id: u64,
    text: Seq<char>,
    converted: Seq<char>,
)
    requires
        converted == crate::text::replaced(text, "\r\n"@, "\n"@),
    ensures
        follows_reply(mimes, stage, reply, id, next_step(mimes, stage, reply, id), text, converted),
{
    lemma_image_step_asks(mimes, 0);
    match stage {
        ReadStage::Image(format) => {
            lemma_image_step_asks(mimes, format.rank() + 1);
        },
        ReadStage::Text => {
            if reply is Some {
                let bytes = reply->0;
                text_is_what_bytes_encode(bytes, text);
                if crate::text::utf8_text(bytes) is Some {
                    let sent = crate::text::utf8_text(bytes)->0;
                    text_is_what_bytes_encode(bytes, sent);
                    assert(bytes == encode_utf8(sent));
                }
            }
        },
    }
}

/// A reply with an identifier taken from it is read in the same way.
pub proof fn a_reply_is_read_whole_under_some_identifier<T>(
    offer: DataOffer<T>,
    stage: ReadStage,
    reply: Option<Vec<u8>>,
    step: ReadStep,
    text: &str,
    converted: String,
)
    requires
        call_ensures(DataOffer::<T>::received, (&offer, stage, reply), step),
        call_ensures(with_line_feeds, (text,), converted),
    ensures
        exists|id: u64| #[trigger]
            follows_reply(
                offer.mimes(),
                stage,
                optional_bytes(reply),
                id,
                step@,
                text@,
                converted@,
            ),
{
    let id = choose|id: u64|
        step@ == #[trigger] next_step(offer.mimes(), stage, optional_bytes(reply), id);
    lemma_step_follows_reply(
        offer.mimes(),
        stage,
        optional_bytes(reply),
        id,
        text@,
        converted@,
    );
}

/// An image that one program sends, another reads with the same bytes.
pub proof fn the_image_read_is_the_image_sent<Fd, Token, T>(
    store: StoreModel<Fd, Token>,
    source_id: u128,
    format: ImageFormat,
    offer: DataOffer<T>,
    reply: Vec<u8>,
    id: u64,
    step: ReadStep,
)
    requires
        store.item(source_id) is Some,
        first_image(store.item(source_id)->0, format) is Some,
        store.send_data(source_id, format.mime()) == SendModel::Ready(reply@),
        call_ensures(
            DataOffer::<T>::received_as,
            (&offer, ReadStage::Image(format), Some(reply), id),
            step,
        ),
    ensures
        step@ matches StepModel::Done(Some(item)) && first_image(item, format) == first_image(
            store.item(source_id)->0,
            format,
        ),
{
    crate::mime::image_mimes_are_not_text(format);
    crate::item::mime_type_names_its_format(format);
    let item = step@->Done_0->0;
    crate::store_laws::the_first_image_is_given(item, format);
    assert(crate::store_laws::is_image_of(item[0], format));
}

/// What a selection remembers of a reading: the item, when one was read, and else what it did.
/// The offer stays.
pub proof fn a_selection_remembers_what_was_read<T>(
    selection: &mut ExternalSelection<T>,
    stage: ReadStage,
    reply: Option<Vec<u8>>,
    step: ReadStep,
)
    requires
        call_ensures(ExternalSelection::<T>::received, (selection, stage, reply), step),
    ensures
        final(selection).current_offer == old(selection).current_offer,
        old(selection).current_offer is None ==> step@ == StepModel::Done(None),
        old(selection).current_offer matches Some(offer) ==> exists|id: u64|
            step@ == #[trigger] next_step(offer.mimes(), stage, optional_bytes(reply), id),
        step@ matches StepModel::Done(Some(item)) ==> (final(selection).cached_read matches Some(
            kept,
        ) && kept@ == item),
        !(step@ matches StepModel::Done(Some(_))) ==> crate::offer::optional_item(
            final(selection).cached_read,
        ) == crate::offer::optional_item(old(selection).cached_read),
{
    let id = choose|id: u64|
        step@ == #[trigger] crate::clipboard::selection_step(
            *old(selection),
            stage,
            optional_bytes(reply),
            id,
        );
    if old(selection).current_offer is Some {
        let offer = old(selection).current_offer->0;
        assert(step@ == next_step(offer.mimes(), stage, optional_bytes(reply), id));
    }
}

/// A new selection has no offer. One that is put in takes the place of the other, and what was
/// read of that is forgotten.
pub proof fn an_offer_takes_the_place_of_the_other<T>(
    fresh: ExternalSelection<T>,
    selection: &mut ExternalSelection<T>,
    offer: Option<DataOffer<T>>,
)
    requires
        call_ensures(ExternalSelection::<T>::new, (), fresh),
        call_ensures(ExternalSelection::<T>::set_offer, (selection, offer), ()),
    ensures
        fresh.current_offer is None,
        fresh.cached_read is None,
        final(selection).current_offer == offer,
        final(selection).cached_read is None,
{
}

/// The value of an optional item is that of the item.
pub proof fn optional_items_have_the_value_of_the_item(item: Option<ClipboardItem>)
    ensures
        match item {
            Some(item) => crate::offer::optional_item(Some(item)) == Some(item@),
            None => crate::offer::optional_item(None) is None,
        },
{
}

} // verus!
