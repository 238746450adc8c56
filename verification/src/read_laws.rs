//! What is read of an offer, whatever the other program replies.

use vstd::prelude::*;
use vstd::utf8::{encode_utf8_decode_utf8, encode_utf8_valid_utf8};
use crate::item::{
    format_order, item_text, mime_type_names_its_format, EntryModel, ImageFormat, FORMAT_COUNT,
};
use crate::mime::{image_mimes_are_not_text, text_mimes};
use crate::offer::{
    first_step, first_text_mime, image_item, image_step, next_format, next_step, text_item,
    ReadStage, StepModel,
};
use crate::store::{first_image, SendModel, StoreModel};
use crate::text::{has_crlf, lemma_nothing_to_replace, replaced};

verus! {

/// How many more replies a step can lead to.
pub open spec fn steps_left(step: StepModel) -> int {
    match step {
        StepModel::Done(_) => 0,
        StepModel::Receive { stage: ReadStage::Text, .. } => FORMAT_COUNT + 1,
        StepModel::Receive { stage: ReadStage::Image(format), .. } => FORMAT_COUNT
            - format.rank(),
    }
}

/// The identifier of a reply, when there is one.
pub open spec fn reply_id(ids: spec_fn(Seq<u8>) -> u64, reply: Option<Seq<u8>>) -> u64 {
    match reply {
        Some(bytes) => ids(bytes),
        None => 0,
    }
}

/// What is read of an offer from a step on, when the other program replies to a request for a
/// mime type with `replies` of it.
pub open spec fn outcome(
    mimes: Seq<Seq<char>>,
    replies: spec_fn(Seq<char>) -> Option<Seq<u8>>,
    ids: spec_fn(Seq<u8>) -> u64,
    step: StepModel,
) -> Option<Seq<EntryModel>>
    decreases steps_left(step),
{
    match step {
        StepModel::Done(item) => item,
        StepModel::Receive { mime, stage } => {
            proof {
                reading_comes_to_an_end(mimes, stage, replies(mime), reply_id(ids, replies(mime)));
            }
            outcome(
                mimes,
                replies,
                ids,
                next_step(mimes, stage, replies(mime), reply_id(ids, replies(mime))),
            )
        },
    }
}

/// The text of an offer, when it offers text, and text comes.
pub open spec fn text_read(
    mimes: Seq<Seq<char>>,
    replies: spec_fn(Seq<char>) -> Option<Seq<u8>>,
) -> Option<Seq<EntryModel>> {
    match first_text_mime(mimes) {
        Some(mime) => match replies(mime) {
            Some(bytes) => text_item(bytes),
            None => None,
        },
        None => None,
    }
}

/// The first image of an offer, in the order of preference from a place on, that is offered and
/// comes.
pub open spec fn image_read(
    mimes: Seq<Seq<char>>,
    replies: spec_fn(Seq<char>) -> Option<Seq<u8>>,
    ids: spec_fn(Seq<u8>) -> u64,
    from: int,
) -> Option<Seq<EntryModel>>
    decreases FORMAT_COUNT - from,
{
    if from < 0 || from >= FORMAT_COUNT {
        None
    } else {
        let format = format_order()[from];
        match replies(format.mime()) {
            Some(bytes) if mimes.contains(format.mime()) => Some(
                image_item(format, bytes, ids(bytes)),
            ),
            _ => image_read(mimes, replies, ids, from + 1),
        }
    }
}

proof fn lemma_next_format_is_later(mimes: Seq<Seq<char>>, from: int)
    requires
        0 <= from,
    ensures
        next_format(mimes, from) matches Some(format) ==> format.rank() >= from,
    decreases FORMAT_COUNT - from,
{
    if from < FORMAT_COUNT && !mimes.contains(format_order()[from].mime()) {
        lemma_next_format_is_later(mimes, from + 1);
    }
}

/// Whatever the other program replies, fewer replies can follow than before: reading an offer
/// takes at most one reply for the text and one for each image format.
pub proof fn reading_comes_to_an_end(
    mimes: Seq<Seq<char>>,
    stage: ReadStage,
    reply: Option<Seq<u8>>,
    id: u64,
)
    ensures
        0 <= steps_left(next_step(mimes, stage, reply, id)) < steps_left(
            StepModel::Receive { mime: Seq::empty(), stage },
        ) <= FORMAT_COUNT + 1,
{
    lemma_next_format_is_later(mimes, 0);
    match stage {
        ReadStage::Text => {},
        ReadStage::Image(format) => {
            lemma_next_format_is_later(mimes, format.rank() + 1);
        },
    }
}

proof fn lemma_images_are_tried_in_order(
    mimes: Seq<Seq<char>>,
    replies: spec_fn(Seq<char>) -> Option<Seq<u8>>,
    ids: spec_fn(Seq<u8>) -> u64,
    from: int,
)
    requires
        0 <= from,
    ensures
        outcome(mimes, replies, ids, image_step(mimes, from)) == image_read(
            mimes,
            replies,
            ids,
            from,
        ),
    decreases FORMAT_COUNT - from,
{
    if from < FORMAT_COUNT {
        lemma_images_are_tried_in_order(mimes, replies, ids, from + 1);
        let format = format_order()[from];
        if mimes.contains(format.mime()) {
            let reply = replies(format.mime());
            let step = image_step(mimes, from);
            assert(step == (StepModel::Receive {
                mime: format.mime(),
                stage: ReadStage::Image(format),
            }));
            assert(format.rank() == from);
            assert(outcome(mimes, replies, ids, step) == outcome(
                mimes,
                replies,
                ids,
                next_step(mimes, ReadStage::Image(format), reply, reply_id(ids, reply)),
            ));
        } else {
            assert(image_step(mimes, from) == image_step(mimes, from + 1));
        }
    }
}

/// An offer is read as text when it offers text and text comes, and else as the first image, in
/// the order of preference, that it offers and that comes.
pub proof fn offers_are_read_as_text_first(
    mimes: Seq<Seq<char>>,
    replies: spec_fn(Seq<char>) -> Option<Seq<u8>>,
    ids: spec_fn(Seq<u8>) -> u64,
)
    ensures
        outcome(mimes, replies, ids, first_step(mimes)) == match text_read(mimes, replies) {
            Some(item) => Some(item),
            None => image_read(mimes, replies, ids, 0),
        },
{
    lemma_images_are_tried_in_order(mimes, replies, ids, 0);
    match first_text_mime(mimes) {
        Some(mime) => {
            let reply = replies(mime);
            let step = first_step(mimes);
            assert(outcome(mimes, replies, ids, step) == outcome(
                mimes,
                replies,
                ids,
                next_step(mimes, ReadStage::Text, reply, reply_id(ids, reply)),
            ));
        },
        None => {},
    }
}

/// What one program sends of its text, another reads as that text with line feeds for the ends
/// of its lines: as the same text, when they were line feeds alone.
pub proof fn text_survives_a_transfer<Fd, Token>(
    store: StoreModel<Fd, Token>,
    source_id: u128,
    mime: Seq<char>,
    text: Seq<char>,
)
    requires
        store.item(source_id) matches Some(item) && item_text(item) == Some(text),
        text_mimes().contains(mime),
    ensures
        store.send_data(source_id, mime) matches SendModel::Ready(bytes) && text_item(bytes)
            == Some(
            seq![EntryModel::Text { text: replaced(text, "\r\n"@, "\n"@), metadata: None }],
        ),
        !has_crlf(text) ==> replaced(text, "\r\n"@, "\n"@) == text,
{
    encode_utf8_valid_utf8(text);
    encode_utf8_decode_utf8(text);
    if !has_crlf(text) {
        lemma_nothing_to_replace(text);
    }
}

/// What one program sends of an image, another reads as the same image.
pub proof fn an_image_survives_a_transfer<Fd, Token>(
    store: StoreModel<Fd, Token>,
    source_id: u128,
    format: ImageFormat,
    mimes: Seq<Seq<char>>,
    id: u64,
)
    requires
        store.item(source_id) matches Some(item) && first_image(item, format) is Some,
    ensures
        store.send_data(source_id, format.mime()) matches SendModel::Ready(bytes) && {
            &&& first_image(store.item(source_id)->0, format) == Some(bytes)
            &&& next_step(mimes, ReadStage::Image(format), Some(bytes), id) == StepModel::Done(
                Some(image_item(format, bytes, id)),
            )
        },
{
    image_mimes_are_not_text(format);
    mime_type_names_its_format(format);
}

} // verus!
