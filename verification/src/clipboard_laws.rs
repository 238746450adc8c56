//! What a program finds on a clipboard that it wrote itself, and what it remembers of others.

use vstd::prelude::*;
use vstd::utf8::encode_utf8;
use crate::clipboard::{
    bytes_queued, bytes_refused, cached_after, empty_text, selection_step, BytesAction, Clipboard,
};
use crate::ids::{
    is_random_id, primary_self_mime_of, primary_self_mime_text, self_mime_identifies_the_program,
    self_mime_identifies_the_source, self_mime_of, self_mime_text,
};
use crate::item::{format_of_mime, joined_text, ClipboardItem, EntryModel};
use crate::mime::{str_views, text_mimes};
use crate::offer::{
    first_step, optional_bytes, optional_item, DataOffer, ExternalSelection, ReadStage, ReadStep,
    StepModel,
};
use crate::offer_laws::{
    begins_to_read, follows_reply, lemma_first_step_begins, lemma_step_follows_reply,
};
use crate::png::png_dimensions;
use crate::source_laws::{a_passing_source_leaves_no_trace, offered_mime_types_can_be_sent};
use crate::sources::{
    ClipboardSources, ClipboardTransferState, DeferredClipboardImageError, SendData,
};
use crate::store::{ready_source, DataModel, StoreModel};
use crate::store_laws::{
    came_in, has_promised, has_room, is_gone, lemma_listed_are_listed, listed_went_out,
    lost_its_promise, same_other_sources, same_other_transfers,
};
use crate::text::{replaced, with_line_feeds};
use crate::transfer_laws::{are_tokens_of_listed, lemma_fulfillment_settles, settles, writes};
use crate::transfers::{
    after_fulfillment, tokens_of, DropReason, Fulfillment, QueueAction, SendAction,
};

verus! {

/// No mark of a program stands among the mime types under which a source is offered.
pub proof fn marks_are_not_offered_as_data<Fd, Token>(
    store: StoreModel<Fd, Token>,
    source_id: u128,
    nonce: u128,
    marked: u128,
)
    ensures
        !store.offered_mimes(source_id).contains(self_mime_text(nonce, marked)),
{
    let mark = self_mime_text(nonce, marked);
    if store.offered_mimes(source_id).contains(mark) {
        offered_mime_types_can_be_sent(store, source_id, mark);
        reveal_strlit("application/x-zed-clipboard-");
        assert(mark[0] == 'a');
        reveal_strlit("text/plain;charset=utf-8");
        reveal_strlit("UTF8_STRING");
        reveal_strlit("text/plain");
        reveal_strlit("image/png");
        reveal_strlit("image/jpeg");
        reveal_strlit("image/jpg");
        reveal_strlit("image/webp");
        reveal_strlit("image/gif");
        reveal_strlit("image/svg+xml");
        reveal_strlit("image/bmp");
        reveal_strlit("image/tiff");
        reveal_strlit("image/tif");
        reveal_strlit("image/ico");
        reveal_strlit("image/x-portable-anymap");
        assert(!text_mimes().contains(mark));
        assert(format_of_mime(mark) is None);
    }
}

/// Bytes that are sent for no source leave no trace: neither when they are refused, nor once
/// their transfer has ended.
pub proof fn sent_bytes_leave_no_trace<Fd, Token>(
    store: StoreModel<Fd, Token>,
    source_id: u128,
    transfer_id: u128,
    fd: Fd,
    timeout: Token,
    writer: Token,
)
    requires
        !store.sources.contains_key(source_id),
        !store.transfers.contains_key(transfer_id),
    ensures
        bytes_refused(store, source_id) == store,
        ({
            let queued = bytes_queued(store, source_id, transfer_id, fd);
            let writing = queued.with_timeout_token(transfer_id, timeout).sending(
                transfer_id,
            ).with_write_token(transfer_id, writer);
            &&& queued.waiting_fd(transfer_id) == Some(fd)
            &&& queued.cancelled(source_id) == store
            &&& writing.without_transfer(transfer_id) == store
        }),
{
    assert(bytes_refused(store, source_id) =~= store);
    a_passing_source_leaves_no_trace(
        store,
        source_id,
        transfer_id,
        empty_text(),
        fd,
        timeout,
        writer,
    );
}

/// A program that reads its own offer finds the item that it put there: the offer carries the
/// mark of the source and the mime types of the source's data, and nothing is remembered of it
/// yet.
pub proof fn an_own_offer_is_read_as_its_item<Fd, Token, Offer, PrimaryOffer>(
    clipboard: Clipboard<Fd, Token, Offer, PrimaryOffer>,
    source_id: u128,
    item: Seq<EntryModel>,
    retire_when_idle: bool,
    before: StoreModel<Fd, Token>,
    step: StepModel,
)
    requires
        clipboard.sources@ == before.with_source(source_id, ready_source(item, retire_when_idle)),
        clipboard.selection.cached_read is None,
        clipboard.selection.current_offer matches Some(offer) && {
            &&& offer.mimes().contains(self_mime_text(clipboard.self_mime_nonce, source_id))
            &&& forall|mime: Seq<char>| #[trigger]
                offer.mimes().contains(mime) ==> mime == self_mime_text(
                    clipboard.self_mime_nonce,
                    source_id,
                ) || clipboard.sources@.offered_mimes(source_id).contains(mime)
        },
        clipboard.reads(step),
    ensures
        step == StepModel::Done(Some(item)),
{
    let mimes = clipboard.selection.current_offer->0.mimes();
    let nonce = clipboard.self_mime_nonce;
    assert(clipboard.marks(mimes, source_id));
    let found = choose|found: u128| #[trigger]
        clipboard.marks(mimes, found) && step == StepModel::Done(clipboard.sources@.item(found));
    marks_are_not_offered_as_data(clipboard.sources@, source_id, nonce, found);
    self_mime_identifies_the_source(nonce, source_id, found);
}

/// What a program with another nonce offers is never taken for this program's own, whatever
/// sources the two have.
pub proof fn an_offer_of_another_program_is_not_own<Fd, Token, Offer, PrimaryOffer>(
    clipboard: Clipboard<Fd, Token, Offer, PrimaryOffer>,
    other: Clipboard<Fd, Token, Offer, PrimaryOffer>,
    source_id: u128,
    step: StepModel,
)
    requires
        clipboard.self_mime_nonce != other.self_mime_nonce,
        clipboard.selection.cached_read is None,
        clipboard.selection.current_offer matches Some(offer) && forall|mime: Seq<char>| #[trigger]
            offer.mimes().contains(mime) ==> mime == self_mime_text(
                other.self_mime_nonce,
                source_id,
            ) || other.sources@.offered_mimes(source_id).contains(mime),
        clipboard.reads(step),
    ensures
        step == first_step(clipboard.selection.current_offer->0.mimes()),
{
    let mimes = clipboard.selection.current_offer->0.mimes();
    assert forall|own: u128| !clipboard.marks(mimes, own) by {
        if clipboard.marks(mimes, own) {
            let nonce = clipboard.self_mime_nonce;
            marks_are_not_offered_as_data(other.sources@, source_id, nonce, own);
            self_mime_identifies_the_program(nonce, other.self_mime_nonce, own, source_id);
        }
    }
}

/// What was read of an offer is remembered: until another offer comes, it is read again without
/// a request to the program that offers.
pub proof fn what_was_read_is_remembered<Fd, Token, Offer, PrimaryOffer>(
    before: Clipboard<Fd, Token, Offer, PrimaryOffer>,
    after: Clipboard<Fd, Token, Offer, PrimaryOffer>,
    stage: ReadStage,
    reply: Option<Seq<u8>>,
    id: u64,
    item: Seq<EntryModel>,
    step: StepModel,
)
    requires
        selection_step(before.selection, stage, reply, id) == StepModel::Done(Some(item)),
        after.selection.current_offer == before.selection.current_offer,
        optional_item(after.selection.cached_read) == cached_after(
            optional_item(before.selection.cached_read),
            selection_step(before.selection, stage, reply, id),
        ),
        after.reads(step),
    ensures
        step == StepModel::Done(Some(item)),
{
}

/// What was read of the primary selection is remembered in the same way.
pub proof fn what_was_read_of_primary_is_remembered<Fd, Token, Offer, PrimaryOffer>(
    before: Clipboard<Fd, Token, Offer, PrimaryOffer>,
    after: Clipboard<Fd, Token, Offer, PrimaryOffer>,
    stage: ReadStage,
    reply: Option<Seq<u8>>,
    id: u64,
    item: Seq<EntryModel>,
)
    requires
        selection_step(before.primary_selection, stage, reply, id) == StepModel::Done(Some(item)),
        after.primary_selection.current_offer == before.primary_selection.current_offer,
        optional_item(after.primary_selection.cached_read) == cached_after(
            optional_item(before.primary_selection.cached_read),
            selection_step(before.primary_selection, stage, reply, id),
        ),
    ensures
        after.reads_primary() == StepModel::Done(Some(item)),
{
}

/// Whether everything but the sources stayed.
pub open spec fn only_sources_changed<Fd, Token, Offer, PrimaryOffer>(
    before: Clipboard<Fd, Token, Offer, PrimaryOffer>,
    after: Clipboard<Fd, Token, Offer, PrimaryOffer>,
) -> bool {
    &&& after.self_mime_nonce == before.self_mime_nonce
    &&& after.primary_contents == before.primary_contents
    &&& after.selection.current_offer == before.selection.current_offer
    &&& after.selection.cached_read == before.selection.cached_read
    &&& after.primary_selection.current_offer == before.primary_selection.current_offer
    &&& after.primary_selection.cached_read == before.primary_selection.cached_read
}

/// A new clipboard holds nothing, and marks its sources with the number that it was given.
pub proof fn a_new_clipboard_is_empty<Fd, Token, Offer, PrimaryOffer>(
    nonce: u128,
    given: Clipboard<Fd, Token, Offer, PrimaryOffer>,
    drawn: Clipboard<Fd, Token, Offer, PrimaryOffer>,
    id: u128,
)
    requires
        call_ensures(Clipboard::<Fd, Token, Offer, PrimaryOffer>::with_nonce, (nonce,), given),
        call_ensures(Clipboard::<Fd, Token, Offer, PrimaryOffer>::new, (), drawn),
    ensures
        given.self_mime_nonce == nonce,
        is_random_id(drawn.self_mime_nonce),
        !given.sources@.sources.contains_key(id) && !given.sources@.transfers.contains_key(id),
        !drawn.sources@.sources.contains_key(id) && !drawn.sources@.transfers.contains_key(id),
        given.primary_contents is None && drawn.primary_contents is None,
        given.selection.current_offer is None && given.selection.cached_read is None,
        drawn.selection.current_offer is None && drawn.selection.cached_read is None,
        given.primary_selection.current_offer is None && given.primary_selection.cached_read
            is None,
        drawn.primary_selection.current_offer is None && drawn.primary_selection.cached_read
            is None,
{
}

/// An item that is put on the clipboard is held by its source, and a promise is made by one;
/// nothing else changes.
pub proof fn an_item_is_put_on_the_clipboard<Fd, Token, Offer, PrimaryOffer>(
    clipboard: &mut Clipboard<Fd, Token, Offer, PrimaryOffer>,
    source_id: u128,
    item: ClipboardItem,
)
    requires
        call_ensures(
            Clipboard::<Fd, Token, Offer, PrimaryOffer>::set,
            (clipboard, source_id, item),
            (),
        ),
    ensures
        only_sources_changed(*old(clipboard), *final(clipboard)),
        final(clipboard).sources@.sources.contains_key(source_id),
        final(clipboard).sources@.sources[source_id].data == DataModel::Ready(item@),
        final(clipboard).sources@.sources[source_id].transfers.len() == 0,
        !final(clipboard).sources@.sources[source_id].retire_when_idle,
        same_other_sources(old(clipboard).sources@, final(clipboard).sources@, source_id),
        final(clipboard).sources@.transfers == old(clipboard).sources@.transfers,
{
}

/// A promise of an image is made by its source, and nothing else changes.
pub proof fn a_promise_is_put_on_the_clipboard<Fd, Token, Offer, PrimaryOffer>(
    clipboard: &mut Clipboard<Fd, Token, Offer, PrimaryOffer>,
    source_id: u128,
)
    requires
        call_ensures(
            Clipboard::<Fd, Token, Offer, PrimaryOffer>::begin_deferred,
            (clipboard, source_id),
            (),
        ),
    ensures
        only_sources_changed(*old(clipboard), *final(clipboard)),
        has_promised(final(clipboard).sources@, source_id),
        final(clipboard).sources@.sources[source_id].transfers.len() == 0,
        !final(clipboard).sources@.sources[source_id].retire_when_idle,
        same_other_sources(old(clipboard).sources@, final(clipboard).sources@, source_id),
        final(clipboard).sources@.transfers == old(clipboard).sources@.transfers,
{
}

/// A promise of the clipboard is kept exactly when it stands and the decoder gives dimensions
/// for the image, and what is selected stays as it is.
pub proof fn a_promise_of_the_clipboard_is_settled<Fd, Token, Offer, PrimaryOffer>(
    clipboard: &mut Clipboard<Fd, Token, Offer, PrimaryOffer>,
    source_id: u128,
    png_bytes: Vec<u8>,
    fulfillment: Fulfillment<Fd, Token>,
)
    requires
        call_ensures(
            Clipboard::<Fd, Token, Offer, PrimaryOffer>::fulfill_deferred,
            (clipboard, source_id, png_bytes),
            fulfillment,
        ),
    ensures
        only_sources_changed(*old(clipboard), *final(clipboard)),
        fulfillment.result is Ok <==> has_promised(old(clipboard).sources@, source_id)
            && png_dimensions(png_bytes@, usize::BITS) is Some,
        exists|id: u64| #[trigger]
            settles(
                old(clipboard).sources@,
                final(clipboard).sources@,
                source_id,
                png_bytes@,
                png_dimensions(png_bytes@, usize::BITS) is Some,
                id,
                fulfillment,
            ),
{
    let decodes = png_dimensions(png_bytes@, usize::BITS) is Some;
    let id = choose|id: u64|
        final(clipboard).sources@ == #[trigger] after_fulfillment(
            old(clipboard).sources@,
            source_id,
            png_bytes@,
            decodes,
            id,
        );
    lemma_fulfillment_settles(
        old(clipboard).sources@,
        final(clipboard).sources@,
        source_id,
        png_bytes@,
        decodes,
        id,
        fulfillment,
    );
}

/// A promise of the clipboard that stands can be broken, with what follows from it.
pub proof fn a_promise_of_the_clipboard_is_broken<Fd, Token, Offer, PrimaryOffer>(
    clipboard: &mut Clipboard<Fd, Token, Offer, PrimaryOffer>,
    source_id: u128,
    result: Result<Vec<Token>, DeferredClipboardImageError>,
)
    requires
        call_ensures(
            Clipboard::<Fd, Token, Offer, PrimaryOffer>::fail_deferred,
            (clipboard, source_id),
            result,
        ),
    ensures
        only_sources_changed(*old(clipboard), *final(clipboard)),
        match result {
            Ok(tokens) => {
                &&& has_promised(old(clipboard).sources@, source_id)
                &&& lost_its_promise(
                    old(clipboard).sources@,
                    final(clipboard).sources@,
                    source_id,
                )
                &&& are_tokens_of_listed(old(clipboard).sources@, source_id, tokens@)
            },
            Err(error) => {
                &&& !has_promised(old(clipboard).sources@, source_id)
                &&& error == DeferredClipboardImageError::Retired
                &&& final(clipboard).sources@ == old(clipboard).sources@
            },
        },
{
    let before = old(clipboard).sources@;
    lemma_listed_are_listed(before, before.sources[source_id].transfers);
    if result is Ok {
        assert(tokens_of(before.transfers_of(source_id)) == result->Ok_0@);
        assert(listed_went_out(before, final(clipboard).sources@, source_id));
    }
}

/// A source that is taken off the clipboard is gone with its transfers, whose tokens are to be
/// removed.
pub proof fn a_source_is_taken_off_the_clipboard<Fd, Token, Offer, PrimaryOffer>(
    clipboard: &mut Clipboard<Fd, Token, Offer, PrimaryOffer>,
    source_id: u128,
    tokens: Vec<Token>,
)
    requires
        call_ensures(
            Clipboard::<Fd, Token, Offer, PrimaryOffer>::cancel_source,
            (clipboard, source_id),
            tokens,
        ),
    ensures
        only_sources_changed(*old(clipboard), *final(clipboard)),
        is_gone(old(clipboard).sources@, final(clipboard).sources@, source_id),
        old(clipboard).sources@.sources.contains_key(source_id) ==> are_tokens_of_listed(
            old(clipboard).sources@,
            source_id,
            tokens@,
        ),
        !old(clipboard).sources@.sources.contains_key(source_id) ==> tokens@.len() == 0
            && final(clipboard).sources@ == old(clipboard).sources@,
{
    let before = old(clipboard).sources@;
    lemma_listed_are_listed(before, before.sources[source_id].transfers);
    assert(tokens_of(before.transfers_of(source_id)) == tokens@);
    assert(listed_went_out(before, final(clipboard).sources@, source_id));
}

/// The offers of other programs and the own primary selection take the place of what was there,
/// each without a change of the rest.
pub proof fn what_is_selected_takes_the_place_of_the_other<Fd, Token, Offer, PrimaryOffer>(
    a: &mut Clipboard<Fd, Token, Offer, PrimaryOffer>,
    b: &mut Clipboard<Fd, Token, Offer, PrimaryOffer>,
    c: &mut Clipboard<Fd, Token, Offer, PrimaryOffer>,
    item: ClipboardItem,
    offer: Option<DataOffer<Offer>>,
    primary_offer: Option<DataOffer<PrimaryOffer>>,
)
    requires
        call_ensures(Clipboard::<Fd, Token, Offer, PrimaryOffer>::set_primary, (a, item), ()),
        call_ensures(Clipboard::<Fd, Token, Offer, PrimaryOffer>::set_offer, (b, offer), ()),
        call_ensures(
            Clipboard::<Fd, Token, Offer, PrimaryOffer>::set_primary_offer,
            (c, primary_offer),
            (),
        ),
    ensures
        final(a).primary_contents == Some(item),
        final(a).self_mime_nonce == old(a).self_mime_nonce,
        final(a).sources == old(a).sources,
        final(a).selection == old(a).selection,
        final(a).primary_selection == old(a).primary_selection,
        final(b).selection.current_offer == offer,
        final(b).selection.cached_read is None,
        final(b).self_mime_nonce == old(b).self_mime_nonce,
        final(b).sources == old(b).sources,
        final(b).primary_contents == old(b).primary_contents,
        final(b).primary_selection == old(b).primary_selection,
        final(c).primary_selection.current_offer == primary_offer,
        final(c).primary_selection.cached_read is None,
        final(c).self_mime_nonce == old(c).self_mime_nonce,
        final(c).sources == old(c).sources,
        final(c).primary_contents == old(c).primary_contents,
        final(c).selection == old(c).selection,
{
}

/// The clipboard names, offers and answers as its sources do: its marks are those of its nonce,
/// and its mime types those of the source.
pub proof fn a_clipboard_speaks_for_its_sources<Fd, Token, Offer, PrimaryOffer>(
    clipboard: Clipboard<Fd, Token, Offer, PrimaryOffer>,
    source_id: u128,
    mark: String,
    primary: String,
    offered: Vec<&'static str>,
    own_mark: String,
    own_primary: String,
    own_offered: Vec<&'static str>,
    i: int,
)
    requires
        call_ensures(
            Clipboard::<Fd, Token, Offer, PrimaryOffer>::self_mime,
            (&clipboard, source_id),
            mark,
        ),
        call_ensures(
            Clipboard::<Fd, Token, Offer, PrimaryOffer>::primary_self_mime,
            (&clipboard,),
            primary,
        ),
        call_ensures(
            Clipboard::<Fd, Token, Offer, PrimaryOffer>::offered_mime_types,
            (&clipboard, source_id),
            offered,
        ),
        call_ensures(self_mime_of, (clipboard.self_mime_nonce, source_id), own_mark),
        call_ensures(primary_self_mime_of, (clipboard.self_mime_nonce,), own_primary),
        call_ensures(
            ClipboardSources::<Fd, Token>::offered_mime_types,
            (&clipboard.sources, source_id),
            own_offered,
        ),
    ensures
        mark@ == own_mark@,
        primary@ == own_primary@,
        offered@.len() == own_offered@.len(),
        0 <= i < offered@.len() ==> offered@[i]@ == own_offered@[i]@,
{
    assert(str_views(offered@) == str_views(own_offered@));
    assert(str_views(offered@).len() == offered@.len());
    if 0 <= i < offered@.len() {
        assert(str_views(offered@)[i] == offered@[i]@);
        assert(str_views(own_offered@)[i] == own_offered@[i]@);
    }
}

/// A request that reaches the clipboard is queued when its descriptor is nonblocking, its source
/// has something to send, and there is room; else it is dropped for the first of these that is
/// wanting.
pub proof fn a_request_to_the_clipboard_is_queued<Fd, Token, Offer, PrimaryOffer>(
    clipboard: &mut Clipboard<Fd, Token, Offer, PrimaryOffer>,
    source_id: u128,
    mime: &str,
    fd: Fd,
    nonblocking: bool,
    action: QueueAction,
    answer: SendData,
)
    requires
        call_ensures(
            Clipboard::<Fd, Token, Offer, PrimaryOffer>::send,
            (clipboard, source_id, mime, fd, nonblocking),
            action,
        ),
        call_ensures(
            ClipboardSources::<Fd, Token>::send_data,
            (&old(clipboard).sources, source_id, mime),
            answer,
        ),
    ensures
        only_sources_changed(*old(clipboard), *final(clipboard)),
        nonblocking && !(answer is Unavailable) && has_room(old(clipboard).sources@, source_id)
            <==> action is ArmTimeout,
        match action {
            QueueAction::ArmTimeout { transfer_id, data } => {
                &&& is_random_id(transfer_id)
                &&& data@ == answer@
                &&& came_in(
                    old(clipboard).sources@,
                    final(clipboard).sources@,
                    source_id,
                    transfer_id,
                    fd,
                )
            },
            QueueAction::Dropped(reason) => {
                &&& final(clipboard).sources@ == old(clipboard).sources@
                &&& reason == DropReason::Blocking <==> !nonblocking
                &&& reason == DropReason::Unavailable <==> nonblocking && answer is Unavailable
                &&& reason == DropReason::QueueFull <==> nonblocking && !(answer is Unavailable)
                    && !has_room(old(clipboard).sources@, source_id)
            },
        },
{
    let list = old(clipboard).sources@.sources[source_id].transfers;
    if let QueueAction::ArmTimeout { transfer_id, data } = action {
        assert(list.push(transfer_id).drop_last() =~= list);
    }
    assert(answer@ is Unavailable <==> answer is Unavailable);
}

/// The primary selection is sent as the whole of its text, exactly when it has text.
pub proof fn the_primary_selection_sends_its_text<Fd, Token, Offer, PrimaryOffer>(
    clipboard: Clipboard<Fd, Token, Offer, PrimaryOffer>,
    bytes: Option<Vec<u8>>,
)
    requires
        call_ensures(
            Clipboard::<Fd, Token, Offer, PrimaryOffer>::send_primary,
            (&clipboard,),
            bytes,
        ),
    ensures
        bytes is Some <==> clipboard.primary_contents is Some && joined_text(
            (clipboard.primary_contents->0)@,
        ).len() > 0,
        bytes matches Some(bytes) ==> bytes@ == encode_utf8(
            joined_text((clipboard.primary_contents->0)@),
        ),
{
}

/// Bytes that belong to no source are queued when their descriptor is nonblocking and there are
/// fewer than 32 transfers: as the one transfer of a source of their own, which goes away with
/// it. Else they are dropped, and no source is left of them.
pub proof fn bytes_are_queued_while_there_is_room<Fd, Token, Offer, PrimaryOffer>(
    clipboard: &mut Clipboard<Fd, Token, Offer, PrimaryOffer>,
    source_id: u128,
    transfer_id: u128,
    fd: Fd,
    bytes: Vec<u8>,
    nonblocking: bool,
    action: BytesAction,
)
    requires
        call_ensures(
            Clipboard::<Fd, Token, Offer, PrimaryOffer>::send_bytes_as,
            (clipboard, source_id, transfer_id, fd, bytes, nonblocking),
            action,
        ),
    ensures
        only_sources_changed(*old(clipboard), *final(clipboard)),
        nonblocking && old(clipboard).sources@.transfers.len() < 32 <==> action is ArmTimeout,
        match action {
            BytesAction::ArmTimeout { source_id: source, transfer_id: queued, bytes: to_send } => {
                &&& source == source_id
                &&& queued == transfer_id
                &&& to_send@ == bytes@
                &&& travels(
                    old(clipboard).sources@,
                    final(clipboard).sources@,
                    source_id,
                    transfer_id,
                    fd,
                )
            },
            BytesAction::Dropped(reason) => {
                &&& reason == DropReason::Blocking <==> !nonblocking
                &&& reason == DropReason::QueueFull <==> nonblocking
                &&& final(clipboard).sources@.transfers == old(clipboard).sources@.transfers
                &&& same_other_sources(
                    old(clipboard).sources@,
                    final(clipboard).sources@,
                    source_id,
                )
                &&& nonblocking ==> !final(clipboard).sources@.sources.contains_key(source_id)
                &&& !nonblocking ==> final(clipboard).sources@ == old(clipboard).sources@
            },
        },
{
    lemma_bytes_travel(old(clipboard).sources@, source_id, transfer_id, fd);
}

proof fn lemma_bytes_travel<Fd, Token>(
    store: StoreModel<Fd, Token>,
    source_id: u128,
    transfer_id: u128,
    fd: Fd,
)
    ensures
        travels(
            store,
            bytes_queued(store, source_id, transfer_id, fd),
            source_id,
            transfer_id,
            fd,
        ),
{
    assert(empty_text()[0] is Text);
}

/// Whether a transfer came in as the only one of a source that goes away with it.
pub open spec fn travels<Fd, Token>(
    before: StoreModel<Fd, Token>,
    after: StoreModel<Fd, Token>,
    source_id: u128,
    transfer_id: u128,
    fd: Fd,
) -> bool {
    let source = after.sources[source_id];
    let transfer = after.transfers[transfer_id];
    &&& same_other_sources(before, after, source_id)
    &&& same_other_transfers(before, after, transfer_id)
    &&& after.sources.contains_key(source_id)
    &&& source.data is Ready
    &&& source.data->Ready_0.len() == 1
    &&& source.data->Ready_0[0] is Text
    &&& source.data->Ready_0[0]->text.len() == 0
    &&& source.data->Ready_0[0]->metadata is None
    &&& source.transfers.len() == 1
    &&& source.transfers[0] == transfer_id
    &&& source.retire_when_idle
    &&& after.transfers.contains_key(transfer_id)
    &&& transfer.source_id == source_id
    &&& transfer.state == ClipboardTransferState::Pending(fd)
    &&& transfer.timeout_token is None
    &&& transfer.write_token is None
}

/// Bytes that get identifiers of their own are queued in the same way.
pub proof fn bytes_get_identifiers_while_there_is_room<Fd, Token, Offer, PrimaryOffer>(
    clipboard: &mut Clipboard<Fd, Token, Offer, PrimaryOffer>,
    fd: Fd,
    bytes: Vec<u8>,
    nonblocking: bool,
    action: BytesAction,
)
    requires
        call_ensures(
            Clipboard::<Fd, Token, Offer, PrimaryOffer>::send_bytes,
            (clipboard, fd, bytes, nonblocking),
            action,
        ),
    ensures
        only_sources_changed(*old(clipboard), *final(clipboard)),
        nonblocking && old(clipboard).sources@.transfers.len() < 32 <==> action is ArmTimeout,
        match action {
            BytesAction::ArmTimeout { source_id, transfer_id, bytes: to_send } => {
                &&& is_random_id(source_id)
                &&& is_random_id(transfer_id)
                &&& to_send@ == bytes@
                &&& travels(
                    old(clipboard).sources@,
                    final(clipboard).sources@,
                    source_id,
                    transfer_id,
                    fd,
                )
            },
            BytesAction::Dropped(reason) => {
                &&& reason == DropReason::Blocking <==> !nonblocking
                &&& reason == DropReason::QueueFull <==> nonblocking
                &&& final(clipboard).sources@.transfers == old(clipboard).sources@.transfers
                &&& !nonblocking ==> final(clipboard).sources@ == old(clipboard).sources@
                &&& nonblocking ==> exists|source_id: u128| #[trigger]
                    is_random_id(source_id) && same_other_sources(
                        old(clipboard).sources@,
                        final(clipboard).sources@,
                        source_id,
                    ) && !final(clipboard).sources@.sources.contains_key(source_id)
            },
        },
{
    if let BytesAction::ArmTimeout { source_id, transfer_id, bytes: to_send } = action {
        lemma_bytes_travel(old(clipboard).sources@, source_id, transfer_id, fd);
    }
    if let BytesAction::Dropped(reason) = action {
        if nonblocking {
            let source_id = choose|source_id: u128| #[trigger]
                is_random_id(source_id) && final(clipboard).sources@ == bytes_refused(
                    old(clipboard).sources@,
                    source_id,
                );
            assert(same_other_sources(
                old(clipboard).sources@,
                final(clipboard).sources@,
                source_id,
            ));
        }
    }
}

/// What follows the registration of the timeout of bytes. Without a timeout, or where their
/// transfer is gone, their source goes with all of its transfers; else they are written, all of
/// them, to the descriptor of the transfer.
pub proof fn bytes_with_a_timeout_are_written<Fd, Token, Offer, PrimaryOffer>(
    clipboard: &mut Clipboard<Fd, Token, Offer, PrimaryOffer>,
    source_id: u128,
    transfer_id: u128,
    bytes: Vec<u8>,
    token: Option<Token>,
    action: SendAction<Fd, Token>,
)
    requires
        call_ensures(
            Clipboard::<Fd, Token, Offer, PrimaryOffer>::bytes_timeout_inserted,
            (clipboard, source_id, transfer_id, bytes, token),
            action,
        ),
    ensures
        only_sources_changed(*old(clipboard), *final(clipboard)),
        ({
            let before = old(clipboard).sources@;
            let after = final(clipboard).sources@;
            if token is Some && before.transfers.contains_key(transfer_id) {
                let transfer = after.transfers[transfer_id];
                &&& after.sources == before.sources
                &&& same_other_transfers(before, after, transfer_id)
                &&& after.transfers.contains_key(transfer_id)
                &&& transfer.source_id == before.transfers[transfer_id].source_id
                &&& transfer.state is Sending
                &&& transfer.timeout_token == token
                &&& transfer.write_token == before.transfers[transfer_id].write_token
                &&& action is Write || action is Nothing
                &&& action is Write <==> before.transfers[transfer_id].state is Pending
                &&& action matches SendAction::Write(job) ==> before.transfers[transfer_id].state
                    == ClipboardTransferState::Pending(job.fd) && writes(
                    job,
                    transfer_id,
                    job.fd,
                    bytes@,
                )
            } else {
                &&& is_gone(before, after, source_id)
                &&& token is None ==> action is Nothing
                &&& token is Some ==> (action matches SendAction::RemoveToken(unused) && token
                    == Some(unused))
            }
        }),
{
    let before = old(clipboard).sources@;
    if token is None || !before.transfers.contains_key(transfer_id) {
        assert(listed_went_out(before, final(clipboard).sources@, source_id));
    }
}

/// How reading the clipboard begins. Without an offer there is nothing. What was read of the
/// offer before is given again. An offer with a mark of a source of this program gives the item
/// of such a source, if it has one. Every other offer is asked for, whatever the sources hold.
pub proof fn the_clipboard_is_read_from_where_it_is<Fd, Token, Offer, PrimaryOffer>(
    clipboard: Clipboard<Fd, Token, Offer, PrimaryOffer>,
    step: ReadStep,
)
    requires
        call_ensures(Clipboard::<Fd, Token, Offer, PrimaryOffer>::read, (&clipboard,), step),
    ensures
        match clipboard.selection.current_offer {
            None => step matches ReadStep::Done(item) && item is None,
            Some(offer) => match clipboard.selection.cached_read {
                Some(kept) => step matches ReadStep::Done(Some(item)) && item@ == kept@,
                None => if exists|source_id: u128| #[trigger]
                    clipboard.sources@.sources.contains_key(source_id) && offer.mimes().contains(
                        self_mime_text(clipboard.self_mime_nonce, source_id),
                    ) {
                    exists|source_id: u128|
                        {
                            &&& #[trigger] clipboard.sources@.sources.contains_key(source_id)
                            &&& offer.mimes().contains(
                                self_mime_text(clipboard.self_mime_nonce, source_id),
                            )
                            &&& step matches ReadStep::Done(item)
                            &&& item is Some <==> clipboard.sources@.sources[source_id].data
                                is Ready
                            &&& item matches Some(item)
                                ==> clipboard.sources@.sources[source_id].data
                                == DataModel::Ready(item@)
                        }
                } else {
                    begins_to_read(offer.mimes(), step@)
                },
            },
        },
{
    if let Some(offer) = clipboard.selection.current_offer {
        let mimes = offer.mimes();
        lemma_first_step_begins(mimes);
        if clipboard.selection.cached_read is None {
            if clipboard.is_own(mimes) {
                let source_id = choose|source_id: u128| #[trigger]
                    clipboard.marks(mimes, source_id) && step@ == StepModel::Done(
                        clipboard.sources@.item(source_id),
                    );
                assert(clipboard.sources@.sources.contains_key(source_id));
            } else {
                assert forall|source_id: u128| !(#[trigger] clipboard.sources@.sources.contains_key(
                    source_id,
                ) && mimes.contains(
                    self_mime_text(clipboard.self_mime_nonce, source_id),
                )) by {
                    assert(!clipboard.marks(mimes, source_id));
                }
            }
        }
    }
}

/// How reading the primary selection begins. Without an offer there is nothing. What was read of
/// the offer before is given again. What this program put there is given exactly when the offer
/// carries its mark. Every other offer is asked for, whatever this program put there.
pub proof fn the_primary_selection_is_read_from_where_it_is<Fd, Token, Offer, PrimaryOffer>(
    clipboard: Clipboard<Fd, Token, Offer, PrimaryOffer>,
    step: ReadStep,
)
    requires
        call_ensures(
            Clipboard::<Fd, Token, Offer, PrimaryOffer>::read_primary,
            (&clipboard,),
            step,
        ),
    ensures
        match clipboard.primary_selection.current_offer {
            None => step matches ReadStep::Done(item) && item is None,
            Some(offer) => match clipboard.primary_selection.cached_read {
                Some(kept) => step matches ReadStep::Done(Some(item)) && item@ == kept@,
                None => if offer.mimes().contains(
                    primary_self_mime_text(clipboard.self_mime_nonce),
                ) {
                    &&& step matches ReadStep::Done(item)
                    &&& item is Some <==> clipboard.primary_contents is Some
                    &&& item matches Some(item) ==> item@ == (clipboard.primary_contents->0)@
                } else {
                    begins_to_read(offer.mimes(), step@)
                },
            },
        },
{
    if let Some(offer) = clipboard.primary_selection.current_offer {
        lemma_first_step_begins(offer.mimes());
    }
}

/// What this program put in the primary selection does not matter for what is read of another
/// program's.
pub proof fn a_foreign_primary_offer_is_read_alike<Fd, Token, Offer, PrimaryOffer>(
    clipboard: Clipboard<Fd, Token, Offer, PrimaryOffer>,
    other: Clipboard<Fd, Token, Offer, PrimaryOffer>,
    step: ReadStep,
    other_step: ReadStep,
)
    requires
        clipboard.primary_selection == other.primary_selection,
        clipboard.primary_selection.current_offer matches Some(offer) && !offer.mimes().contains(
            primary_self_mime_text(clipboard.self_mime_nonce),
        ) && !offer.mimes().contains(primary_self_mime_text(other.self_mime_nonce)),
        call_ensures(
            Clipboard::<Fd, Token, Offer, PrimaryOffer>::read_primary,
            (&clipboard,),
            step,
        ),
        call_ensures(
            Clipboard::<Fd, Token, Offer, PrimaryOffer>::read_primary,
            (&other,),
            other_step,
        ),
    ensures
        step@ == other_step@,
{
}

/// A reply to a reading of the clipboard is read as the offer reads it, and remembered when it
/// ends the reading with an item; nothing else changes.
pub proof fn a_reply_to_the_clipboard_is_remembered<Fd, Token, Offer, PrimaryOffer>(
    clipboard: &mut Clipboard<Fd, Token, Offer, PrimaryOffer>,
    stage: ReadStage,
    reply: Option<Vec<u8>>,
    step: ReadStep,
    text: &str,
    converted: String,
)
    requires
        call_ensures(
            Clipboard::<Fd, Token, Offer, PrimaryOffer>::read_received,
            (clipboard, stage, reply),
            step,
        ),
        call_ensures(with_line_feeds, (text,), converted),
    ensures
        final(clipboard).self_mime_nonce == old(clipboard).self_mime_nonce,
        final(clipboard).sources == old(clipboard).sources,
        final(clipboard).primary_contents == old(clipboard).primary_contents,
        final(clipboard).primary_selection == old(clipboard).primary_selection,
        is_remembered(
            old(clipboard).selection,
            final(clipboard).selection,
            stage,
            reply,
            step,
            text@,
            converted@,
        ),
{
    lemma_is_remembered(
        old(clipboard).selection,
        final(clipboard).selection,
        stage,
        reply,
        step,
        text@,
        converted@,
    );
}

/// A reply to a reading of the primary selection is treated in the same way.
pub proof fn a_reply_to_the_primary_selection_is_remembered<Fd, Token, Offer, PrimaryOffer>(
    clipboard: &mut Clipboard<Fd, Token, Offer, PrimaryOffer>,
    stage: ReadStage,
    reply: Option<Vec<u8>>,
    step: ReadStep,
    text: &str,
    converted: String,
)
    requires
        call_ensures(
            Clipboard::<Fd, Token, Offer, PrimaryOffer>::read_primary_received,
            (clipboard, stage, reply),
            step,
        ),
        call_ensures(with_line_feeds, (text,), converted),
    ensures
        final(clipboard).self_mime_nonce == old(clipboard).self_mime_nonce,
        final(clipboard).sources == old(clipboard).sources,
        final(clipboard).primary_contents == old(clipboard).primary_contents,
        final(clipboard).selection == old(clipboard).selection,
        is_remembered(
            old(clipboard).primary_selection,
            final(clipboard).primary_selection,
            stage,
            reply,
            step,
            text@,
            converted@,
        ),
{
    lemma_is_remembered(
        old(clipboard).primary_selection,
        final(clipboard).primary_selection,
        stage,
        reply,
        step,
        text@,
        converted@,
    );
}

/// Whether a step follows from a reply to a selection, and the selection remembers the item that
/// it ends with, or what it did before where it ends with none.
pub open spec fn is_remembered<T>(
    before: ExternalSelection<T>,
    after: ExternalSelection<T>,
    stage: ReadStage,
    reply: Option<Vec<u8>>,
    step: ReadStep,
    text: Seq<char>,
    converted: Seq<char>,
) -> bool {
    &&& after.current_offer == before.current_offer
    &&& before.current_offer is None ==> (step matches ReadStep::Done(item) && item is None)
    &&& before.current_offer matches Some(offer) ==> exists|id: u64| #[trigger]
        follows_reply(offer.mimes(), stage, optional_bytes(reply), id, step@, text, converted)
    &&& match step {
        ReadStep::Done(Some(item)) => after.cached_read matches Some(kept) && kept@ == item@,
        _ => {
            &&& after.cached_read is Some <==> before.cached_read is Some
            &&& before.cached_read matches Some(kept) ==> (after.cached_read->0)@ == kept@
        },
    }
}

proof fn lemma_is_remembered<T>(
    before: ExternalSelection<T>,
    after: ExternalSelection<T>,
    stage: ReadStage,
    reply: Option<Vec<u8>>,
    step: ReadStep,
    text: Seq<char>,
    converted: Seq<char>,
)
    requires
        converted == replaced(text, "\r\n"@, "\n"@),
        after.current_offer == before.current_offer,
        exists|id: u64|
            step@ == #[trigger] selection_step(before, stage, optional_bytes(reply), id),
        optional_item(after.cached_read) == cached_after(
            optional_item(before.cached_read),
            step@,
        ),
    ensures
        is_remembered(before, after, stage, reply, step, text, converted),
{
    let id = choose|id: u64|
        step@ == #[trigger] selection_step(before, stage, optional_bytes(reply), id);
    if let Some(offer) = before.current_offer {
        lemma_step_follows_reply(
            offer.mimes(),
            stage,
            optional_bytes(reply),
            id,
            text,
            converted,
        );
        assert(follows_reply(
            offer.mimes(),
            stage,
            optional_bytes(reply),
            id,
            step@,
            text,
            converted,
        ));
    }
}

} // verus!
