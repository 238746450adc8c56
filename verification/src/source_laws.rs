//! What a clipboard source promises to the programs that ask for its data.

use vstd::prelude::*;
use crate::item::{item_text, mime_type_names_its_format, EntryModel, ImageFormat};
use crate::laws::{lemma_ids_except, StoreEvent};
use crate::mime::{image_mimes_are_not_text, text_mimes, text_mimes_are_distinct};
use crate::sources::{ClipboardTransfer, DeferredClipboardImageError};
use crate::store::{
    first_image, ids_except, item_bytes, item_mimes, lemma_contains_after_push, listed_transfers,
    ready_source, with_image_mimes, DataModel, SendModel, StoreModel,
};
use crate::transfers::{
    after_fulfillment, fulfillment_jobs, fulfillment_result, png_item_gives_its_bytes,
    waiting_jobs, JobModel,
};

verus! {

/// What an event about one source leaves as it was: the data of every other source, and, when
/// identifiers that come in are free, its transfers.
pub proof fn sources_are_independent<Fd, Token>(
    store: StoreModel<Fd, Token>,
    event: StoreEvent<Fd, Token>,
    other: u128,
)
    requires
        event.source() matches Some(source_id) && source_id != other,
    ensures
        store.after(event).sources.contains_key(other) == store.sources.contains_key(other),
        store.sources.contains_key(other) ==> store.after(event).sources[other]
            == store.sources[other],
        store.after(event).item(other) == store.item(other),
        forall|mime: Seq<char>|
            store.after(event).send_data(other, mime) == store.send_data(other, mime),
        store.after(event).offered_mimes(other) == store.offered_mimes(other),
        store.linked() && store.is_fresh(event) ==> store.after(event).transfers_of(other)
            == store.transfers_of(other),
{
    let after = store.after(event);
    if store.linked() && store.is_fresh(event) && store.sources.contains_key(other) {
        let ids = store.sources[other].transfers;
        let source_id = event.source()->0;
        assert forall|id: u128| #[trigger] ids.contains(id) implies after.transfers.contains_key(id)
            && store.transfers.contains_key(id) && after.transfers[id] == store.transfers[id] by {
            assert(store.sources[other].transfers.contains(id));
            if store.sources.contains_key(source_id)
                && store.sources[source_id].transfers.contains(id) {
                assert(store.transfers[id].source_id == source_id);
            }
        }
        lemma_listed_depends_on_the_listed(store.transfers, after.transfers, ids);
    }
}

proof fn lemma_listed_depends_on_the_listed<Fd, Token>(
    a: Map<u128, ClipboardTransfer<Fd, Token>>,
    b: Map<u128, ClipboardTransfer<Fd, Token>>,
    ids: Seq<u128>,
)
    requires
        forall|id: u128| #[trigger]
            ids.contains(id) ==> a.contains_key(id) && b.contains_key(id) && a[id] == b[id],
    ensures
        listed_transfers(a, ids) == listed_transfers(b, ids),
    decreases ids.len(),
{
    if ids.len() > 0 {
        assert forall|id: u128| #[trigger] ids.drop_last().contains(id) implies ids.contains(
            id,
        ) by {
            let k = choose|k: int| 0 <= k < ids.drop_last().len() && ids.drop_last()[k] == id;
            assert(ids[k] == id);
        }
        lemma_listed_depends_on_the_listed(a, b, ids.drop_last());
        assert(ids.contains(ids.last()));
    }
}

/// A source whose promise is kept sends exactly the bytes with which it was kept.
pub proof fn a_kept_promise_sends_its_bytes<Fd, Token>(
    store: StoreModel<Fd, Token>,
    source_id: u128,
    png_bytes: Seq<u8>,
    id: u64,
)
    requires
        store.is_pending(source_id),
    ensures
        store.send_data(source_id, ImageFormat::Png.mime()) == SendModel::Pending,
        after_fulfillment(store, source_id, png_bytes, true, id).send_data(
            source_id,
            ImageFormat::Png.mime(),
        ) == SendModel::Ready(png_bytes),
{
    png_item_gives_its_bytes(png_bytes, id);
}

/// Every transfer that waits for a promise is handed to a writer with the bytes that keep it,
/// and no other transfer is.
pub proof fn waiting_transfers_are_sent<Fd, Token>(
    store: StoreModel<Fd, Token>,
    ids: Seq<u128>,
    bytes: Seq<u8>,
)
    ensures
        forall|id: u128| #[trigger]
            ids.contains(id) && store.waiting_fd(id) is Some ==> waiting_jobs(
                store,
                ids,
                bytes,
            ).contains(JobModel { transfer_id: id, fd: store.waiting_fd(id)->0, bytes }),
        forall|i: int|
            0 <= i < waiting_jobs(store, ids, bytes).len() ==> {
                let job = #[trigger] waiting_jobs(store, ids, bytes)[i];
                &&& ids.contains(job.transfer_id)
                &&& store.waiting_fd(job.transfer_id) == Some(job.fd)
                &&& job.bytes == bytes
            },
        forall|i: int, j: int|
            0 <= i < j < waiting_jobs(store, ids, bytes).len() ==> (#[trigger] waiting_jobs(
                store,
                ids,
                bytes,
            )[i]).transfer_id != (#[trigger] waiting_jobs(store, ids, bytes)[j]).transfer_id,
    decreases ids.len(),
{
    let jobs = waiting_jobs(store, ids, bytes);
    if ids.len() > 0 {
        let init = ids.drop_last();
        let last = ids.last();
        let earlier = waiting_jobs(store, init, bytes);
        waiting_transfers_are_sent(store, init, bytes);
        assert(ids =~= init.push(last));
        lemma_contains_after_push(init, last);
        assert forall|id: u128| #[trigger]
            ids.contains(id) && store.waiting_fd(id) is Some implies jobs.contains(
            JobModel { transfer_id: id, fd: store.waiting_fd(id)->0, bytes },
        ) by {
            let job = JobModel { transfer_id: id, fd: store.waiting_fd(id)->0, bytes };
            if init.contains(id) {
                assert(earlier.contains(job));
                let k = choose|k: int| 0 <= k < earlier.len() && earlier[k] == job;
                assert(jobs[k] == job);
            } else {
                assert(jobs[earlier.len() as int] == job);
            }
        }
        assert forall|i: int| 0 <= i < jobs.len() implies {
            let job = #[trigger] jobs[i];
            &&& ids.contains(job.transfer_id)
            &&& store.waiting_fd(job.transfer_id) == Some(job.fd)
            &&& job.bytes == bytes
        } by {
            if i < earlier.len() {
                assert(jobs[i] == earlier[i]);
            }
        }
        assert forall|i: int, j: int| 0 <= i < j < jobs.len() implies (
        #[trigger] jobs[i]).transfer_id != (#[trigger] jobs[j]).transfer_id by {
            assert(jobs[i] == earlier[i]);
            if j < earlier.len() {
                assert(jobs[j] == earlier[j]);
            }
        }
    }
}

/// A request that reaches a source before its promised image waits with its descriptor, and
/// gets the image once it is there.
pub proof fn a_pending_send_waits_for_its_image<Fd, Token>(
    store: StoreModel<Fd, Token>,
    source_id: u128,
    transfer_id: u128,
    fd: Fd,
    timeout: Token,
    png_bytes: Seq<u8>,
    id: u64,
)
    requires
        store.is_pending(source_id),
        store.can_enqueue(source_id),
        store.linked(),
        !store.transfers.contains_key(transfer_id),
    ensures
        ({
            let waiting = store.enqueued(source_id, transfer_id, fd).with_timeout_token(
                transfer_id,
                timeout,
            );
            let sent = after_fulfillment(waiting, source_id, png_bytes, true, id);
            &&& waiting.is_pending(source_id)
            &&& waiting.waiting_fd(transfer_id) == Some(fd)
            &&& fulfillment_jobs(waiting, source_id, png_bytes, true).contains(
                JobModel { transfer_id, fd, bytes: png_bytes },
            )
            &&& sent.transfers.contains_key(transfer_id)
            &&& sent.waiting_fd(transfer_id) is None
            &&& sent.transfers[transfer_id].timeout_token == Some(timeout)
        }),
{
    let waiting = store.enqueued(source_id, transfer_id, fd).with_timeout_token(
        transfer_id,
        timeout,
    );
    let ids = waiting.sources[source_id].transfers;
    assert(ids.last() == transfer_id);
    assert(ids.contains(transfer_id));
    waiting_transfers_are_sent(waiting, ids, png_bytes);
}

/// A promise is kept or broken at most once: whatever became of a source, no image is accepted
/// for it any more.
pub proof fn a_settled_source_is_retired<Fd, Token>(
    store: StoreModel<Fd, Token>,
    source_id: u128,
    png_bytes: Seq<u8>,
    id: u64,
    decodes: bool,
)
    ensures
        fulfillment_result(store.cancelled(source_id), source_id, decodes) == Err::<
            (),
            DeferredClipboardImageError,
        >(DeferredClipboardImageError::Retired),
        fulfillment_result(store.failed(source_id), source_id, decodes) == Err::<
            (),
            DeferredClipboardImageError,
        >(DeferredClipboardImageError::Retired),
        fulfillment_result(store.fulfilled(source_id, png_bytes, id), source_id, decodes) == Err::<
            (),
            DeferredClipboardImageError,
        >(DeferredClipboardImageError::Retired),
{
}

/// Cancelling a source, or breaking its promise, ends all its transfers, and hands every one
/// of them back.
pub proof fn ending_a_source_ends_its_transfers<Fd, Token>(
    store: StoreModel<Fd, Token>,
    source_id: u128,
)
    requires
        store.linked(),
    ensures
        store.cancelled(source_id).item(source_id) is None,
        store.is_pending(source_id) ==> store.failed(source_id).item(source_id) is None,
        forall|id: u128| #[trigger]
            store.cancelled(source_id).transfers.contains_key(id) <==> (
            store.transfers.contains_key(id) && store.transfers[id].source_id != source_id),
        store.is_pending(source_id) ==> store.failed(source_id).transfers == store.cancelled(
            source_id,
        ).transfers,
        forall|id: u128| #[trigger]
            store.transfers.contains_key(id) && store.transfers[id].source_id == source_id
                ==> store.transfers_of(source_id).contains(store.transfers[id]),
{
    let after = store.cancelled(source_id);
    assert forall|id: u128| #[trigger] after.transfers.contains_key(id) <==> (
    store.transfers.contains_key(id) && store.transfers[id].source_id != source_id) by {
        if store.transfers.contains_key(id) {
            let owner = store.transfers[id].source_id;
            assert(store.sources[owner].transfers.contains(id));
            if store.sources.contains_key(source_id)
                && store.sources[source_id].transfers.contains(id) {
                assert(owner == source_id);
            }
        }
    }
    assert forall|id: u128| #[trigger]
        store.transfers.contains_key(id) && store.transfers[id].source_id
            == source_id implies store.transfers_of(source_id).contains(store.transfers[id]) by {
        assert(store.sources[source_id].transfers.contains(id));
        lemma_listed_holds_the_listed(
            store.transfers,
            store.sources[source_id].transfers,
            id,
        );
    }
}

pub(crate) proof fn lemma_listed_holds_the_listed<Fd, Token>(
    transfers: Map<u128, ClipboardTransfer<Fd, Token>>,
    ids: Seq<u128>,
    id: u128,
)
    requires
        ids.contains(id),
        transfers.contains_key(id),
    ensures
        listed_transfers(transfers, ids).contains(transfers[id]),
    decreases ids.len(),
{
    let init = ids.drop_last();
    let earlier = listed_transfers(transfers, init);
    let listed = listed_transfers(transfers, ids);
    if init.contains(id) {
        lemma_listed_holds_the_listed(transfers, init, id);
        let k = choose|k: int| 0 <= k < earlier.len() && earlier[k] == transfers[id];
        assert(listed[k] == transfers[id]);
    } else {
        let k = choose|k: int| 0 <= k < ids.len() && ids[k] == id;
        if k < init.len() {
            assert(init[k] == id);
        }
        assert(listed[earlier.len() as int] == transfers[id]);
    }
}

/// A transfer that is taken out is gone, and taking it out again changes nothing: whichever of
/// the writer and the timeout comes second finds nothing to do.
pub proof fn a_transfer_ends_once<Fd, Token>(store: StoreModel<Fd, Token>, transfer_id: u128)
    ensures
        store.without_transfer(transfer_id).transfer(transfer_id) is None,
        store.without_transfer(transfer_id).without_transfer(transfer_id)
            == store.without_transfer(transfer_id),
        store.without_transfer(transfer_id).waiting_fd(transfer_id) is None,
{
}

/// A source that goes away with its last transfer leaves no trace behind: when the one
/// transfer asked of it ends, everything is as it was before the source came.
pub proof fn a_passing_source_leaves_no_trace<Fd, Token>(
    store: StoreModel<Fd, Token>,
    source_id: u128,
    transfer_id: u128,
    item: Seq<EntryModel>,
    fd: Fd,
    timeout: Token,
    writer: Token,
)
    requires
        !store.sources.contains_key(source_id),
        !store.transfers.contains_key(transfer_id),
    ensures
        ({
            let queued = store.with_source(source_id, ready_source(item, true)).enqueued(
                source_id,
                transfer_id,
                fd,
            );
            let armed = queued.with_timeout_token(transfer_id, timeout);
            let writing = armed.sending(transfer_id).with_write_token(transfer_id, writer);
            &&& queued.without_transfer(transfer_id) == store
            &&& queued.cancelled(source_id) == store
            &&& armed.without_transfer(transfer_id) == store
            &&& writing.without_transfer(transfer_id) == store
        }),
{
    let queued = store.with_source(source_id, ready_source(item, true)).enqueued(
        source_id,
        transfer_id,
        fd,
    );
    let armed = queued.with_timeout_token(transfer_id, timeout);
    let writing = armed.sending(transfer_id).with_write_token(transfer_id, writer);
    assert(queued.sources[source_id].transfers =~= seq![transfer_id]);
    assert(ids_except(seq![transfer_id], transfer_id) =~= Seq::empty()) by {
        let kept = ids_except(seq![transfer_id], transfer_id);
        lemma_ids_except(seq![transfer_id], transfer_id);
        if kept.len() > 0 {
            assert(kept.contains(kept[0]));
        }
    }
    assert(seq![transfer_id].to_set().contains(transfer_id)) by {
        assert(seq![transfer_id][0] == transfer_id);
    }
    assert(queued.without_transfer(transfer_id) =~= store);
    assert(armed.without_transfer(transfer_id) =~= store);
    assert(writing.without_transfer(transfer_id) =~= store);
    assert(queued.cancelled(source_id) =~= store);
}

/// A source has something to send for every mime type under which it is offered.
pub proof fn offered_mime_types_can_be_sent<Fd, Token>(
    store: StoreModel<Fd, Token>,
    source_id: u128,
    mime: Seq<char>,
)
    requires
        store.offered_mimes(source_id).contains(mime),
    ensures
        store.send_data(source_id, mime) != SendModel::Unavailable,
{
    match store.sources[source_id].data {
        DataModel::Ready(item) => {
            lemma_offered_item_has_bytes(item, mime);
        },
        _ => {},
    }
}

/// A source is offered under every mime type of text, and under the own mime type of every image
/// format, for which it has something to send.
pub proof fn what_can_be_sent_is_offered<Fd, Token>(
    store: StoreModel<Fd, Token>,
    source_id: u128,
    mime: Seq<char>,
)
    requires
        text_mimes().contains(mime) || exists|format: ImageFormat| #[trigger] format.mime() == mime,
        store.send_data(source_id, mime) != SendModel::Unavailable,
    ensures
        store.offered_mimes(source_id).contains(mime),
{
    match store.sources[source_id].data {
        DataModel::Ready(item) => {
            let base = if item_text(item) is Some {
                text_mimes()
            } else {
                Seq::empty()
            };
            if text_mimes().contains(mime) {
                lemma_base_is_offered(base, item, mime);
            } else {
                let format = choose|format: ImageFormat| #[trigger] format.mime() == mime;
                mime_type_names_its_format(format);
                lemma_image_is_offered(base, item, format);
            }
        },
        _ => {
            assert(seq![ImageFormat::Png.mime()][0] == ImageFormat::Png.mime());
        },
    }
}

/// The mime types of images come behind the others, which stay.
proof fn lemma_base_is_offered(base: Seq<Seq<char>>, entries: Seq<EntryModel>, mime: Seq<char>)
    requires
        base.contains(mime),
    ensures
        with_image_mimes(base, entries).contains(mime),
    decreases entries.len(),
{
    if entries.len() > 0 {
        lemma_base_is_offered(base, entries.drop_last(), mime);
        lemma_mime_stays(base, entries, mime);
    }
}

/// One entry more takes no mime type away.
proof fn lemma_mime_stays(base: Seq<Seq<char>>, entries: Seq<EntryModel>, mime: Seq<char>)
    requires
        entries.len() > 0,
        with_image_mimes(base, entries.drop_last()).contains(mime),
    ensures
        with_image_mimes(base, entries).contains(mime),
{
    let earlier = with_image_mimes(base, entries.drop_last());
    let k = choose|k: int| 0 <= k < earlier.len() && earlier[k] == mime;
    assert(with_image_mimes(base, entries)[k] == mime);
}

pub(crate) proof fn lemma_image_is_offered(
    base: Seq<Seq<char>>,
    entries: Seq<EntryModel>,
    format: ImageFormat,
)
    requires
        first_image(entries, format) is Some,
    ensures
        with_image_mimes(base, entries).contains(format.mime()),
    decreases entries.len(),
{
    let init = entries.drop_last();
    if first_image(init, format) is Some {
        lemma_image_is_offered(base, init, format);
        lemma_mime_stays(base, entries, format.mime());
    } else {
        lemma_first_image_is_last(entries, format);
        let earlier = with_image_mimes(base, init);
        if earlier.contains(format.mime()) {
            lemma_mime_stays(base, entries, format.mime());
        } else {
            assert(with_image_mimes(base, entries).last() == format.mime());
        }
    }
}

/// An image that is found among some entries, and not among all but the last, is the last.
proof fn lemma_first_image_is_last(entries: Seq<EntryModel>, format: ImageFormat)
    requires
        first_image(entries, format) is Some,
        first_image(entries.drop_last(), format) is None,
    ensures
        entries.len() > 0,
        entries.last() matches EntryModel::Image(image) && image.format == format,
    decreases entries.len(),
{
    if entries.len() > 1 {
        assert(entries.drop_last()[0] == entries[0]);
        assert(entries.drop_last().skip(1) =~= entries.skip(1).drop_last());
        lemma_first_image_is_last(entries.skip(1), format);
        assert(entries.skip(1).last() == entries.last());
    } else {
        assert(first_image(entries.skip(1), format) is None);
    }
}

/// What is offered: the text mime types when there is text, and the types of the images.
pub(crate) proof fn lemma_image_mimes(
    base: Seq<Seq<char>>,
    entries: Seq<EntryModel>,
    mime: Seq<char>,
)
    requires
        with_image_mimes(base, entries).contains(mime),
    ensures
        base.contains(mime) || exists|format: ImageFormat| #[trigger]
            format.mime() == mime && first_image(entries, format) is Some,
    decreases entries.len(),
{
    if entries.len() > 0 {
        let init = entries.drop_last();
        let earlier = with_image_mimes(base, init);
        let mimes = with_image_mimes(base, entries);
        if earlier.contains(mime) {
            lemma_image_mimes(base, init, mime);
            if !base.contains(mime) {
                let format = choose|format: ImageFormat| #[trigger]
                    format.mime() == mime && first_image(init, format) is Some;
                lemma_first_image_grows(entries, format);
            }
        } else {
            let k = choose|k: int| 0 <= k < mimes.len() && mimes[k] == mime;
            if k < earlier.len() {
                assert(earlier[k] == mime);
            }
            match entries.last() {
                EntryModel::Image(image) => {
                    assert(image.format.mime() == mime);
                    lemma_last_image_is_found(entries, image.format);
                },
                _ => {},
            }
        }
    }
}

proof fn lemma_first_image_grows(entries: Seq<EntryModel>, format: ImageFormat)
    requires
        entries.len() > 0,
        first_image(entries.drop_last(), format) is Some,
    ensures
        first_image(entries, format) is Some,
    decreases entries.len(),
{
    let init = entries.drop_last();
    if init.len() > 0 {
        assert(init[0] == entries[0]);
        assert(init.skip(1) =~= entries.skip(1).drop_last());
        match entries[0] {
            EntryModel::Image(image) if image.format == format => {},
            _ => {
                lemma_first_image_grows(entries.skip(1), format);
            },
        }
    }
}

proof fn lemma_last_image_is_found(entries: Seq<EntryModel>, format: ImageFormat)
    requires
        entries.len() > 0,
        entries.last() matches EntryModel::Image(image) && image.format == format,
    ensures
        first_image(entries, format) is Some,
    decreases entries.len(),
{
    if entries.len() > 1 {
        assert(entries.skip(1).last() == entries.last());
        lemma_last_image_is_found(entries.skip(1), format);
    }
}

proof fn lemma_offered_item_has_bytes(item: Seq<EntryModel>, mime: Seq<char>)
    requires
        item_mimes(item).contains(mime),
    ensures
        item_bytes(item, mime) is Some,
{
    let base = if item_text(item) is Some {
        text_mimes()
    } else {
        Seq::empty()
    };
    lemma_image_mimes(base, item, mime);
    if !base.contains(mime) {
        let format = choose|format: ImageFormat| #[trigger]
            format.mime() == mime && first_image(item, format) is Some;
        image_mimes_are_not_text(format);
        mime_type_names_its_format(format);
    }
}

/// No mime type is offered twice.
pub proof fn offered_mime_types_are_distinct<Fd, Token>(
    store: StoreModel<Fd, Token>,
    source_id: u128,
)
    ensures
        store.offered_mimes(source_id).no_duplicates(),
{
    if store.sources.contains_key(source_id) {
        match store.sources[source_id].data {
            DataModel::Ready(item) => {
                text_mimes_are_distinct();
                let base = if item_text(item) is Some {
                    text_mimes()
                } else {
                    Seq::empty()
                };
                lemma_no_mime_twice(base, item);
            },
            _ => {},
        }
    }
}

proof fn lemma_no_mime_twice(base: Seq<Seq<char>>, entries: Seq<EntryModel>)
    requires
        base.no_duplicates(),
    ensures
        with_image_mimes(base, entries).no_duplicates(),
    decreases entries.len(),
{
    if entries.len() > 0 {
        lemma_no_mime_twice(base, entries.drop_last());
    }
}

} // verus!
