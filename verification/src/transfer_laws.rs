//! What each step of a transfer does.

use vstd::prelude::*;
use crate::ids::is_random_id;
use crate::png::png_dimensions;
use crate::source_laws::waiting_transfers_are_sent;
use crate::sources::{
    ClipboardSources, ClipboardTransfer, ClipboardTransferState, DeferredClipboardImageError,
    SendData,
};
use crate::store::StoreModel;
use crate::store_laws::{
    are_listed, began_sending, came_in, got_its_image, has_promised, has_room, is_gone,
    lemma_listed_are_listed, lemma_without_transfer_went_out, listed_went_out, lost_its_promise,
    same_other_transfers, went_out,
};
use crate::transfers::{
    after_fulfillment, cancel_source, fail_source, fulfill_source, fulfill_source_as,
    insert_transfer_timeout, job_views, queue_source_send, queue_source_send_as,
    queued_timeout_inserted, remove_transfers, start_sending, tokens_of, waiting_jobs,
    writer_inserted, DropReason, Fulfillment, JobModel, Outgoing, QueueAction, SendAction,
    TimeoutOutcome, WriteAction, WriteJob, WriteOutcome,
};

verus! {

/// Bytes that are to be written all remain at first.
pub proof fn nothing_is_written_at_first(bytes: Vec<u8>, outgoing: Outgoing)
    requires
        call_ensures(Outgoing::new, (bytes,), outgoing),
    ensures
        outgoing.bytes@ == bytes@,
        outgoing.written == 0,
{
}

/// What remains is every byte behind those that are written.
pub proof fn what_remains_is_not_written(outgoing: Outgoing, rest: &[u8])
    requires
        outgoing.written <= outgoing.bytes@.len(),
        call_ensures(Outgoing::remaining, (&outgoing,), rest),
    ensures
        rest@.len() == outgoing.bytes@.len() - outgoing.written,
        forall|i: int|
            0 <= i < rest@.len() ==> #[trigger] rest@[i] == outgoing.bytes@[outgoing.written + i],
{
}

/// A write moves on by exactly what was taken. The writer is finished when all is written, when
/// nothing was taken, or when the write failed; it waits when it would block; else it writes on.
pub proof fn a_writer_moves_on_by_what_was_taken(
    outgoing: &mut Outgoing,
    outcome: WriteOutcome,
    action: WriteAction,
)
    requires
        old(outgoing).written <= old(outgoing).bytes@.len(),
        outcome matches WriteOutcome::Wrote(count) ==> old(outgoing).written + count <= old(
            outgoing,
        ).bytes@.len(),
        call_ensures(Outgoing::on_write, (outgoing, outcome), action),
    ensures
        final(outgoing).bytes@ == old(outgoing).bytes@,
        final(outgoing).written == match outcome {
            WriteOutcome::Wrote(count) => old(outgoing).written + count,
            _ => old(outgoing).written as int,
        },
        action is Finish <==> outcome is Failed || (outcome matches WriteOutcome::Wrote(count) && (
        count == 0 || old(outgoing).written + count == old(outgoing).bytes@.len())),
        action is Wait <==> outcome is WouldBlock,
{
    if let WriteOutcome::Wrote(count) = outcome {
        assert(final(outgoing).rest().len() == old(outgoing).rest().len() - count);
    }
}

/// Whether a writer is to write some bytes, all of them, to a descriptor.
pub open spec fn writes<Fd>(job: WriteJob<Fd>, transfer_id: u128, fd: Fd, bytes: Seq<u8>) -> bool {
    &&& job.transfer_id == transfer_id
    &&& job.fd == fd
    &&& job.outgoing.bytes@ == bytes
    &&& job.outgoing.written == 0
}

/// What a request for a transfer comes to. With a nonblocking descriptor, something to send and
/// room in the queues it is queued, with what the source answers; it is dropped, and nothing
/// changes, for want of one of these, and for the first of them that is wanting.
pub proof fn a_request_is_queued_when_it_can_be_answered<Fd, Token>(
    sources: &mut ClipboardSources<Fd, Token>,
    source_id: u128,
    transfer_id: u128,
    mime: &str,
    fd: Fd,
    nonblocking: bool,
    action: QueueAction,
    answer: SendData,
)
    requires
        call_ensures(
            queue_source_send_as::<Fd, Token>,
            (sources, source_id, transfer_id, mime, fd, nonblocking),
            action,
        ),
        call_ensures(
            ClipboardSources::<Fd, Token>::send_data,
            (old(sources), source_id, mime),
            answer,
        ),
    ensures
        nonblocking && !(answer is Unavailable) && has_room(old(sources)@, source_id) <==> action
            is ArmTimeout,
        match action {
            QueueAction::ArmTimeout { transfer_id: queued, data } => {
                &&& queued == transfer_id
                &&& data@ == answer@
                &&& came_in(old(sources)@, final(sources)@, source_id, transfer_id, fd)
            },
            QueueAction::Dropped(reason) => {
                &&& final(sources)@ == old(sources)@
                &&& reason == DropReason::Blocking <==> !nonblocking
                &&& reason == DropReason::Unavailable <==> nonblocking && answer is Unavailable
                &&& reason == DropReason::QueueFull <==> nonblocking && !(answer is Unavailable)
                    && !has_room(old(sources)@, source_id)
            },
        },
{
    let list = old(sources)@.sources[source_id].transfers;
    assert(list.push(transfer_id).drop_last() =~= list);
    assert(answer@ is Unavailable <==> answer is Unavailable);
}

/// A request that gets an identifier of its own comes to the same.
pub proof fn a_request_gets_an_identifier_when_it_can_be_answered<Fd, Token>(
    sources: &mut ClipboardSources<Fd, Token>,
    source_id: u128,
    mime: &str,
    fd: Fd,
    nonblocking: bool,
    action: QueueAction,
    answer: SendData,
)
    requires
        call_ensures(
            queue_source_send::<Fd, Token>,
            (sources, source_id, mime, fd, nonblocking),
            action,
        ),
        call_ensures(
            ClipboardSources::<Fd, Token>::send_data,
            (old(sources), source_id, mime),
            answer,
        ),
    ensures
        nonblocking && !(answer is Unavailable) && has_room(old(sources)@, source_id) <==> action
            is ArmTimeout,
        match action {
            QueueAction::ArmTimeout { transfer_id, data } => {
                &&& is_random_id(transfer_id)
                &&& data@ == answer@
                &&& came_in(old(sources)@, final(sources)@, source_id, transfer_id, fd)
            },
            QueueAction::Dropped(reason) => {
                &&& final(sources)@ == old(sources)@
                &&& reason == DropReason::Blocking <==> !nonblocking
                &&& reason == DropReason::Unavailable <==> nonblocking && answer is Unavailable
                &&& reason == DropReason::QueueFull <==> nonblocking && !(answer is Unavailable)
                    && !has_room(old(sources)@, source_id)
            },
        },
{
    let list = old(sources)@.sources[source_id].transfers;
    if let QueueAction::ArmTimeout { transfer_id, data } = action {
        assert(list.push(transfer_id).drop_last() =~= list);
    }
    assert(answer@ is Unavailable <==> answer is Unavailable);
}

/// Every mime type under which a source is offered is served while there is room.
pub proof fn what_is_offered_is_served<Fd, Token>(
    sources: &mut ClipboardSources<Fd, Token>,
    source_id: u128,
    transfer_id: u128,
    offered: Vec<&'static str>,
    place: int,
    fd: Fd,
    action: QueueAction,
)
    requires
        call_ensures(
            ClipboardSources::<Fd, Token>::offered_mime_types,
            (old(sources), source_id),
            offered,
        ),
        0 <= place < offered@.len(),
        has_room(old(sources)@, source_id),
        call_ensures(
            queue_source_send_as::<Fd, Token>,
            (sources, source_id, transfer_id, offered@[place], fd, true),
            action,
        ),
    ensures
        action matches QueueAction::ArmTimeout { transfer_id: queued, data } && queued
            == transfer_id && !(data is Unavailable),
{
    let mime = offered@[place]@;
    assert(crate::mime::str_views(offered@)[place] == mime);
    crate::source_laws::offered_mime_types_can_be_sent(old(sources)@, source_id, mime);
}

/// The outcome of registering a timeout: without one the transfer has none, with one it is noted
/// with a transfer that is there, and to be removed again where the transfer is gone.
pub proof fn a_timeout_belongs_to_a_transfer<Fd, Token>(
    sources: &mut ClipboardSources<Fd, Token>,
    transfer_id: u128,
    token: Option<Token>,
    outcome: TimeoutOutcome<Token>,
)
    requires
        call_ensures(
            insert_transfer_timeout::<Fd, Token>,
            (sources, transfer_id, token),
            outcome,
        ),
    ensures
        outcome is NotRegistered <==> token is None,
        outcome is Armed <==> token is Some && old(sources)@.transfers.contains_key(transfer_id),
        outcome matches TimeoutOutcome::TransferGone(unused) ==> token == Some(unused),
        !(outcome is Armed) ==> final(sources)@ == old(sources)@,
        outcome is Armed ==> got_timeout(old(sources)@, final(sources)@, transfer_id, token),
{
}

/// Whether a transfer has a timeout now, and nothing else has changed.
pub open spec fn got_timeout<Fd, Token>(
    before: StoreModel<Fd, Token>,
    after: StoreModel<Fd, Token>,
    transfer_id: u128,
    token: Option<Token>,
) -> bool {
    let transfer = after.transfers[transfer_id];
    &&& after.sources == before.sources
    &&& same_other_transfers(before, after, transfer_id)
    &&& after.transfers.contains_key(transfer_id)
    &&& transfer.source_id == before.transfers[transfer_id].source_id
    &&& transfer.state == before.transfers[transfer_id].state
    &&& transfer.timeout_token == token
    &&& transfer.write_token == before.transfers[transfer_id].write_token
}

/// A transfer that waits is handed to a writer with its descriptor and all of the bytes; one
/// that does not wait is not.
pub proof fn a_waiting_transfer_is_written<Fd, Token>(
    sources: &mut ClipboardSources<Fd, Token>,
    transfer_id: u128,
    bytes: Vec<u8>,
    job: Option<WriteJob<Fd>>,
)
    requires
        call_ensures(start_sending::<Fd, Token>, (sources, transfer_id, bytes), job),
    ensures
        began_sending(old(sources)@, final(sources)@, transfer_id),
        job is Some <==> old(sources)@.transfers.contains_key(transfer_id) && old(
            sources,
        )@.transfers[transfer_id].state is Pending,
        job matches Some(job) ==> old(sources)@.transfers[transfer_id].state
            == ClipboardTransferState::Pending(job.fd) && writes(
            job,
            transfer_id,
            job.fd,
            bytes@,
        ),
{
}

/// The outcome of registering a writer: it is noted with a transfer that is there, and to be
/// removed again where the transfer is gone. A transfer without a writer goes out, and its
/// timeout is to be removed.
pub proof fn a_writer_belongs_to_a_transfer<Fd, Token>(
    sources: &mut ClipboardSources<Fd, Token>,
    transfer_id: u128,
    token: Option<Token>,
    unused: Option<Token>,
)
    requires
        call_ensures(writer_inserted::<Fd, Token>, (sources, transfer_id, token), unused),
    ensures
        match token {
            Some(token) => if old(sources)@.transfers.contains_key(transfer_id) {
                let transfer = final(sources)@.transfers[transfer_id];
                &&& unused is None
                &&& final(sources)@.sources == old(sources)@.sources
                &&& same_other_transfers(old(sources)@, final(sources)@, transfer_id)
                &&& final(sources)@.transfers.contains_key(transfer_id)
                &&& transfer.source_id == old(sources)@.transfers[transfer_id].source_id
                &&& transfer.state == old(sources)@.transfers[transfer_id].state
                &&& transfer.timeout_token == old(sources)@.transfers[transfer_id].timeout_token
                &&& transfer.write_token == Some(token)
            } else {
                unused == Some(token) && final(sources)@ == old(sources)@
            },
            None => {
                &&& went_out(old(sources)@, final(sources)@, transfer_id)
                &&& old(sources)@.transfers.contains_key(transfer_id) ==> unused == old(
                    sources,
                )@.transfers[transfer_id].timeout_token
                &&& !old(sources)@.transfers.contains_key(transfer_id) ==> unused is None
            },
        },
{
    lemma_without_transfer_went_out(old(sources)@, transfer_id);
}

/// What follows the registration of the timeout of a queued transfer. Without a timeout the
/// transfer goes out. With one, data that is there is written, to the descriptor of the
/// transfer and all of it, and a promise is waited for.
pub proof fn a_queued_transfer_is_written_or_waits<Fd, Token>(
    sources: &mut ClipboardSources<Fd, Token>,
    transfer_id: u128,
    data: SendData,
    token: Option<Token>,
    action: SendAction<Fd, Token>,
)
    requires
        call_ensures(
            queued_timeout_inserted::<Fd, Token>,
            (sources, transfer_id, data, token),
            action,
        ),
    ensures
        token is None ==> action is Nothing && went_out(
            old(sources)@,
            final(sources)@,
            transfer_id,
        ),
        token is Some && !old(sources)@.transfers.contains_key(transfer_id) ==> {
            &&& action matches SendAction::RemoveToken(unused)
            &&& token == Some(unused)
            &&& final(sources)@ == old(sources)@
        },
        token is Some && old(sources)@.transfers.contains_key(transfer_id) ==> {
            let before = old(sources)@.transfers[transfer_id];
            let after = final(sources)@.transfers[transfer_id];
            &&& final(sources)@.sources == old(sources)@.sources
            &&& same_other_transfers(old(sources)@, final(sources)@, transfer_id)
            &&& final(sources)@.transfers.contains_key(transfer_id)
            &&& after.source_id == before.source_id
            &&& after.timeout_token == token
            &&& after.write_token == before.write_token
            &&& action is Write <==> data is Ready && before.state is Pending
            &&& action is Nothing || action is Write
            &&& match data {
                SendData::Ready(bytes) => {
                    &&& after.state is Sending
                    &&& action matches SendAction::Write(job) ==> before.state
                        == ClipboardTransferState::Pending(job.fd) && writes(
                        job,
                        transfer_id,
                        job.fd,
                        bytes@,
                    )
                },
                _ => after.state == before.state,
            }
        },
{
    lemma_without_transfer_went_out(old(sources)@, transfer_id);
}

/// The tokens of some transfers are those of the first and those of the others behind them. Of
/// one transfer they are that of its timeout and then that of its writer, as far as it has them.
pub proof fn every_token_is_given_back<Fd, Token>(
    a: Vec<ClipboardTransfer<Fd, Token>>,
    b: Vec<ClipboardTransfer<Fd, Token>>,
    both: Vec<ClipboardTransfer<Fd, Token>>,
    tokens_a: Vec<Token>,
    tokens_b: Vec<Token>,
    tokens_both: Vec<Token>,
)
    requires
        both@ == a@ + b@,
        call_ensures(remove_transfers::<Fd, Token>, (a,), tokens_a),
        call_ensures(remove_transfers::<Fd, Token>, (b,), tokens_b),
        call_ensures(remove_transfers::<Fd, Token>, (both,), tokens_both),
    ensures
        tokens_both@ == tokens_a@ + tokens_b@,
        a@.len() == 0 ==> tokens_a@.len() == 0,
        a@.len() == 1 ==> {
            let timeout = a@[0].timeout_token;
            let writer = a@[0].write_token;
            &&& timeout is None && writer is None ==> tokens_a@ == Seq::<Token>::empty()
            &&& timeout is Some && writer is None ==> tokens_a@ == seq![timeout->0]
            &&& timeout is None && writer is Some ==> tokens_a@ == seq![writer->0]
            &&& timeout is Some && writer is Some ==> tokens_a@ == seq![timeout->0, writer->0]
        },
        tokens_a@ == tokens_of(a@),
{
    tokens_are_joined(a@, b@);
}

/// The tokens of some transfers, one by one.
pub proof fn tokens_are_joined<Fd, Token>(
    a: Seq<ClipboardTransfer<Fd, Token>>,
    b: Seq<ClipboardTransfer<Fd, Token>>,
)
    ensures
        tokens_of(a + b) == tokens_of(a) + tokens_of(b),
        a.len() == 0 ==> tokens_of(a).len() == 0,
        a.len() == 1 ==> {
            let timeout = a[0].timeout_token;
            let writer = a[0].write_token;
            &&& timeout is None && writer is None ==> tokens_of(a) == Seq::<Token>::empty()
            &&& timeout is Some && writer is None ==> tokens_of(a) == seq![timeout->0]
            &&& timeout is None && writer is Some ==> tokens_of(a) == seq![writer->0]
            &&& timeout is Some && writer is Some ==> tokens_of(a) == seq![timeout->0, writer->0]
        },
    decreases b.len(),
{
    if a.len() == 1 {
        assert(tokens_of(a.drop_last()) =~= Seq::empty());
        assert(a.last() == a[0]);
        assert(tokens_of(a) =~= crate::transfers::optional(a[0].timeout_token)
            + crate::transfers::optional(a[0].write_token));
    }
    if b.len() == 0 {
        assert(a + b =~= a);
        assert(tokens_of(a) + tokens_of(b) =~= tokens_of(a));
    } else {
        tokens_are_joined(a, b.drop_last());
        assert((a + b).drop_last() =~= a + b.drop_last());
        assert((a + b).last() == b.last());
        assert(tokens_of(a + b) =~= tokens_of(a) + tokens_of(b));
    }
}

/// Whether some tokens are those of the transfers that a source listed.
pub open spec fn are_tokens_of_listed<Fd, Token>(
    before: StoreModel<Fd, Token>,
    source_id: u128,
    tokens: Seq<Token>,
) -> bool {
    exists|taken: Seq<ClipboardTransfer<Fd, Token>>| #[trigger]
        tokens_of(taken) == tokens && are_listed(
            before,
            before.sources[source_id].transfers,
            taken,
        )
}

/// A promise that stands is broken: the source loses it with its transfers, whose tokens are to
/// be removed.
pub proof fn a_failed_source_loses_its_transfers<Fd, Token>(
    sources: &mut ClipboardSources<Fd, Token>,
    source_id: u128,
    result: Result<Vec<Token>, DeferredClipboardImageError>,
)
    requires
        call_ensures(fail_source::<Fd, Token>, (sources, source_id), result),
    ensures
        match result {
            Ok(tokens) => {
                &&& has_promised(old(sources)@, source_id)
                &&& lost_its_promise(old(sources)@, final(sources)@, source_id)
                &&& are_tokens_of_listed(old(sources)@, source_id, tokens@)
            },
            Err(error) => {
                &&& !has_promised(old(sources)@, source_id)
                &&& error == DeferredClipboardImageError::Retired
                &&& final(sources)@ == old(sources)@
            },
        },
{
    let before = old(sources)@;
    lemma_listed_are_listed(before, before.sources[source_id].transfers);
    if result is Ok {
        assert(tokens_of(before.transfers_of(source_id)) == result->Ok_0@);
        assert(listed_went_out(before, final(sources)@, source_id));
    }
}

/// A source that is cancelled is gone with its transfers, whose tokens are to be removed.
pub proof fn a_cancelled_source_loses_its_transfers<Fd, Token>(
    sources: &mut ClipboardSources<Fd, Token>,
    source_id: u128,
    tokens: Vec<Token>,
)
    requires
        call_ensures(cancel_source::<Fd, Token>, (sources, source_id), tokens),
    ensures
        is_gone(old(sources)@, final(sources)@, source_id),
        old(sources)@.sources.contains_key(source_id) ==> are_tokens_of_listed(
            old(sources)@,
            source_id,
            tokens@,
        ),
        !old(sources)@.sources.contains_key(source_id) ==> tokens@.len() == 0 && final(sources)@
            == old(sources)@,
{
    let before = old(sources)@;
    lemma_listed_are_listed(before, before.sources[source_id].transfers);
    assert(tokens_of(before.transfers_of(source_id)) == tokens@);
    assert(listed_went_out(before, final(sources)@, source_id));
}

/// Whether the transfers that a list names no longer wait, and no other has changed.
pub open spec fn all_began_sending<Fd, Token>(
    before: StoreModel<Fd, Token>,
    after: StoreModel<Fd, Token>,
    ids: Seq<u128>,
) -> bool {
    forall|id: u128|
        {
            &&& #[trigger] after.transfers.contains_key(id) <==> before.transfers.contains_key(id)
            &&& before.transfers.contains_key(id) && !ids.contains(id) ==> after.transfers[id]
                == before.transfers[id]
            &&& before.transfers.contains_key(id) && ids.contains(id) ==> {
                &&& after.transfers[id].state is Sending
                &&& after.transfers[id].source_id == before.transfers[id].source_id
                &&& after.transfers[id].timeout_token == before.transfers[id].timeout_token
                &&& after.transfers[id].write_token == before.transfers[id].write_token
            }
        }
}

/// Whether a transfer that a list names waits.
pub open spec fn waits<Fd, Token>(
    before: StoreModel<Fd, Token>,
    ids: Seq<u128>,
    transfer_id: u128,
) -> bool {
    ids.contains(transfer_id) && before.transfers.contains_key(transfer_id)
        && before.transfers[transfer_id].state is Pending
}

/// Whether some writers are those of the transfers that a list names and that wait: one for each,
/// with its descriptor and all of the bytes, in the order of the list.
pub open spec fn serve_all_that_wait<Fd, Token>(
    before: StoreModel<Fd, Token>,
    ids: Seq<u128>,
    jobs: Seq<WriteJob<Fd>>,
    bytes: Seq<u8>,
) -> bool {
    &&& forall|i: int|
        0 <= i < jobs.len() ==> {
            let job = #[trigger] jobs[i];
            &&& waits(before, ids, job.transfer_id)
            &&& before.transfers[job.transfer_id].state == ClipboardTransferState::Pending(job.fd)
            &&& writes(job, job.transfer_id, job.fd, bytes)
        }
    &&& forall|id: u128| #[trigger]
        waits(before, ids, id) ==> exists|i: int|
            0 <= i < jobs.len() && (#[trigger] jobs[i]).transfer_id == id
    &&& forall|i: int, j: int|
        0 <= i < j < jobs.len() ==> (#[trigger] jobs[i]).transfer_id != (
        #[trigger] jobs[j]).transfer_id
    &&& ids.no_duplicates() ==> forall|i: int, j: int, k: int, l: int|
        0 <= i < j < jobs.len() && 0 <= k < ids.len() && 0 <= l < ids.len() && (
        #[trigger] jobs[i]).transfer_id == #[trigger] ids[k] && (#[trigger] jobs[j]).transfer_id
            == #[trigger] ids[l] ==> k < l
}

proof fn lemma_jobs_keep_the_order<Fd, Token>(
    store: StoreModel<Fd, Token>,
    ids: Seq<u128>,
    bytes: Seq<u8>,
    i: int,
    j: int,
    k: int,
    l: int,
)
    requires
        ids.no_duplicates(),
        0 <= i < j < waiting_jobs(store, ids, bytes).len(),
        0 <= k < ids.len(),
        0 <= l < ids.len(),
        waiting_jobs(store, ids, bytes)[i].transfer_id == ids[k],
        waiting_jobs(store, ids, bytes)[j].transfer_id == ids[l],
    ensures
        k < l,
    decreases ids.len(),
{
    let init = ids.drop_last();
    let earlier = waiting_jobs(store, init, bytes);
    let jobs = waiting_jobs(store, ids, bytes);
    waiting_transfers_are_sent(store, init, bytes);
    waiting_transfers_are_sent(store, ids, bytes);
    assert(init.no_duplicates());
    assert(jobs[i] == earlier[i]);
    assert(init.contains(earlier[i].transfer_id));
    let first = choose|first: int|
        0 <= first < init.len() && init[first] == earlier[i].transfer_id;
    assert(ids[first] == ids[k]);
    if j < earlier.len() {
        assert(jobs[j] == earlier[j]);
        assert(init.contains(earlier[j].transfer_id));
        let second = choose|second: int|
            0 <= second < init.len() && init[second] == earlier[j].transfer_id;
        assert(ids[second] == ids[l]);
        lemma_jobs_keep_the_order(store, init, bytes, i, j, first, second);
    } else {
        assert(jobs[j].transfer_id == ids[ids.len() - 1]);
    }
}

proof fn lemma_jobs_serve<Fd, Token>(
    store: StoreModel<Fd, Token>,
    ids: Seq<u128>,
    bytes: Seq<u8>,
    jobs: Seq<WriteJob<Fd>>,
)
    requires
        job_views(jobs) == waiting_jobs(store, ids, bytes),
        forall|i: int| 0 <= i < jobs.len() ==> (#[trigger] jobs[i]).fresh(),
    ensures
        serve_all_that_wait(store, ids, jobs, bytes),
{
    let models = waiting_jobs(store, ids, bytes);
    waiting_transfers_are_sent(store, ids, bytes);
    assert forall|i: int| 0 <= i < jobs.len() implies (#[trigger] jobs[i])@ == models[i] by {
        assert(job_views(jobs)[i] == jobs[i]@);
    }
    assert(jobs.len() == models.len());
    assert forall|i: int| 0 <= i < jobs.len() implies {
        let job = #[trigger] jobs[i];
        &&& waits(store, ids, job.transfer_id)
        &&& store.transfers[job.transfer_id].state == ClipboardTransferState::Pending(job.fd)
        &&& writes(job, job.transfer_id, job.fd, bytes)
    } by {
        assert(jobs[i]@ == models[i]);
        assert(jobs[i].fresh());
    }
    assert forall|id: u128| #[trigger] waits(store, ids, id) implies exists|i: int|
        0 <= i < jobs.len() && (#[trigger] jobs[i]).transfer_id == id by {
        let model = JobModel { transfer_id: id, fd: store.waiting_fd(id)->0, bytes };
        assert(models.contains(model));
        let i = choose|i: int| 0 <= i < models.len() && models[i] == model;
        assert(jobs[i]@ == models[i]);
        assert(jobs[i].transfer_id == id);
    }
    assert forall|i: int, j: int| 0 <= i < j < jobs.len() implies (#[trigger] jobs[i]).transfer_id
        != (#[trigger] jobs[j]).transfer_id by {
        assert(jobs[i]@ == models[i] && jobs[j]@ == models[j]);
        assert(models[i].transfer_id != models[j].transfer_id);
    }
    if ids.no_duplicates() {
        assert forall|i: int, j: int, k: int, l: int|
            0 <= i < j < jobs.len() && 0 <= k < ids.len() && 0 <= l < ids.len() && (
            #[trigger] jobs[i]).transfer_id == #[trigger] ids[k] && (
            #[trigger] jobs[j]).transfer_id == #[trigger] ids[l] implies k < l by {
            assert(jobs[i]@ == models[i] && jobs[j]@ == models[j]);
            lemma_jobs_keep_the_order(store, ids, bytes, i, j, k, l);
        }
    }
}

/// What becomes of a promise when an image comes for it, of which it is told whether it decodes.
/// Where the promise stands and the image decodes, the source holds all of the image, and every
/// transfer that waited is written all of it. Where it does not decode, the promise is broken.
/// Where no promise stands, nothing happens.
pub proof fn an_image_keeps_or_breaks_its_promise<Fd, Token>(
    sources: &mut ClipboardSources<Fd, Token>,
    source_id: u128,
    png_bytes: Vec<u8>,
    decodes: bool,
    id: u64,
    fulfillment: Fulfillment<Fd, Token>,
)
    requires
        call_ensures(
            fulfill_source_as::<Fd, Token>,
            (sources, source_id, png_bytes, decodes, id),
            fulfillment,
        ),
    ensures
        settles(
            old(sources)@,
            final(sources)@,
            source_id,
            png_bytes@,
            decodes,
            id,
            fulfillment,
        ),
{
    lemma_fulfillment_settles(
        old(sources)@,
        final(sources)@,
        source_id,
        png_bytes@,
        decodes,
        id,
        fulfillment,
    );
}

/// Whether an image settled a promise.
pub open spec fn settles<Fd, Token>(
    before: StoreModel<Fd, Token>,
    after: StoreModel<Fd, Token>,
    source_id: u128,
    bytes: Seq<u8>,
    decodes: bool,
    id: u64,
    fulfillment: Fulfillment<Fd, Token>,
) -> bool {
    let ids = before.sources[source_id].transfers;
    if !has_promised(before, source_id) {
        &&& fulfillment.result matches Err(error)
        &&& error == DeferredClipboardImageError::Retired
        &&& after == before
        &&& fulfillment.jobs@.len() == 0
        &&& fulfillment.tokens@.len() == 0
    } else if !decodes {
        &&& fulfillment.result matches Err(error)
        &&& error == DeferredClipboardImageError::InvalidPng
        &&& lost_its_promise(before, after, source_id)
        &&& fulfillment.jobs@.len() == 0
        &&& are_tokens_of_listed(before, source_id, fulfillment.tokens@)
    } else {
        &&& fulfillment.result is Ok
        &&& got_its_image(before, after, source_id, bytes, id)
        &&& all_began_sending(before, after, ids)
        &&& serve_all_that_wait(before, ids, fulfillment.jobs@, bytes)
        &&& fulfillment.tokens@.len() == 0
    }
}

pub(crate) proof fn lemma_fulfillment_settles<Fd, Token>(
    before: StoreModel<Fd, Token>,
    after: StoreModel<Fd, Token>,
    source_id: u128,
    bytes: Seq<u8>,
    decodes: bool,
    id: u64,
    fulfillment: Fulfillment<Fd, Token>,
)
    requires
        after == after_fulfillment(before, source_id, bytes, decodes, id),
        fulfillment.result == crate::transfers::fulfillment_result(before, source_id, decodes),
        job_views(fulfillment.jobs@) == crate::transfers::fulfillment_jobs(
            before,
            source_id,
            bytes,
            decodes,
        ),
        forall|i: int|
            0 <= i < fulfillment.jobs@.len() ==> (#[trigger] fulfillment.jobs@[i]).fresh(),
        fulfillment.tokens@ == crate::transfers::fulfillment_tokens(before, source_id, decodes),
    ensures
        settles(before, after, source_id, bytes, decodes, id, fulfillment),
{
    let ids = before.sources[source_id].transfers;
    assert(fulfillment.jobs@.len() == job_views(fulfillment.jobs@).len());
    if has_promised(before, source_id) {
        if decodes {
            lemma_jobs_serve(before, ids, bytes, fulfillment.jobs@);
            assert(got_its_image(before, after, source_id, bytes, id));
        } else {
            lemma_listed_are_listed(before, ids);
            assert(tokens_of(before.transfers_of(source_id)) == fulfillment.tokens@);
            assert(listed_went_out(before, after, source_id));
        }
    }
}

/// An image keeps the promise of a source exactly when the promise stands and the decoder gives
/// dimensions for the image, whatever these are.
pub proof fn an_image_that_decodes_keeps_its_promise<Fd, Token>(
    sources: &mut ClipboardSources<Fd, Token>,
    source_id: u128,
    png_bytes: Vec<u8>,
    fulfillment: Fulfillment<Fd, Token>,
)
    requires
        call_ensures(
            fulfill_source::<Fd, Token>,
            (sources, source_id, png_bytes),
            fulfillment,
        ),
    ensures
        fulfillment.result is Ok <==> has_promised(old(sources)@, source_id) && png_dimensions(
            png_bytes@,
            usize::BITS,
        ) is Some,
        exists|id: u64| #[trigger]
            settles(
                old(sources)@,
                final(sources)@,
                source_id,
                png_bytes@,
                png_dimensions(png_bytes@, usize::BITS) is Some,
                id,
                fulfillment,
            ),
{
    let decodes = png_dimensions(png_bytes@, usize::BITS) is Some;
    let id = choose|id: u64|
        final(sources)@ == #[trigger] after_fulfillment(
            old(sources)@,
            source_id,
            png_bytes@,
            decodes,
            id,
        );
    lemma_fulfillment_settles(
        old(sources)@,
        final(sources)@,
        source_id,
        png_bytes@,
        decodes,
        id,
        fulfillment,
    );
}

} // verus!
