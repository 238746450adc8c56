//! The steps of a clipboard transfer. The event loop performs what a step asks for and reports
//! the outcome to the next one.

use vstd::prelude::*;
use vstd::slice::slice_subrange;
use crate::ids::{is_random_id, new_id};
use crate::item::{mime_type_names_its_format, ImageFormat};
use crate::mime::image_mimes_are_not_text;
use crate::png::{hash, is_png, read_png_dimensions, starts_as_png};
use crate::sources::{
    ClipboardSources, ClipboardTransfer, DeferredClipboardImageError, SendData,
};
use crate::store::{
    item_bytes, lemma_take_one_more, png_item, SendModel, StoreModel,
};

verus! {

broadcast use vstd::std_specs::hash::group_hash_axioms;

/// How many seconds a transfer may take.
pub const DEFERRED_SEND_TIMEOUT_SECS: u64 = 5;

/// Bytes on their way to another program.
pub struct Outgoing {
    pub bytes: Vec<u8>,
    /// How many of the bytes are written.
    pub written: usize,
}

/// What became of an attempt to write.
#[derive(Clone, Copy, Debug, PartialEq, Eq, Structural)]
pub enum WriteOutcome {
    /// So many bytes were taken.
    Wrote(usize),
    /// The descriptor takes no bytes for now.
    WouldBlock,
    /// The attempt was interrupted.
    Interrupted,
    /// The descriptor takes no bytes any more.
    Failed,
}

/// What a writer does next.
#[derive(Clone, Copy, Debug, PartialEq, Eq, Structural)]
pub enum WriteAction {
    /// Write again.
    Retry,
    /// Wait until the descriptor takes bytes again.
    Wait,
    /// Close the descriptor and end the transfer.
    Finish,
}

impl Outgoing {
    /// No more bytes are written than there are.
    pub open spec fn wf(self) -> bool {
        self.written <= self.bytes@.len()
    }

    /// The bytes that are written.
    pub open spec fn delivered(self) -> Seq<u8> {
        self.bytes@.take(self.written as int)
    }

    /// The bytes that are not yet written.
    pub open spec fn rest(self) -> Seq<u8> {
        self.bytes@.skip(self.written as int)
    }

    /// Bytes of which none is written.
    pub fn new(bytes: Vec<u8>) -> (outgoing: Self)
        ensures
            outgoing.wf(),
            outgoing.bytes@ == bytes@,
            outgoing.written == 0,
            outgoing.delivered() == Seq::<u8>::empty(),
            outgoing.rest() == bytes@,
    {
        Outgoing { bytes, written: 0 }
    }

    /// Returns the bytes that are not yet written.
    pub fn remaining(&self) -> (rest: &[u8])
        requires
            self.wf(),
        ensures
            rest@ == self.rest(),
    {
        slice_subrange(self.bytes.as_slice(), self.written, self.bytes.len())
    }

    /// Takes note of an attempt to write the remaining bytes. A writer that took no byte at
    /// all is done, whatever remains.
    pub fn on_write(&mut self, outcome: WriteOutcome) -> (action: WriteAction)
        requires
            old(self).wf(),
            outcome matches WriteOutcome::Wrote(count) ==> count <= old(self).rest().len(),
        ensures
            final(self).wf(),
            final(self).bytes == old(self).bytes,
            match outcome {
                WriteOutcome::Wrote(count) => {
                    &&& final(self).delivered() == old(self).delivered() + old(self).rest().take(
                        count as int,
                    )
                    &&& final(self).rest() == old(self).rest().skip(count as int)
                    &&& action == if count == 0 || final(self).rest().len() == 0 {
                        WriteAction::Finish
                    } else {
                        WriteAction::Retry
                    }
                },
                WriteOutcome::WouldBlock => *final(self) == *old(self) && action
                    == WriteAction::Wait,
                WriteOutcome::Interrupted => *final(self) == *old(self) && action
                    == WriteAction::Retry,
                WriteOutcome::Failed => *final(self) == *old(self) && action
                    == WriteAction::Finish,
            },
    {
        match outcome {
            WriteOutcome::Wrote(count) => {
                let len = self.bytes.len();
                self.written = self.written + count;
                assert(self.delivered() =~= old(self).delivered() + old(self).rest().take(
                    count as int,
                ));
                assert(self.rest() =~= old(self).rest().skip(count as int));
                if count == 0 || self.written == len {
                    WriteAction::Finish
                } else {
                    WriteAction::Retry
                }
            },
            WriteOutcome::WouldBlock => WriteAction::Wait,
            WriteOutcome::Interrupted => WriteAction::Retry,
            WriteOutcome::Failed => WriteAction::Finish,
        }
    }
}

/// What another program has received at any time is the start of the bytes, in their order, and
/// it has received all of them once none remain.
pub proof fn what_is_delivered_is_the_start(outgoing: Outgoing)
    requires
        outgoing.wf(),
    ensures
        outgoing.delivered() + outgoing.rest() == outgoing.bytes@,
        outgoing.delivered().is_prefix_of(outgoing.bytes@),
        outgoing.rest().len() == 0 ==> outgoing.delivered() == outgoing.bytes@,
{
    assert(outgoing.delivered() + outgoing.rest() =~= outgoing.bytes@);
}

/// A transfer whose writer is to be registered with the event loop.
pub struct WriteJob<Fd> {
    pub transfer_id: u128,
    pub fd: Fd,
    pub outgoing: Outgoing,
}

/// The value of a [`WriteJob`] of which nothing is written yet.
#[verifier::ext_equal]
pub struct JobModel<Fd> {
    pub transfer_id: u128,
    pub fd: Fd,
    pub bytes: Seq<u8>,
}

impl<Fd> WriteJob<Fd> {
    /// Nothing is written yet.
    pub open spec fn fresh(self) -> bool {
        self.outgoing.written == 0
    }
}

impl<Fd> View for WriteJob<Fd> {
    type V = JobModel<Fd>;

    open spec fn view(&self) -> JobModel<Fd> {
        JobModel { transfer_id: self.transfer_id, fd: self.fd, bytes: self.outgoing.bytes@ }
    }
}

/// The values of some jobs.
pub open spec fn job_views<Fd>(jobs: Seq<WriteJob<Fd>>) -> Seq<JobModel<Fd>> {
    jobs.map_values(|job: WriteJob<Fd>| job@)
}

/// Why a request for a transfer was dropped, and its descriptor closed.
#[derive(Clone, Copy, Debug, PartialEq, Eq, Structural)]
pub enum DropReason {
    /// The descriptor could not be made nonblocking.
    Blocking,
    /// The source has nothing to give for the mime type.
    Unavailable,
    /// Too many transfers are under way.
    QueueFull,
}

/// What follows a request for a transfer.
pub enum QueueAction {
    Dropped(DropReason),
    /// Register a timeout for the transfer, then go on with the data.
    ArmTimeout { transfer_id: u128, data: SendData },
}

/// What became of the timeout of a transfer.
pub enum TimeoutOutcome<Token> {
    /// The transfer has its timeout.
    Armed,
    /// The event loop refused the timeout.
    NotRegistered,
    /// The transfer is gone, and the timeout is to be removed from the event loop.
    TransferGone(Token),
}

/// What follows the registration of a timeout.
pub enum SendAction<Fd, Token> {
    /// Nothing: the transfer waits, or is gone.
    Nothing,
    /// The timeout is not needed: remove it from the event loop.
    RemoveToken(Token),
    /// Register a writer.
    Write(WriteJob<Fd>),
}

/// Whether a request for a transfer from a source is dropped, and why.
pub open spec fn drop_reason<Fd, Token>(
    store: StoreModel<Fd, Token>,
    source_id: u128,
    mime: Seq<char>,
    nonblocking: bool,
) -> Option<DropReason> {
    if !nonblocking {
        Some(DropReason::Blocking)
    } else if store.send_data(source_id, mime) == SendModel::Unavailable {
        Some(DropReason::Unavailable)
    } else if !store.can_enqueue(source_id) {
        Some(DropReason::QueueFull)
    } else {
        None
    }
}

/// Takes a request for a transfer from a source. `nonblocking` tells whether the descriptor
/// could be made nonblocking.
pub fn queue_source_send<Fd, Token>(
    sources: &mut ClipboardSources<Fd, Token>,
    source_id: u128,
    mime_type: &str,
    fd: Fd,
    nonblocking: bool,
) -> (action: QueueAction)
    ensures
        match action {
            QueueAction::Dropped(reason) => {
                &&& drop_reason(old(sources)@, source_id, mime_type@, nonblocking) == Some(reason)
                &&& final(sources)@ == old(sources)@
            },
            QueueAction::ArmTimeout { transfer_id, data } => {
                &&& drop_reason(old(sources)@, source_id, mime_type@, nonblocking) is None
                &&& is_random_id(transfer_id)
                &&& data@ == old(sources)@.send_data(source_id, mime_type@)
                &&& final(sources)@ == old(sources)@.enqueued(source_id, transfer_id, fd)
            },
        },
{
    let transfer_id = new_id();
    queue_source_send_as(sources, source_id, transfer_id, mime_type, fd, nonblocking)
}

/// Takes a request for a transfer from a source, under a given identifier.
pub fn queue_source_send_as<Fd, Token>(
    sources: &mut ClipboardSources<Fd, Token>,
    source_id: u128,
    transfer_id: u128,
    mime_type: &str,
    fd: Fd,
    nonblocking: bool,
) -> (action: QueueAction)
    ensures
        match action {
            QueueAction::Dropped(reason) => {
                &&& drop_reason(old(sources)@, source_id, mime_type@, nonblocking) == Some(reason)
                &&& final(sources)@ == old(sources)@
            },
            QueueAction::ArmTimeout { transfer_id: queued_id, data } => {
                &&& drop_reason(old(sources)@, source_id, mime_type@, nonblocking) is None
                &&& queued_id == transfer_id
                &&& data@ == old(sources)@.send_data(source_id, mime_type@)
                &&& final(sources)@ == old(sources)@.enqueued(source_id, transfer_id, fd)
            },
        },
{
    if !nonblocking {
        return QueueAction::Dropped(DropReason::Blocking);
    }
    let data = sources.send_data(source_id, mime_type);
    let unavailable = match &data {
        SendData::Unavailable => true,
        _ => false,
    };
    if unavailable {
        return QueueAction::Dropped(DropReason::Unavailable);
    }
    if !sources.enqueue_transfer_as(source_id, transfer_id, fd) {
        return QueueAction::Dropped(DropReason::QueueFull);
    }
    QueueAction::ArmTimeout { transfer_id, data }
}

/// Notes the registration of the timeout of a transfer, `None` when it failed.
pub fn insert_transfer_timeout<Fd, Token>(
    sources: &mut ClipboardSources<Fd, Token>,
    transfer_id: u128,
    token: Option<Token>,
) -> (outcome: TimeoutOutcome<Token>)
    ensures
        match token {
            Some(token) => {
                &&& final(sources)@ == old(sources)@.with_timeout_token(transfer_id, token)
                &&& outcome == if old(sources)@.transfers.contains_key(transfer_id) {
                    TimeoutOutcome::Armed
                } else {
                    TimeoutOutcome::TransferGone(token)
                }
            },
            None => final(sources)@ == old(sources)@ && outcome is NotRegistered,
        },
{
    match token {
        Some(token) => {
            if sources.transfers.contains_key(&transfer_id) {
                sources.set_timeout_token(transfer_id, token);
                TimeoutOutcome::Armed
            } else {
                TimeoutOutcome::TransferGone(token)
            }
        },
        None => TimeoutOutcome::NotRegistered,
    }
}

/// Hands the descriptor of a waiting transfer and the bytes for it to a writer.
pub fn start_sending<Fd, Token>(
    sources: &mut ClipboardSources<Fd, Token>,
    transfer_id: u128,
    bytes: Vec<u8>,
) -> (job: Option<WriteJob<Fd>>)
    ensures
        final(sources)@ == old(sources)@.sending(transfer_id),
        match old(sources)@.waiting_fd(transfer_id) {
            Some(fd) => {
                &&& job matches Some(job)
                &&& job.fresh()
                &&& job@ == (JobModel { transfer_id, fd, bytes: bytes@ })
            },
            None => job is None,
        },
{
    match sources.begin_sending(transfer_id) {
        Some(fd) => Some(WriteJob { transfer_id, fd, outgoing: Outgoing::new(bytes) }),
        None => None,
    }
}

/// Notes the registration of the writer of a transfer, `None` when it failed. Returns the token
/// that the event loop is to remove: that of the timeout of a transfer that cannot be written,
/// or that of a writer whose transfer is gone.
pub fn writer_inserted<Fd, Token>(
    sources: &mut ClipboardSources<Fd, Token>,
    transfer_id: u128,
    token: Option<Token>,
) -> (unused: Option<Token>)
    ensures
        match token {
            Some(token) => {
                &&& final(sources)@ == old(sources)@.with_write_token(transfer_id, token)
                &&& unused == if old(sources)@.transfers.contains_key(transfer_id) {
                    None
                } else {
                    Some(token)
                }
            },
            None => {
                &&& final(sources)@ == old(sources)@.without_transfer(transfer_id)
                &&& unused == match old(sources)@.transfer(transfer_id) {
                    Some(transfer) => transfer.timeout_token,
                    None => None,
                }
            },
        },
{
    match token {
        Some(token) => {
            if sources.transfers.contains_key(&transfer_id) {
                sources.set_write_token(transfer_id, token);
                None
            } else {
                Some(token)
            }
        },
        None => match sources.remove_transfer(transfer_id) {
            Some(transfer) => transfer.timeout_token,
            None => None,
        },
    }
}

/// Goes on with a queued transfer once the registration of its timeout is reported, `None` when
/// it failed. A transfer without a timeout is given up.
pub fn queued_timeout_inserted<Fd, Token>(
    sources: &mut ClipboardSources<Fd, Token>,
    transfer_id: u128,
    data: SendData,
    token: Option<Token>,
) -> (action: SendAction<Fd, Token>)
    ensures
        match token {
            None => {
                &&& final(sources)@ == old(sources)@.without_transfer(transfer_id)
                &&& action is Nothing
            },
            Some(token) => if !old(sources)@.transfers.contains_key(transfer_id) {
                &&& final(sources)@ == old(sources)@
                &&& action == SendAction::<Fd, Token>::RemoveToken(token)
            } else {
                match data {
                    SendData::Ready(bytes) => {
                        &&& final(sources)@ == old(sources)@.with_timeout_token(
                            transfer_id,
                            token,
                        ).sending(transfer_id)
                        &&& match old(sources)@.waiting_fd(transfer_id) {
                            Some(fd) => {
                                &&& action matches SendAction::Write(job)
                                &&& job.fresh()
                                &&& job@ == (JobModel { transfer_id, fd, bytes: bytes@ })
                            },
                            None => action is Nothing,
                        }
                    },
                    _ => {
                        &&& final(sources)@ == old(sources)@.with_timeout_token(
                            transfer_id,
                            token,
                        )
                        &&& action is Nothing
                    },
                }
            },
        },
{
    match insert_transfer_timeout(sources, transfer_id, token) {
        TimeoutOutcome::NotRegistered => {
            sources.remove_transfer(transfer_id);
            SendAction::Nothing
        },
        TimeoutOutcome::TransferGone(token) => {
            sources.remove_transfer(transfer_id);
            SendAction::RemoveToken(token)
        },
        TimeoutOutcome::Armed => match data {
            SendData::Ready(bytes) => match start_sending(sources, transfer_id, bytes) {
                Some(job) => SendAction::Write(job),
                None => SendAction::Nothing,
            },
            SendData::Pending | SendData::Unavailable => SendAction::Nothing,
        },
    }
}

/// The tokens that the event loop holds for some transfers, in their order.
pub open spec fn tokens_of<Fd, Token>(transfers: Seq<ClipboardTransfer<Fd, Token>>) -> Seq<Token>
    decreases transfers.len(),
{
    if transfers.len() == 0 {
        Seq::empty()
    } else {
        let transfer = transfers.last();
        tokens_of(transfers.drop_last()) + optional(transfer.timeout_token) + optional(
            transfer.write_token,
        )
    }
}

/// The sequence of an optional value.
pub open spec fn optional<T>(value: Option<T>) -> Seq<T> {
    match value {
        Some(value) => seq![value],
        None => Seq::empty(),
    }
}

/// Ends some transfers: closes the descriptors with which they still wait, and returns the
/// tokens that the event loop is to remove.
pub fn remove_transfers<Fd, Token>(transfers: Vec<ClipboardTransfer<Fd, Token>>) -> (tokens: Vec<
    Token,
>)
    ensures
        tokens@ == tokens_of(transfers@),
{
    let ghost all = transfers@;
    let mut tokens: Vec<Token> = Vec::new();
    assert(all.take(0) =~= Seq::empty());
    for transfer in iter: transfers
        invariant
            iter.seq() == all,
            tokens@ == tokens_of(all.take(iter.index())),
    {
        proof {
            assert(all.take(iter.index() + 1).drop_last() =~= all.take(iter.index()));
            assert(all.take(iter.index() + 1).last() == transfer);
        }
        let ClipboardTransfer { source_id: _, state: _, timeout_token, write_token } = transfer;
        match timeout_token {
            Some(token) => {
                tokens.push(token);
            },
            None => {},
        }
        match write_token {
            Some(token) => {
                tokens.push(token);
            },
            None => {},
        }
        assert(tokens@ =~= tokens_of(all.take(iter.index() + 1)));
    }
    assert(all.take(all.len() as int) =~= all);
    tokens
}

/// Breaks the promise of a source. Returns the tokens that the event loop is to remove.
pub fn fail_source<Fd, Token>(sources: &mut ClipboardSources<Fd, Token>, source_id: u128) -> (
    result: Result<Vec<Token>, DeferredClipboardImageError>)
    ensures
        final(sources)@ == old(sources)@.failed(source_id),
        match result {
            Ok(tokens) => {
                &&& old(sources)@.is_pending(source_id)
                &&& tokens@ == tokens_of(old(sources)@.transfers_of(source_id))
            },
            Err(error) => {
                &&& !old(sources)@.is_pending(source_id)
                &&& error == DeferredClipboardImageError::Retired
            },
        },
{
    match sources.fail(source_id) {
        Ok(transfers) => Ok(remove_transfers(transfers)),
        Err(error) => Err(error),
    }
}

/// Takes a source out. Returns the tokens that the event loop is to remove.
pub fn cancel_source<Fd, Token>(sources: &mut ClipboardSources<Fd, Token>, source_id: u128) -> (
    tokens: Vec<Token>)
    ensures
        final(sources)@ == old(sources)@.cancelled(source_id),
        tokens@ == tokens_of(old(sources)@.transfers_of(source_id)),
{
    let transfers = sources.cancel(source_id);
    remove_transfers(transfers)
}

/// What follows an attempt to keep the promise of a source.
pub struct Fulfillment<Fd, Token> {
    pub result: Result<(), DeferredClipboardImageError>,
    /// The writers to register.
    pub jobs: Vec<WriteJob<Fd>>,
    /// The tokens that the event loop is to remove.
    pub tokens: Vec<Token>,
}

/// The writers for the transfers that a list names and that still wait, in the order of the
/// list.
pub open spec fn waiting_jobs<Fd, Token>(
    store: StoreModel<Fd, Token>,
    ids: Seq<u128>,
    bytes: Seq<u8>,
) -> Seq<JobModel<Fd>>
    decreases ids.len(),
{
    if ids.len() == 0 {
        Seq::empty()
    } else {
        let earlier = waiting_jobs(store, ids.drop_last(), bytes);
        let id = ids.last();
        match store.waiting_fd(id) {
            Some(fd) if !ids.drop_last().contains(id) => earlier.push(
                JobModel { transfer_id: id, fd, bytes },
            ),
            _ => earlier,
        }
    }
}

/// How a source of a store takes an image that is promised.
pub open spec fn fulfillment_result<Fd, Token>(
    store: StoreModel<Fd, Token>,
    source_id: u128,
    decodes: bool,
) -> Result<(), DeferredClipboardImageError> {
    if !store.is_pending(source_id) {
        Err(DeferredClipboardImageError::Retired)
    } else if !decodes {
        Err(DeferredClipboardImageError::InvalidPng)
    } else {
        Ok(())
    }
}

/// The store after an attempt to keep the promise of a source.
pub open spec fn after_fulfillment<Fd, Token>(
    store: StoreModel<Fd, Token>,
    source_id: u128,
    png_bytes: Seq<u8>,
    decodes: bool,
    id: u64,
) -> StoreModel<Fd, Token> {
    if !store.is_pending(source_id) {
        store
    } else if !decodes {
        store.failed(source_id)
    } else {
        store.fulfilled(source_id, png_bytes, id).sending_all(store.sources[source_id].transfers)
    }
}

/// The writers to register after an attempt to keep the promise of a source.
pub open spec fn fulfillment_jobs<Fd, Token>(
    store: StoreModel<Fd, Token>,
    source_id: u128,
    png_bytes: Seq<u8>,
    decodes: bool,
) -> Seq<JobModel<Fd>> {
    if store.is_pending(source_id) && decodes {
        waiting_jobs(store, store.sources[source_id].transfers, png_bytes)
    } else {
        Seq::empty()
    }
}

/// The tokens to remove after an attempt to keep the promise of a source.
pub open spec fn fulfillment_tokens<Fd, Token>(
    store: StoreModel<Fd, Token>,
    source_id: u128,
    decodes: bool,
) -> Seq<Token> {
    if store.is_pending(source_id) && !decodes {
        tokens_of(store.transfers_of(source_id))
    } else {
        Seq::empty()
    }
}

/// Keeps the promise of a source with a PNG image, or breaks it when the bytes are not one.
pub fn fulfill_source<Fd, Token>(
    sources: &mut ClipboardSources<Fd, Token>,
    source_id: u128,
    png_bytes: Vec<u8>,
) -> (fulfillment: Fulfillment<Fd, Token>)
    ensures
        exists|id: u64|
            final(sources)@ == #[trigger] after_fulfillment(
                old(sources)@,
                source_id,
                png_bytes@,
                is_png(png_bytes@),
                id,
            ),
        fulfillment.result == fulfillment_result(
            old(sources)@,
            source_id,
            is_png(png_bytes@),
        ),
        job_views(fulfillment.jobs@) == fulfillment_jobs(
            old(sources)@,
            source_id,
            png_bytes@,
            is_png(png_bytes@),
        ),
        forall|i: int|
            0 <= i < fulfillment.jobs@.len() ==> (#[trigger] fulfillment.jobs@[i]).fresh(),
        fulfillment.tokens@ == fulfillment_tokens(
            old(sources)@,
            source_id,
            is_png(png_bytes@),
        ),
        fulfillment.result is Ok ==> exists|width: u32, height: u32|
            starts_as_png(png_bytes@, width, height),
{
    let dimensions = read_png_dimensions(&png_bytes);
    let decodes = dimensions.is_some();
    let id = hash(&png_bytes);
    proof {
        if decodes {
            let (width, height) = dimensions->0;
            assert(starts_as_png(png_bytes@, width, height));
        }
    }
    fulfill_source_as(sources, source_id, png_bytes, decodes, id)
}

/// Keeps the promise of a source with an image of a given identifier, or breaks it. `decodes`
/// tells whether the bytes are a PNG image.
pub fn fulfill_source_as<Fd, Token>(
    sources: &mut ClipboardSources<Fd, Token>,
    source_id: u128,
    png_bytes: Vec<u8>,
    decodes: bool,
    id: u64,
) -> (fulfillment: Fulfillment<Fd, Token>)
    ensures
        final(sources)@ == after_fulfillment(
            old(sources)@,
            source_id,
            png_bytes@,
            decodes,
            id,
        ),
        fulfillment.result == fulfillment_result(old(sources)@, source_id, decodes),
        job_views(fulfillment.jobs@) == fulfillment_jobs(
            old(sources)@,
            source_id,
            png_bytes@,
            decodes,
        ),
        forall|i: int|
            0 <= i < fulfillment.jobs@.len() ==> (#[trigger] fulfillment.jobs@[i]).fresh(),
        fulfillment.tokens@ == fulfillment_tokens(old(sources)@, source_id, decodes),
{
    let ghost before = sources@;
    let mut jobs: Vec<WriteJob<Fd>> = Vec::new();
    assert(job_views(jobs@) =~= Seq::empty());
    if !decodes {
        return match fail_source(sources, source_id) {
            Ok(tokens) => Fulfillment {
                result: Err(DeferredClipboardImageError::InvalidPng),
                jobs,
                tokens,
            },
            Err(error) => Fulfillment { result: Err(error), jobs, tokens: Vec::new() },
        };
    }
    let ghost png = png_bytes@;
    let transfer_ids = match sources.fulfill_as(source_id, png_bytes, id) {
        Ok(transfer_ids) => transfer_ids,
        Err(error) => {
            return Fulfillment { result: Err(error), jobs, tokens: Vec::new() };
        },
    };
    let ghost kept = before.fulfilled(source_id, png, id);
    let ghost ids = transfer_ids@;
    let mut i: usize = 0;
    proof {
        png_item_gives_its_bytes(png, id);
        assert(sources@.transfers =~= kept.sending_all(ids.take(0)).transfers);
    }
    while i < transfer_ids.len()
        invariant
            i <= transfer_ids@.len(),
            ids == transfer_ids@,
            before.is_pending(source_id),
            kept == before.fulfilled(source_id, png, id),
            item_bytes(png_item(png, id), ImageFormat::Png.mime()) == Some(png),
            sources@ == kept.sending_all(ids.take(i as int)),
            job_views(jobs@) == waiting_jobs(before, ids.take(i as int), png),
            forall|j: int| 0 <= j < jobs@.len() ==> (#[trigger] jobs@[j]).fresh(),
        decreases transfer_ids@.len() - i,
    {
        let transfer_id = transfer_ids[i];
        let ghost jobs_before = jobs@;
        proof {
            lemma_take_one_more(ids, i as int);
        }
        match sources.send_data(source_id, ImageFormat::Png.mime_type()) {
            SendData::Ready(bytes) => {
                match start_sending(sources, transfer_id, bytes) {
                    Some(job) => {
                        jobs.push(job);
                        assert(job_views(jobs@) =~= job_views(jobs_before).push(job@));
                    },
                    None => {},
                }
            },
            _ => {},
        }
        assert(sources@.transfers =~= kept.sending_all(ids.take(i + 1)).transfers);
        i += 1;
    }
    assert(ids.take(i as int) =~= ids);
    Fulfillment { result: Ok(()), jobs, tokens: Vec::new() }
}

/// An item that holds one PNG image gives its bytes when a PNG image is asked of it.
pub proof fn png_item_gives_its_bytes(bytes: Seq<u8>, id: u64)
    ensures
        item_bytes(png_item(bytes, id), ImageFormat::Png.mime()) == Some(bytes),
{
    image_mimes_are_not_text(ImageFormat::Png);
    mime_type_names_its_format(ImageFormat::Png);
}

} // verus!
