//! The clipboard and the primary selection of a Wayland client.

use vstd::prelude::*;
use vstd::utf8::encode_utf8;
use crate::ids::{
    is_random_id, new_id, primary_self_mime_of, primary_self_mime_text, self_mime_of,
    self_mime_text,
};
use crate::item::{item_text, ClipboardItem, EntryModel};
use crate::mime::str_views;
use crate::offer::{
    first_step, next_step, optional_bytes, optional_item, DataOffer, ExternalSelection,
    ReadStage, ReadStep, StepModel,
};
use crate::png::{is_png, starts_as_png};
use crate::sources::{ClipboardSources, DeferredClipboardImageError};
use crate::store::{pending_source, ready_source, StoreModel, MAX_CLIPBOARD_TRANSFERS};
use crate::transfers::{
    after_fulfillment, cancel_source, drop_reason, fail_source, fulfill_source,
    fulfillment_jobs, fulfillment_result, fulfillment_tokens, insert_transfer_timeout,
    job_views, queue_source_send, start_sending, tokens_of, DropReason, Fulfillment, JobModel,
    QueueAction, SendAction, TimeoutOutcome,
};

verus! {

broadcast use vstd::std_specs::hash::group_hash_axioms;

/// The clipboard and the primary selection: what this program put there, and what others
/// offer. Offers are of kinds that the display server knows.
pub struct Clipboard<Fd, Token, Offer, PrimaryOffer> {
    /// A number that marks what this program itself put on a clipboard.
    pub self_mime_nonce: u128,
    pub sources: ClipboardSources<Fd, Token>,
    pub primary_contents: Option<ClipboardItem>,
    pub selection: ExternalSelection<Offer>,
    pub primary_selection: ExternalSelection<PrimaryOffer>,
}

/// What follows a request to send bytes that belong to no source.
pub enum BytesAction {
    Dropped(DropReason),
    /// Register a timeout for the transfer, then go on with the bytes.
    ArmTimeout { source_id: u128, transfer_id: u128, bytes: Vec<u8> },
}

/// The item of a source that only carries a transfer.
pub open spec fn empty_text() -> Seq<EntryModel> {
    seq![EntryModel::Text { text: Seq::empty(), metadata: None }]
}

/// Whether a request to send bytes is dropped, and why.
pub open spec fn bytes_drop_reason<Fd, Token>(
    store: StoreModel<Fd, Token>,
    nonblocking: bool,
) -> Option<DropReason> {
    if !nonblocking {
        Some(DropReason::Blocking)
    } else if store.transfers.len() >= MAX_CLIPBOARD_TRANSFERS {
        Some(DropReason::QueueFull)
    } else {
        None
    }
}

/// The store with bytes to send queued, as the only transfer of a source that goes away with it.
pub open spec fn bytes_queued<Fd, Token>(
    store: StoreModel<Fd, Token>,
    source_id: u128,
    transfer_id: u128,
    fd: Fd,
) -> StoreModel<Fd, Token> {
    store.with_source(source_id, ready_source(empty_text(), true)).enqueued(
        source_id,
        transfer_id,
        fd,
    )
}

/// The store once bytes to send were refused: nothing is left of their source.
pub open spec fn bytes_refused<Fd, Token>(
    store: StoreModel<Fd, Token>,
    source_id: u128,
) -> StoreModel<Fd, Token> {
    StoreModel { sources: store.sources.remove(source_id), ..store }
}

/// What is read of a selection once a reply is there.
pub open spec fn selection_step<T>(
    selection: ExternalSelection<T>,
    stage: ReadStage,
    reply: Option<Seq<u8>>,
    id: u64,
) -> StepModel {
    match selection.current_offer {
        Some(offer) => next_step(offer.mimes(), stage, reply, id),
        None => StepModel::Done(None),
    }
}

/// What a selection remembers after a step.
pub open spec fn cached_after(cached: Option<Seq<EntryModel>>, step: StepModel) -> Option<
    Seq<EntryModel>,
> {
    match step {
        StepModel::Done(Some(item)) => Some(item),
        _ => cached,
    }
}

/// A copy of an optional item.
fn copy_item(item: &Option<ClipboardItem>) -> (copy: Option<ClipboardItem>)
    ensures
        optional_item(copy) == optional_item(*item),
{
    match item {
        Some(item) => Some(item.clone()),
        None => None,
    }
}

impl<T> ExternalSelection<T> {
    /// Goes on with reading once the data of a mime type is received, and remembers the item
    /// when reading is over.
    pub fn received(&mut self, stage: ReadStage, bytes: Option<Vec<u8>>) -> (step: ReadStep)
        ensures
            final(self).current_offer == old(self).current_offer,
            exists|id: u64|
                step@ == #[trigger] selection_step(*old(self), stage, optional_bytes(bytes), id),
            optional_item(final(self).cached_read) == cached_after(
                optional_item(old(self).cached_read),
                step@,
            ),
    {
        let step = match &self.current_offer {
            Some(offer) => offer.received(stage, bytes),
            None => ReadStep::Done(None),
        };
        proof {
            match &self.current_offer {
                Some(offer) => {
                    let id = choose|id: u64|
                        step@ == #[trigger] next_step(
                            offer.mimes(),
                            stage,
                            optional_bytes(bytes),
                            id,
                        );
                    assert(step@ == selection_step(*old(self), stage, optional_bytes(bytes), id));
                },
                None => {
                    assert(step@ == selection_step(*old(self), stage, optional_bytes(bytes), 0));
                },
            }
        }
        match &step {
            ReadStep::Done(Some(item)) => {
                self.cached_read = Some(item.clone());
            },
            _ => {},
        }
        step
    }
}

impl<Fd, Token, Offer, PrimaryOffer> Clipboard<Fd, Token, Offer, PrimaryOffer> {
    /// Whether everything but the sources is the same as in another clipboard.
    pub open spec fn same_but_sources(self, other: Self) -> bool {
        &&& self.self_mime_nonce == other.self_mime_nonce
        &&& self.primary_contents == other.primary_contents
        &&& self.selection == other.selection
        &&& self.primary_selection == other.primary_selection
    }

    /// Whether an offer carries the mark of one of this program's sources.
    pub open spec fn marks(self, mimes: Seq<Seq<char>>, source_id: u128) -> bool {
        self.sources@.sources.contains_key(source_id) && mimes.contains(
            self_mime_text(self.self_mime_nonce, source_id),
        )
    }

    /// Whether an offer comes from this program itself.
    pub open spec fn is_own(self, mimes: Seq<Seq<char>>) -> bool {
        exists|source_id: u128| self.marks(mimes, source_id)
    }

    /// Whether reading the clipboard may begin with a step: with what is remembered of the
    /// offer, with the item of a source of this program that the offer is marked with, or with
    /// a request to the program that offers.
    pub open spec fn reads(self, step: StepModel) -> bool {
        match self.selection.current_offer {
            None => step == StepModel::Done(None),
            Some(offer) => if self.selection.cached_read is Some {
                step == StepModel::Done(optional_item(self.selection.cached_read))
            } else if self.is_own(offer.mimes()) {
                exists|source_id: u128| #[trigger]
                    self.marks(offer.mimes(), source_id) && step == StepModel::Done(
                        self.sources@.item(source_id),
                    )
            } else {
                step == first_step(offer.mimes())
            },
        }
    }

    /// The step with which reading the primary selection begins.
    pub open spec fn reads_primary(self) -> StepModel {
        match self.primary_selection.current_offer {
            None => StepModel::Done(None),
            Some(offer) => if self.primary_selection.cached_read is Some {
                StepModel::Done(optional_item(self.primary_selection.cached_read))
            } else if offer.mimes().contains(primary_self_mime_text(self.self_mime_nonce)) {
                StepModel::Done(optional_item(self.primary_contents))
            } else {
                first_step(offer.mimes())
            },
        }
    }

    /// An empty clipboard that marks its sources with a number of its own.
    pub fn new() -> (clipboard: Self)
        ensures
            is_random_id(clipboard.self_mime_nonce),
            clipboard.sources@ == StoreModel::<Fd, Token>::empty(),
            clipboard.primary_contents is None,
            clipboard.selection.cached_read is None,
            clipboard.selection.current_offer is None,
            clipboard.primary_selection.cached_read is None,
            clipboard.primary_selection.current_offer is None,
    {
        let nonce = new_id();
        Self::with_nonce(nonce)
    }

    /// An empty clipboard that marks its sources with a given number.
    pub fn with_nonce(self_mime_nonce: u128) -> (clipboard: Self)
        ensures
            clipboard.self_mime_nonce == self_mime_nonce,
            clipboard.sources@ == StoreModel::<Fd, Token>::empty(),
            clipboard.primary_contents is None,
            clipboard.selection.cached_read is None,
            clipboard.selection.current_offer is None,
            clipboard.primary_selection.cached_read is None,
            clipboard.primary_selection.current_offer is None,
    {
        Clipboard {
            self_mime_nonce,
            sources: ClipboardSources::new(),
            primary_contents: None,
            selection: ExternalSelection::new(),
            primary_selection: ExternalSelection::new(),
        }
    }

    /// Puts an item on the clipboard, as a source.
    pub fn set(&mut self, source_id: u128, item: ClipboardItem)
        ensures
            final(self).same_but_sources(*old(self)),
            final(self).sources@ == old(self).sources@.with_source(
                source_id,
                ready_source(item@, false),
            ),
    {
        self.sources.insert_ready(source_id, item, false);
    }

    /// Puts the promise of a PNG image on the clipboard, as a source.
    pub fn begin_deferred(&mut self, source_id: u128)
        ensures
            final(self).same_but_sources(*old(self)),
            final(self).sources@ == old(self).sources@.with_source(source_id, pending_source()),
    {
        self.sources.insert_pending(source_id);
    }

    /// Keeps the promise of a source with a PNG image, or breaks it when the bytes are not one.
    pub fn fulfill_deferred(&mut self, source_id: u128, png_bytes: Vec<u8>) -> (fulfillment:
        Fulfillment<Fd, Token>)
        ensures
            final(self).same_but_sources(*old(self)),
            exists|id: u64|
                final(self).sources@ == #[trigger] after_fulfillment(
                    old(self).sources@,
                    source_id,
                    png_bytes@,
                    is_png(png_bytes@),
                    id,
                ),
            fulfillment.result == fulfillment_result(
                old(self).sources@,
                source_id,
                is_png(png_bytes@),
            ),
            job_views(fulfillment.jobs@) == fulfillment_jobs(
                old(self).sources@,
                source_id,
                png_bytes@,
                is_png(png_bytes@),
            ),
            forall|i: int|
                0 <= i < fulfillment.jobs@.len() ==> (#[trigger] fulfillment.jobs@[i]).fresh(),
            fulfillment.tokens@ == fulfillment_tokens(
                old(self).sources@,
                source_id,
                is_png(png_bytes@),
            ),
            fulfillment.result is Ok ==> exists|width: u32, height: u32|
                starts_as_png(png_bytes@, width, height),
    {
        fulfill_source(&mut self.sources, source_id, png_bytes)
    }

    /// Breaks the promise of a source. Returns the tokens that the event loop is to remove.
    pub fn fail_deferred(&mut self, source_id: u128) -> (result: Result<
        Vec<Token>,
        DeferredClipboardImageError,
    >)
        ensures
            final(self).same_but_sources(*old(self)),
            final(self).sources@ == old(self).sources@.failed(source_id),
            match result {
                Ok(tokens) => {
                    &&& old(self).sources@.is_pending(source_id)
                    &&& tokens@ == tokens_of(old(self).sources@.transfers_of(source_id))
                },
                Err(error) => {
                    &&& !old(self).sources@.is_pending(source_id)
                    &&& error == DeferredClipboardImageError::Retired
                },
            },
    {
        fail_source(&mut self.sources, source_id)
    }

    /// Takes a source off the clipboard. Returns the tokens that the event loop is to remove.
    pub fn cancel_source(&mut self, source_id: u128) -> (tokens: Vec<Token>)
        ensures
            final(self).same_but_sources(*old(self)),
            final(self).sources@ == old(self).sources@.cancelled(source_id),
            tokens@ == tokens_of(old(self).sources@.transfers_of(source_id)),
    {
        cancel_source(&mut self.sources, source_id)
    }

    /// Puts an item in the primary selection.
    pub fn set_primary(&mut self, item: ClipboardItem)
        ensures
            final(self).primary_contents == Some(item),
            final(self).self_mime_nonce == old(self).self_mime_nonce,
            final(self).sources == old(self).sources,
            final(self).selection == old(self).selection,
            final(self).primary_selection == old(self).primary_selection,
    {
        self.primary_contents = Some(item);
    }

    /// Takes note of what another program offers on the clipboard.
    pub fn set_offer(&mut self, data_offer: Option<DataOffer<Offer>>)
        ensures
            final(self).selection.current_offer == data_offer,
            final(self).selection.cached_read is None,
            final(self).self_mime_nonce == old(self).self_mime_nonce,
            final(self).sources == old(self).sources,
            final(self).primary_contents == old(self).primary_contents,
            final(self).primary_selection == old(self).primary_selection,
    {
        self.selection.set_offer(data_offer);
    }

    /// Takes note of what another program offers in the primary selection.
    pub fn set_primary_offer(&mut self, data_offer: Option<DataOffer<PrimaryOffer>>)
        ensures
            final(self).primary_selection.current_offer == data_offer,
            final(self).primary_selection.cached_read is None,
            final(self).self_mime_nonce == old(self).self_mime_nonce,
            final(self).sources == old(self).sources,
            final(self).primary_contents == old(self).primary_contents,
            final(self).selection == old(self).selection,
    {
        self.primary_selection.set_offer(data_offer);
    }

    /// The mime type that marks one of this program's sources.
    pub fn self_mime(&self, source_id: u128) -> (mime: String)
        ensures
            mime@ == self_mime_text(self.self_mime_nonce, source_id),
    {
        self_mime_of(self.self_mime_nonce, source_id)
    }

    /// The mime type that marks this program's primary selection.
    pub fn primary_self_mime(&self) -> (mime: String)
        ensures
            mime@ == primary_self_mime_text(self.self_mime_nonce),
    {
        primary_self_mime_of(self.self_mime_nonce)
    }

    /// The mime types under which a source is offered to other programs.
    pub fn offered_mime_types(&self, source_id: u128) -> (mime_types: Vec<&'static str>)
        ensures
            str_views(mime_types@) == self.sources@.offered_mimes(source_id),
    {
        self.sources.offered_mime_types(source_id)
    }

    /// Takes a request for the data of a source. `nonblocking` tells whether the descriptor
    /// could be made nonblocking.
    pub fn send(&mut self, source_id: u128, mime_type: &str, fd: Fd, nonblocking: bool) -> (action:
        QueueAction)
        ensures
            final(self).same_but_sources(*old(self)),
            match action {
                QueueAction::Dropped(reason) => {
                    &&& drop_reason(old(self).sources@, source_id, mime_type@, nonblocking)
                        == Some(reason)
                    &&& final(self).sources@ == old(self).sources@
                },
                QueueAction::ArmTimeout { transfer_id, data } => {
                    &&& drop_reason(old(self).sources@, source_id, mime_type@, nonblocking) is None
                    &&& is_random_id(transfer_id)
                    &&& data@ == old(self).sources@.send_data(source_id, mime_type@)
                    &&& final(self).sources@ == old(self).sources@.enqueued(
                        source_id,
                        transfer_id,
                        fd,
                    )
                },
            },
    {
        queue_source_send(&mut self.sources, source_id, mime_type, fd, nonblocking)
    }

    /// The bytes with which a request for the primary selection is answered, under whichever
    /// mime type it comes, when there is text.
    pub fn send_primary(&self) -> (bytes: Option<Vec<u8>>)
        ensures
            optional_bytes(bytes) == match optional_item(self.primary_contents) {
                Some(item) => match item_text(item) {
                    Some(text) => Some(encode_utf8(text)),
                    None => None,
                },
                None => None,
            },
    {
        match &self.primary_contents {
            Some(contents) => match contents.text() {
                Some(text) => Some(text.as_str().as_bytes_vec()),
                None => None,
            },
            None => None,
        }
    }

    /// Takes a request to send bytes that belong to no source. `nonblocking` tells whether the
    /// descriptor could be made nonblocking.
    pub fn send_bytes(&mut self, fd: Fd, bytes: Vec<u8>, nonblocking: bool) -> (action: BytesAction)
        ensures
            final(self).same_but_sources(*old(self)),
            match action {
                BytesAction::Dropped(reason) => {
                    &&& bytes_drop_reason(old(self).sources@, nonblocking) == Some(reason)
                    &&& if nonblocking {
                        exists|source_id: u128| #[trigger]
                            is_random_id(source_id) && final(self).sources@ == bytes_refused(
                                old(self).sources@,
                                source_id,
                            )
                    } else {
                        final(self).sources@ == old(self).sources@
                    }
                },
                BytesAction::ArmTimeout { source_id, transfer_id, bytes: to_send } => {
                    &&& bytes_drop_reason(old(self).sources@, nonblocking) is None
                    &&& is_random_id(source_id)
                    &&& is_random_id(transfer_id)
                    &&& to_send@ == bytes@
                    &&& final(self).sources@ == bytes_queued(
                        old(self).sources@,
                        source_id,
                        transfer_id,
                        fd,
                    )
                },
            },
    {
        let source_id = new_id();
        let transfer_id = new_id();
        self.send_bytes_as(source_id, transfer_id, fd, bytes, nonblocking)
    }

    /// Takes a request to send bytes, as a transfer and a source of given identifiers.
    pub fn send_bytes_as(
        &mut self,
        source_id: u128,
        transfer_id: u128,
        fd: Fd,
        bytes: Vec<u8>,
        nonblocking: bool,
    ) -> (action: BytesAction)
        ensures
            final(self).same_but_sources(*old(self)),
            match bytes_drop_reason(old(self).sources@, nonblocking) {
                Some(reason) => {
                    &&& action == BytesAction::Dropped(reason)
                    &&& final(self).sources@ == if nonblocking {
                        bytes_refused(old(self).sources@, source_id)
                    } else {
                        old(self).sources@
                    }
                },
                None => {
                    &&& action == (BytesAction::ArmTimeout { source_id, transfer_id, bytes })
                    &&& final(self).sources@ == bytes_queued(
                        old(self).sources@,
                        source_id,
                        transfer_id,
                        fd,
                    )
                },
            },
    {
        if !nonblocking {
            return BytesAction::Dropped(DropReason::Blocking);
        }
        let item = ClipboardItem::new_string(String::new());
        assert(item@ =~= empty_text());
        self.sources.insert_ready(source_id, item, true);
        if !self.sources.enqueue_transfer_as(source_id, transfer_id, fd) {
            self.sources.cancel(source_id);
            assert(self.sources@ =~= bytes_refused(old(self).sources@, source_id));
            return BytesAction::Dropped(DropReason::QueueFull);
        }
        BytesAction::ArmTimeout { source_id, transfer_id, bytes }
    }

    /// Goes on with bytes to send once the registration of their timeout is reported, `None`
    /// when it failed. Bytes without a timeout are given up, and their source with them.
    pub fn bytes_timeout_inserted(
        &mut self,
        source_id: u128,
        transfer_id: u128,
        bytes: Vec<u8>,
        token: Option<Token>,
    ) -> (action: SendAction<Fd, Token>)
        ensures
            final(self).same_but_sources(*old(self)),
            match token {
                None => {
                    &&& final(self).sources@ == old(self).sources@.cancelled(source_id)
                    &&& action is Nothing
                },
                Some(token) => if !old(self).sources@.transfers.contains_key(transfer_id) {
                    &&& final(self).sources@ == old(self).sources@.cancelled(source_id)
                    &&& action == SendAction::<Fd, Token>::RemoveToken(token)
                } else {
                    &&& final(self).sources@ == old(self).sources@.with_timeout_token(
                        transfer_id,
                        token,
                    ).sending(transfer_id)
                    &&& match old(self).sources@.waiting_fd(transfer_id) {
                        Some(fd) => {
                            &&& action matches SendAction::Write(job)
                            &&& job.fresh()
                            &&& job@ == (JobModel { transfer_id, fd, bytes: bytes@ })
                        },
                        None => action is Nothing,
                    }
                },
            },
    {
        match insert_transfer_timeout(&mut self.sources, transfer_id, token) {
            TimeoutOutcome::NotRegistered => {
                self.sources.cancel(source_id);
                SendAction::Nothing
            },
            TimeoutOutcome::TransferGone(token) => {
                self.sources.cancel(source_id);
                SendAction::RemoveToken(token)
            },
            TimeoutOutcome::Armed => match start_sending(&mut self.sources, transfer_id, bytes) {
                Some(job) => SendAction::Write(job),
                None => SendAction::Nothing,
            },
        }
    }

    /// Begins to read the clipboard: from memory, from this program's own source, or from the
    /// offer of another program.
    pub fn read(&self) -> (step: ReadStep)
        ensures
            self.reads(step@),
    {
        let offer = match &self.selection.current_offer {
            Some(offer) => offer,
            None => {
                return ReadStep::Done(None);
            },
        };
        if self.selection.cached_read.is_some() {
            return ReadStep::Done(copy_item(&self.selection.cached_read));
        }
        match self.own_source_id(offer) {
            Some(source_id) => {
                let item = self.sources.item(source_id);
                assert(optional_item(item) == self.sources@.item(source_id));
                ReadStep::Done(item)
            },
            None => offer.read_text(),
        }
    }

    /// A source of this program that an offer is marked with.
    fn own_source_id(&self, offer: &DataOffer<Offer>) -> (source_id: Option<u128>)
        ensures
            match source_id {
                Some(source_id) => self.marks(offer.mimes(), source_id),
                None => !self.is_own(offer.mimes()),
            },
    {
        for source_id in iter: self.sources.sources.keys()
            invariant
                iter.seq().unref().to_set() == self.sources.sources@.dom(),
                forall|i: int|
                    0 <= i < iter.index() ==> !self.marks(
                        offer.mimes(),
                        *(#[trigger] iter.seq()[i]),
                    ),
        {
            assert(iter.seq().unref()[iter.index()] == *source_id);
            assert(iter.seq().unref().to_set().contains(*source_id));
            if offer.has_mime_type(self.self_mime(*source_id).as_str()) {
                return Some(*source_id);
            }
        }
        None
    }

    /// Goes on with reading the clipboard once the data of a mime type is received, `None` when
    /// it could not be.
    pub fn read_received(&mut self, stage: ReadStage, bytes: Option<Vec<u8>>) -> (step: ReadStep)
        ensures
            exists|id: u64|
                step@ == #[trigger] selection_step(
                    old(self).selection,
                    stage,
                    optional_bytes(bytes),
                    id,
                ),
            final(self).selection.current_offer == old(self).selection.current_offer,
            optional_item(final(self).selection.cached_read) == cached_after(
                optional_item(old(self).selection.cached_read),
                step@,
            ),
            final(self).self_mime_nonce == old(self).self_mime_nonce,
            final(self).sources == old(self).sources,
            final(self).primary_contents == old(self).primary_contents,
            final(self).primary_selection == old(self).primary_selection,
    {
        self.selection.received(stage, bytes)
    }

    /// Begins to read the primary selection: from memory, from what this program put there, or
    /// from the offer of another program.
    pub fn read_primary(&self) -> (step: ReadStep)
        ensures
            step@ == self.reads_primary(),
    {
        let offer = match &self.primary_selection.current_offer {
            Some(offer) => offer,
            None => {
                return ReadStep::Done(None);
            },
        };
        if self.primary_selection.cached_read.is_some() {
            return ReadStep::Done(copy_item(&self.primary_selection.cached_read));
        }
        if offer.has_mime_type(self.primary_self_mime().as_str()) {
            return ReadStep::Done(copy_item(&self.primary_contents));
        }
        offer.read_text()
    }

    /// Goes on with reading the primary selection once the data of a mime type is received,
    /// `None` when it could not be.
    pub fn read_primary_received(&mut self, stage: ReadStage, bytes: Option<Vec<u8>>) -> (step:
        ReadStep)
        ensures
            exists|id: u64|
                step@ == #[trigger] selection_step(
                    old(self).primary_selection,
                    stage,
                    optional_bytes(bytes),
                    id,
                ),
            final(self).primary_selection.current_offer
                == old(self).primary_selection.current_offer,
            optional_item(final(self).primary_selection.cached_read) == cached_after(
                optional_item(old(self).primary_selection.cached_read),
                step@,
            ),
            final(self).self_mime_nonce == old(self).self_mime_nonce,
            final(self).sources == old(self).sources,
            final(self).primary_contents == old(self).primary_contents,
            final(self).selection == old(self).selection,
    {
        self.primary_selection.received(stage, bytes)
    }
}

} // verus!
