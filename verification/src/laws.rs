//! What holds of the clipboard sources and transfers in every state, whatever happens.

use vstd::prelude::*;
use vstd::set_lib::lemma_len_subset;
use crate::item::EntryModel;
use crate::store::{
    ids_except, lemma_contains_after_push, pending_source, ready_source, StoreModel,
    MAX_CLIPBOARD_TRANSFERS, MAX_SOURCE_TRANSFERS,
};

verus! {

/// What can happen to the sources and transfers.
pub enum StoreEvent<Fd, Token> {
    PutReady { source_id: u128, item: Seq<EntryModel>, retire_when_idle: bool },
    PutPending { source_id: u128 },
    Enqueue { source_id: u128, transfer_id: u128, fd: Fd },
    TimeoutToken { transfer_id: u128, token: Token },
    WriteToken { transfer_id: u128, token: Token },
    BeginSending { transfer_id: u128 },
    BeginSendingAll { transfer_ids: Seq<u128> },
    Fulfill { source_id: u128, png_bytes: Seq<u8>, id: u64 },
    Fail { source_id: u128 },
    Cancel { source_id: u128 },
    RemoveTransfer { transfer_id: u128 },
}

impl<Fd, Token> StoreEvent<Fd, Token> {
    /// The source that the event is about, when it is about one.
    pub open spec fn source(self) -> Option<u128> {
        match self {
            StoreEvent::PutReady { source_id, .. } => Some(source_id),
            StoreEvent::PutPending { source_id } => Some(source_id),
            StoreEvent::Enqueue { source_id, .. } => Some(source_id),
            StoreEvent::Fulfill { source_id, .. } => Some(source_id),
            StoreEvent::Fail { source_id } => Some(source_id),
            StoreEvent::Cancel { source_id } => Some(source_id),
            _ => None,
        }
    }
}

impl<Fd, Token> StoreModel<Fd, Token> {
    /// The store after an event.
    pub open spec fn after(self, event: StoreEvent<Fd, Token>) -> Self {
        match event {
            StoreEvent::PutReady { source_id, item, retire_when_idle } => self.with_source(
                source_id,
                ready_source(item, retire_when_idle),
            ),
            StoreEvent::PutPending { source_id } => self.with_source(source_id, pending_source()),
            StoreEvent::Enqueue { source_id, transfer_id, fd } => if self.can_enqueue(source_id) {
                self.enqueued(source_id, transfer_id, fd)
            } else {
                self
            },
            StoreEvent::TimeoutToken { transfer_id, token } => self.with_timeout_token(
                transfer_id,
                token,
            ),
            StoreEvent::WriteToken { transfer_id, token } => self.with_write_token(
                transfer_id,
                token,
            ),
            StoreEvent::BeginSending { transfer_id } => self.sending(transfer_id),
            StoreEvent::BeginSendingAll { transfer_ids } => self.sending_all(transfer_ids),
            StoreEvent::Fulfill { source_id, png_bytes, id } => self.fulfilled(
                source_id,
                png_bytes,
                id,
            ),
            StoreEvent::Fail { source_id } => self.failed(source_id),
            StoreEvent::Cancel { source_id } => self.cancelled(source_id),
            StoreEvent::RemoveTransfer { transfer_id } => self.without_transfer(transfer_id),
        }
    }

    /// The store after some events, from the beginning.
    pub open spec fn after_all(events: Seq<StoreEvent<Fd, Token>>) -> Self
        decreases events.len(),
    {
        if events.len() == 0 {
            Self::empty()
        } else {
            Self::after_all(events.drop_last()).after(events.last())
        }
    }

    /// There are no more transfers than there may be, of each source and of all together.
    pub open spec fn bounded(self) -> bool {
        &&& self.transfers.dom().finite()
        &&& self.transfers.len() <= MAX_CLIPBOARD_TRANSFERS
        &&& forall|source_id: u128| #[trigger]
            self.sources.contains_key(source_id) ==> self.sources[source_id].transfers.len()
                <= MAX_SOURCE_TRANSFERS
    }

    /// Every transfer is listed by its source.
    pub open spec fn transfers_have_sources(self) -> bool {
        forall|transfer_id: u128| #[trigger]
            self.transfers.contains_key(transfer_id) ==> {
                let source_id = self.transfers[transfer_id].source_id;
                self.sources.contains_key(source_id)
                    && self.sources[source_id].transfers.contains(transfer_id)
            }
    }

    /// Whatever a source lists is a transfer of that source.
    pub open spec fn listed_are_transfers(self) -> bool {
        forall|source_id: u128, transfer_id: u128|
            self.sources.contains_key(source_id)
                && #[trigger] self.sources[source_id].transfers.contains(transfer_id) ==> {
                &&& self.transfers.contains_key(transfer_id)
                &&& self.transfers[transfer_id].source_id == source_id
            }
    }

    /// No source lists a transfer twice.
    pub open spec fn listed_once(self) -> bool {
        forall|source_id: u128| #[trigger]
            self.sources.contains_key(source_id)
                ==> self.sources[source_id].transfers.no_duplicates()
    }

    /// Sources and transfers refer to each other, one to one.
    pub open spec fn linked(self) -> bool {
        &&& self.transfers_have_sources()
        &&& self.listed_are_transfers()
        &&& self.listed_once()
    }

    /// Whether no transfer is under way from a source.
    pub open spec fn is_unused(self, source_id: u128) -> bool {
        forall|transfer_id: u128| #[trigger]
            self.transfers.contains_key(transfer_id) ==> self.transfers[transfer_id].source_id
                != source_id
    }

    /// Whether the identifier that an event brings in is free: that of a source from which no
    /// transfer is under way, or that of no transfer.
    pub open spec fn is_fresh(self, event: StoreEvent<Fd, Token>) -> bool {
        match event {
            StoreEvent::PutReady { source_id, .. } => self.is_unused(source_id),
            StoreEvent::PutPending { source_id } => self.is_unused(source_id),
            StoreEvent::Enqueue { transfer_id, .. } => !self.transfers.contains_key(transfer_id),
            _ => true,
        }
    }
}

/// Leaving out one identifier leaves the others, in at most as many places.
pub(crate) proof fn lemma_ids_except(ids: Seq<u128>, left_out: u128)
    ensures
        ids_except(ids, left_out).len() <= ids.len(),
        forall|id: u128| #[trigger]
            ids_except(ids, left_out).contains(id) <==> (ids.contains(id) && id != left_out),
        ids.no_duplicates() ==> ids_except(ids, left_out).no_duplicates(),
    decreases ids.len(),
{
    reveal(Seq::filter);
    let kept = ids_except(ids, left_out);
    if ids.len() > 0 {
        let init = ids.drop_last();
        let rest = ids_except(init, left_out);
        lemma_ids_except(init, left_out);
        assert(ids =~= init.push(ids.last()));
        lemma_contains_after_push(init, ids.last());
        if ids.last() != left_out {
            assert(kept =~= rest.push(ids.last()));
            lemma_contains_after_push(rest, ids.last());
            if ids.no_duplicates() {
                assert(!init.contains(ids.last()));
                assert(!rest.contains(ids.last()));
                assert(kept.no_duplicates());
            }
        } else {
            assert(kept =~= rest);
        }
    } else {
        assert(kept =~= Seq::empty());
    }
}

/// No event takes the transfers, of a source or of all together, over what they may be.
pub proof fn every_event_keeps_the_bounds<Fd, Token>(
    store: StoreModel<Fd, Token>,
    event: StoreEvent<Fd, Token>,
)
    requires
        store.bounded(),
    ensures
        store.after(event).bounded(),
{
    let after = store.after(event);
    match event {
        StoreEvent::Enqueue { source_id, transfer_id, .. } => {},
        StoreEvent::BeginSendingAll { transfer_ids } => {
            assert(after.transfers.dom() =~= store.transfers.dom());
        },
        StoreEvent::Fail { source_id } => {
            lemma_len_subset(after.transfers.dom(), store.transfers.dom());
        },
        StoreEvent::Cancel { source_id } => {
            lemma_len_subset(after.transfers.dom(), store.transfers.dom());
        },
        StoreEvent::RemoveTransfer { transfer_id } => {
            if store.transfers.contains_key(transfer_id) {
                let source_id = store.transfers[transfer_id].source_id;
                lemma_ids_except(store.sources[source_id].transfers, transfer_id);
            }
        },
        _ => {},
    }
}

/// Whatever happens, there are at most as many transfers as there may be, of each source and
/// of all together.
pub proof fn transfers_are_bounded<Fd, Token>(events: Seq<StoreEvent<Fd, Token>>)
    ensures
        StoreModel::after_all(events).bounded(),
    decreases events.len(),
{
    if events.len() > 0 {
        transfers_are_bounded(events.drop_last());
        every_event_keeps_the_bounds(
            StoreModel::after_all(events.drop_last()),
            events.last(),
        );
    }
}

/// No event breaks the references between sources and transfers, as long as the identifiers
/// that it brings in are free. A source that is not there has a free identifier.
pub proof fn every_event_keeps_the_links<Fd, Token>(
    store: StoreModel<Fd, Token>,
    event: StoreEvent<Fd, Token>,
)
    requires
        store.linked(),
        store.is_fresh(event),
    ensures
        store.after(event).linked(),
        forall|source_id: u128|
            !store.sources.contains_key(source_id) ==> #[trigger] store.is_unused(source_id),
{
    let after = store.after(event);
    match event {
        StoreEvent::Enqueue { source_id, transfer_id, fd } => {
            if store.can_enqueue(source_id) {
                lemma_enqueue_keeps_the_links(store, source_id, transfer_id, fd);
            }
        },
        StoreEvent::Fail { source_id } => {
            if store.is_pending(source_id) {
                lemma_dropping_a_list_keeps_the_links(store, source_id);
                assert(after.transfers =~= store.cancelled(source_id).transfers);
                assert(after.linked());
            }
        },
        StoreEvent::Cancel { source_id } => {
            if store.sources.contains_key(source_id) {
                lemma_dropping_a_list_keeps_the_links(store, source_id);
            }
        },
        StoreEvent::RemoveTransfer { transfer_id } => {
            if store.transfers.contains_key(transfer_id) {
                lemma_removal_keeps_the_links(store, transfer_id);
            }
        },
        StoreEvent::PutReady { source_id, .. } => {
            lemma_new_source_keeps_the_links(store, event, source_id);
        },
        StoreEvent::PutPending { source_id } => {
            lemma_new_source_keeps_the_links(store, event, source_id);
        },
        _ => {
            assert(after.transfers.dom() =~= store.transfers.dom());
            assert forall|id: u128| #[trigger] after.transfers.contains_key(id) implies
                after.transfers[id].source_id == store.transfers[id].source_id by {}
            assert forall|id: u128| #[trigger] after.sources.contains_key(id) implies
                store.sources.contains_key(id) && after.sources[id].transfers
                == store.sources[id].transfers by {}
            assert(after.transfers_have_sources());
            assert(after.listed_are_transfers());
            assert(after.listed_once());
        },
    }
}

proof fn lemma_new_source_keeps_the_links<Fd, Token>(
    store: StoreModel<Fd, Token>,
    event: StoreEvent<Fd, Token>,
    source_id: u128,
)
    requires
        store.linked(),
        event is PutReady || event is PutPending,
        event.source() == Some(source_id),
        store.is_fresh(event),
    ensures
        store.after(event).linked(),
{
    let after = store.after(event);
    assert(after.sources[source_id].transfers =~= Seq::empty());
    assert forall|transfer_id: u128| #[trigger] after.transfers.contains_key(transfer_id) implies ({
        let owner = after.transfers[transfer_id].source_id;
        after.sources.contains_key(owner) && after.sources[owner].transfers.contains(transfer_id)
    }) by {
        assert(store.transfers.contains_key(transfer_id));
    }
}

proof fn lemma_enqueue_keeps_the_links<Fd, Token>(
    store: StoreModel<Fd, Token>,
    source_id: u128,
    transfer_id: u128,
    fd: Fd,
)
    requires
        store.linked(),
        store.sources.contains_key(source_id),
        !store.transfers.contains_key(transfer_id),
    ensures
        store.enqueued(source_id, transfer_id, fd).linked(),
{
    let after = store.enqueued(source_id, transfer_id, fd);
    let ids = store.sources[source_id].transfers;
    let longer = ids.push(transfer_id);
    assert(!ids.contains(transfer_id));
    assert(longer.no_duplicates());
    lemma_contains_after_push(ids, transfer_id);
    assert(after.sources[source_id].transfers == longer);
    assert forall|id: u128| #[trigger] after.transfers.contains_key(id) implies ({
        let owner = after.transfers[id].source_id;
        after.sources.contains_key(owner) && after.sources[owner].transfers.contains(id)
    }) by {
        if id != transfer_id {
            assert(store.transfers.contains_key(id));
        }
    }
    assert forall|owner: u128, id: u128|
        after.sources.contains_key(owner)
            && #[trigger] after.sources[owner].transfers.contains(id) implies {
        &&& after.transfers.contains_key(id)
        &&& after.transfers[id].source_id == owner
    } by {
        if id != transfer_id {
            assert(store.sources[owner].transfers.contains(id));
        } else if owner != source_id {
            assert(store.sources[owner].transfers.contains(id));
        }
    }
}

proof fn lemma_dropping_a_list_keeps_the_links<Fd, Token>(
    store: StoreModel<Fd, Token>,
    source_id: u128,
)
    requires
        store.linked(),
        store.sources.contains_key(source_id),
    ensures
        store.cancelled(source_id).linked(),
        forall|id: u128| #[trigger]
            store.cancelled(source_id).transfers.contains_key(id) <==> (
            store.transfers.contains_key(id) && store.transfers[id].source_id != source_id),
{
    let after = store.cancelled(source_id);
    let ids = store.sources[source_id].transfers;
    assert forall|id: u128| #[trigger] after.transfers.contains_key(id) <==> (
    store.transfers.contains_key(id) && store.transfers[id].source_id != source_id) by {
        if store.transfers.contains_key(id) {
            let owner = store.transfers[id].source_id;
            assert(store.sources[owner].transfers.contains(id));
            if ids.contains(id) {
                assert(store.sources[source_id].transfers.contains(id));
            }
        }
    }
    assert forall|owner: u128, id: u128|
        after.sources.contains_key(owner)
            && #[trigger] after.sources[owner].transfers.contains(id) implies {
        &&& after.transfers.contains_key(id)
        &&& after.transfers[id].source_id == owner
    } by {
        assert(store.sources[owner].transfers.contains(id));
    }
}

proof fn lemma_removal_keeps_the_links<Fd, Token>(
    store: StoreModel<Fd, Token>,
    transfer_id: u128,
)
    requires
        store.linked(),
        store.transfers.contains_key(transfer_id),
    ensures
        store.without_transfer(transfer_id).linked(),
{
    let after = store.without_transfer(transfer_id);
    let source_id = store.transfers[transfer_id].source_id;
    let kept = ids_except(store.sources[source_id].transfers, transfer_id);
    lemma_ids_except(store.sources[source_id].transfers, transfer_id);
    assert forall|id: u128| #[trigger] after.transfers.contains_key(id) implies ({
        let owner = after.transfers[id].source_id;
        after.sources.contains_key(owner) && after.sources[owner].transfers.contains(id)
    }) by {
        assert(store.transfers.contains_key(id));
        let owner = store.transfers[id].source_id;
        assert(store.sources[owner].transfers.contains(id));
        if owner == source_id {
            assert(kept.contains(id));
        }
    }
    assert forall|owner: u128, id: u128|
        after.sources.contains_key(owner)
            && #[trigger] after.sources[owner].transfers.contains(id) implies {
        &&& after.transfers.contains_key(id)
        &&& after.transfers[id].source_id == owner
    } by {
        if owner == source_id {
            assert(kept.contains(id));
        }
        assert(store.sources[owner].transfers.contains(id));
    }
}

/// Whether every identifier that some events bring in is free when it comes.
pub open spec fn all_fresh<Fd, Token>(events: Seq<StoreEvent<Fd, Token>>) -> bool
    decreases events.len(),
{
    events.len() == 0 || {
        &&& all_fresh(events.drop_last())
        &&& StoreModel::after_all(events.drop_last()).is_fresh(events.last())
    }
}

/// As long as no identifier comes in that is in use, sources and transfers refer to each other,
/// one to one, whatever happens.
pub proof fn transfers_stay_linked<Fd, Token>(events: Seq<StoreEvent<Fd, Token>>)
    requires
        all_fresh(events),
    ensures
        StoreModel::after_all(events).linked(),
    decreases events.len(),
{
    if events.len() > 0 {
        transfers_stay_linked(events.drop_last());
        every_event_keeps_the_links(StoreModel::after_all(events.drop_last()), events.last());
    }
}

} // verus!
