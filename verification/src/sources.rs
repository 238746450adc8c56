//! The clipboard sources that this program owns, and the transfers that other programs have
//! asked of them.

use std::collections::HashMap;
use vstd::prelude::*;
use crate::ids::{is_random_id, new_id};
use crate::item::{copy_bytes, ClipboardEntry, ClipboardItem, Image, ImageFormat};
use crate::mime::{contains_text, is_text_mime_type, str_views, text_mimes, TEXT_MIME_TYPES};
use crate::png::hash;
use crate::store::{
    first_image, ids_except, item_bytes, item_mimes, lemma_take_one_more, listed_transfers,
    pending_source, ready_source, with_image_mimes, DataModel, SendModel, SourceModel, StoreModel,
    MAX_CLIPBOARD_TRANSFERS, MAX_SOURCE_TRANSFERS,
};
use crate::text::same_text;

verus! {

broadcast use vstd::std_specs::hash::group_hash_axioms;

/// Why a deferred image was not accepted.
#[derive(Clone, Copy, Debug, PartialEq, Eq, Structural)]
pub enum DeferredClipboardImageError {
    /// The source is gone, or its promise was already kept or broken.
    Retired,
    /// The bytes are not a PNG image.
    InvalidPng,
}

/// What a source has to give.
pub enum ClipboardSourceData {
    Ready(ClipboardItem),
    PendingImage,
    Failed,
}

impl View for ClipboardSourceData {
    type V = DataModel;

    open spec fn view(&self) -> DataModel {
        match self {
            ClipboardSourceData::Ready(item) => DataModel::Ready(item@),
            ClipboardSourceData::PendingImage => DataModel::PendingImage,
            ClipboardSourceData::Failed => DataModel::Failed,
        }
    }
}

/// A clipboard source.
pub struct ClipboardSource {
    pub data: ClipboardSourceData,
    pub transfers: Vec<u128>,
    pub retire_when_idle: bool,
}

impl View for ClipboardSource {
    type V = SourceModel;

    open spec fn view(&self) -> SourceModel {
        SourceModel {
            data: self.data@,
            transfers: self.transfers@,
            retire_when_idle: self.retire_when_idle,
        }
    }
}

/// How far a transfer has come.
pub enum ClipboardTransferState<Fd> {
    /// The transfer waits for the data of its source. It owns the descriptor to write to.
    Pending(Fd),
    /// A writer has taken the descriptor over.
    Sending,
}

/// The transfer of the data of a source to another program.
pub struct ClipboardTransfer<Fd, Token> {
    pub source_id: u128,
    pub state: ClipboardTransferState<Fd>,
    pub timeout_token: Option<Token>,
    pub write_token: Option<Token>,
}

/// What a source answers to a request for one mime type.
pub enum SendData {
    Ready(Vec<u8>),
    Pending,
    Unavailable,
}

impl View for SendData {
    type V = SendModel;

    open spec fn view(&self) -> SendModel {
        match self {
            SendData::Ready(bytes) => SendModel::Ready(bytes@),
            SendData::Pending => SendModel::Pending,
            SendData::Unavailable => SendModel::Unavailable,
        }
    }
}

/// All sources and transfers, by their identifiers. A transfer owns a descriptor of type `Fd`
/// while it waits, and is known to the event loop by values of type `Token`.
pub struct ClipboardSources<Fd, Token> {
    pub sources: HashMap<u128, ClipboardSource>,
    pub transfers: HashMap<u128, ClipboardTransfer<Fd, Token>>,
}

impl<Fd, Token> View for ClipboardSources<Fd, Token> {
    type V = StoreModel<Fd, Token>;

    open spec fn view(&self) -> StoreModel<Fd, Token> {
        StoreModel {
            sources: self.sources@.map_values(|source: ClipboardSource| source@),
            transfers: self.transfers@,
        }
    }
}

impl<Fd, Token> ClipboardSources<Fd, Token> {
    /// A store without sources and transfers.
    pub fn new() -> (sources: Self)
        ensures
            sources@ == StoreModel::<Fd, Token>::empty(),
    {
        let sources = ClipboardSources { sources: HashMap::new(), transfers: HashMap::new() };
        assert(sources@.sources =~= Map::empty());
        sources
    }

    /// Puts in a source that holds an item.
    pub fn insert_ready(&mut self, source_id: u128, item: ClipboardItem, retire_when_idle: bool)
        ensures
            final(self)@ == old(self)@.with_source(
                source_id,
                ready_source(item@, retire_when_idle),
            ),
    {
        self.put_source(
            source_id,
            ClipboardSource {
                data: ClipboardSourceData::Ready(item),
                transfers: Vec::new(),
                retire_when_idle,
            },
        );
    }

    /// Puts in a source that promises a PNG image.
    pub fn insert_pending(&mut self, source_id: u128)
        ensures
            final(self)@ == old(self)@.with_source(source_id, pending_source()),
    {
        self.put_source(
            source_id,
            ClipboardSource {
                data: ClipboardSourceData::PendingImage,
                transfers: Vec::new(),
                retire_when_idle: false,
            },
        );
    }

    fn put_source(&mut self, source_id: u128, source: ClipboardSource)
        ensures
            final(self)@ == old(self)@.with_source(source_id, source@),
    {
        let ghost before = self@;
        self.sources.insert(source_id, source);
        assert(self@.sources =~= before.sources.insert(source_id, source@));
    }

    fn take_source(&mut self, source_id: u128) -> (source: Option<ClipboardSource>)
        ensures
            final(self)@.sources == old(self)@.sources.remove(source_id),
            final(self)@.transfers == old(self)@.transfers,
            match source {
                Some(source) => old(self)@.sources.contains_key(source_id)
                    && old(self)@.sources[source_id] == source@,
                None => !old(self)@.sources.contains_key(source_id),
            },
    {
        let ghost before = self@;
        let source = self.sources.remove(&source_id);
        assert(self@.sources =~= before.sources.remove(source_id));
        source
    }

    /// The item of a source that holds one.
    pub fn item(&self, source_id: u128) -> (item: Option<ClipboardItem>)
        ensures
            match item {
                Some(item) => self@.item(source_id) == Some(item@),
                None => self@.item(source_id) is None,
            },
    {
        match self.sources.get(&source_id) {
            Some(source) => match &source.data {
                ClipboardSourceData::Ready(item) => Some(item.clone()),
                ClipboardSourceData::PendingImage | ClipboardSourceData::Failed => None,
            },
            None => None,
        }
    }

    /// What a source answers to a request for a mime type.
    pub fn send_data(&self, source_id: u128, mime_type: &str) -> (data: SendData)
        ensures
            data@ == self@.send_data(source_id, mime_type@),
    {
        match self.sources.get(&source_id) {
            None => SendData::Unavailable,
            Some(source) => match &source.data {
                ClipboardSourceData::PendingImage => {
                    if same_text(mime_type, ImageFormat::Png.mime_type()) {
                        SendData::Pending
                    } else {
                        SendData::Unavailable
                    }
                },
                ClipboardSourceData::Failed => SendData::Unavailable,
                ClipboardSourceData::Ready(item) => match bytes_of(item, mime_type) {
                    Some(bytes) => SendData::Ready(bytes),
                    None => SendData::Unavailable,
                },
            },
        }
    }

    /// The mime types under which a source is offered to other programs.
    pub fn offered_mime_types(&self, source_id: u128) -> (mime_types: Vec<&'static str>)
        ensures
            str_views(mime_types@) == self@.offered_mimes(source_id),
    {
        let mut mime_types: Vec<&'static str> = Vec::new();
        match self.sources.get(&source_id) {
            None => {
                assert(str_views(mime_types@) =~= Seq::empty());
            },
            Some(source) => match &source.data {
                ClipboardSourceData::PendingImage => {
                    mime_types.push(ImageFormat::Png.mime_type());
                    assert(str_views(mime_types@) =~= seq![ImageFormat::Png.mime()]);
                },
                ClipboardSourceData::Failed => {
                    assert(str_views(mime_types@) =~= Seq::empty());
                },
                ClipboardSourceData::Ready(item) => {
                    mime_types = mime_types_of(item);
                },
            },
        }
        mime_types
    }

    /// Asks one more transfer of a source, unless the source is gone or has, or all sources
    /// together have, as many as they may. Returns the identifier of the transfer.
    pub fn enqueue_transfer(&mut self, source_id: u128, fd: Fd) -> (transfer_id: Option<u128>)
        ensures
            match transfer_id {
                Some(transfer_id) => {
                    &&& old(self)@.can_enqueue(source_id)
                    &&& is_random_id(transfer_id)
                    &&& final(self)@ == old(self)@.enqueued(source_id, transfer_id, fd)
                },
                None => !old(self)@.can_enqueue(source_id) && final(self)@ == old(self)@,
            },
    {
        let transfer_id = new_id();
        if self.enqueue_transfer_as(source_id, transfer_id, fd) {
            Some(transfer_id)
        } else {
            None
        }
    }

    /// Asks one more transfer of a source, under a given identifier. Returns whether the
    /// source could take it on.
    pub fn enqueue_transfer_as(&mut self, source_id: u128, transfer_id: u128, fd: Fd) -> (taken:
        bool)
        ensures
            taken == old(self)@.can_enqueue(source_id),
            final(self)@ == if taken {
                old(self)@.enqueued(source_id, transfer_id, fd)
            } else {
                old(self)@
            },
    {
        let ghost before = self@;
        if self.transfers.len() >= MAX_CLIPBOARD_TRANSFERS {
            return false;
        }
        let count: usize = match self.sources.get(&source_id) {
            Some(source) => source.transfers.len(),
            None => {
                return false;
            },
        };
        if count >= MAX_SOURCE_TRANSFERS {
            return false;
        }
        match self.take_source(source_id) {
            Some(source) => {
                let mut source = source;
                source.transfers.push(transfer_id);
                self.put_source(source_id, source);
                self.transfers.insert(
                    transfer_id,
                    ClipboardTransfer {
                        source_id,
                        state: ClipboardTransferState::Pending(fd),
                        timeout_token: None,
                        write_token: None,
                    },
                );
                assert(self@.sources =~= before.enqueued(source_id, transfer_id, fd).sources);
                true
            },
            None => false,
        }
    }

    /// Notes the token of the timeout of a transfer. Returns whether the transfer is there.
    pub fn set_timeout_token(&mut self, transfer_id: u128, token: Token) -> (found: bool)
        ensures
            found == old(self)@.transfers.contains_key(transfer_id),
            final(self)@ == old(self)@.with_timeout_token(transfer_id, token),
    {
        let ghost before = self@;
        match self.transfers.remove(&transfer_id) {
            Some(transfer) => {
                let mut transfer = transfer;
                transfer.timeout_token = Some(token);
                self.transfers.insert(transfer_id, transfer);
                assert(self@.transfers =~= before.with_timeout_token(
                    transfer_id,
                    token,
                ).transfers);
                true
            },
            None => {
                assert(self@.transfers =~= before.transfers);
                false
            },
        }
    }

    /// Takes the descriptor of a transfer that still waits with it.
    pub fn begin_sending(&mut self, transfer_id: u128) -> (fd: Option<Fd>)
        ensures
            fd == old(self)@.waiting_fd(transfer_id),
            final(self)@ == old(self)@.sending(transfer_id),
    {
        let ghost before = self@;
        match self.transfers.remove(&transfer_id) {
            Some(transfer) => {
                let ClipboardTransfer { source_id, state, timeout_token, write_token } = transfer;
                self.transfers.insert(
                    transfer_id,
                    ClipboardTransfer {
                        source_id,
                        state: ClipboardTransferState::Sending,
                        timeout_token,
                        write_token,
                    },
                );
                assert(self@.transfers =~= before.sending(transfer_id).transfers);
                match state {
                    ClipboardTransferState::Pending(fd) => Some(fd),
                    ClipboardTransferState::Sending => None,
                }
            },
            None => {
                assert(self@.transfers =~= before.transfers);
                None
            },
        }
    }

    /// Notes the token of the writer of a transfer. Returns whether the transfer is there.
    pub fn set_write_token(&mut self, transfer_id: u128, token: Token) -> (found: bool)
        ensures
            found == old(self)@.transfers.contains_key(transfer_id),
            final(self)@ == old(self)@.with_write_token(transfer_id, token),
    {
        let ghost before = self@;
        match self.transfers.remove(&transfer_id) {
            Some(transfer) => {
                let mut transfer = transfer;
                transfer.write_token = Some(token);
                self.transfers.insert(transfer_id, transfer);
                assert(self@.transfers =~= before.with_write_token(transfer_id, token).transfers);
                true
            },
            None => {
                assert(self@.transfers =~= before.transfers);
                false
            },
        }
    }

    fn is_pending(&self, source_id: u128) -> (pending: bool)
        ensures
            pending == self@.is_pending(source_id),
    {
        match self.sources.get(&source_id) {
            Some(source) => match &source.data {
                ClipboardSourceData::PendingImage => true,
                _ => false,
            },
            None => false,
        }
    }

    /// Keeps the promise of a pending source. Returns the transfers that have waited for it.
    pub fn fulfill(&mut self, source_id: u128, png_bytes: Vec<u8>) -> (result: Result<
        Vec<u128>,
        DeferredClipboardImageError,
    >)
        ensures
            exists|id: u64|
                final(self)@ == #[trigger] old(self)@.fulfilled(source_id, png_bytes@, id),
            match result {
                Ok(transfer_ids) => {
                    &&& old(self)@.is_pending(source_id)
                    &&& transfer_ids@ == old(self)@.sources[source_id].transfers
                },
                Err(error) => {
                    &&& !old(self)@.is_pending(source_id)
                    &&& error == DeferredClipboardImageError::Retired
                },
            },
    {
        let id = hash(&png_bytes);
        self.fulfill_as(source_id, png_bytes, id)
    }

    /// Keeps the promise of a pending source with an image of a given identifier. Returns the
    /// transfers that have waited for it.
    pub fn fulfill_as(&mut self, source_id: u128, png_bytes: Vec<u8>, id: u64) -> (result: Result<
        Vec<u128>,
        DeferredClipboardImageError,
    >)
        ensures
            final(self)@ == old(self)@.fulfilled(source_id, png_bytes@, id),
            match result {
                Ok(transfer_ids) => {
                    &&& old(self)@.is_pending(source_id)
                    &&& transfer_ids@ == old(self)@.sources[source_id].transfers
                },
                Err(error) => {
                    &&& !old(self)@.is_pending(source_id)
                    &&& error == DeferredClipboardImageError::Retired
                },
            },
    {
        let ghost before = self@;
        if !self.is_pending(source_id) {
            return Err(DeferredClipboardImageError::Retired);
        }
        match self.take_source(source_id) {
            Some(source) => {
                let image = Image { format: ImageFormat::Png, bytes: png_bytes, id };
                let transfer_ids = copy_ids(&source.transfers);
                let mut source = source;
                source.data = ClipboardSourceData::Ready(ClipboardItem::new_image(&image));
                self.put_source(source_id, source);
                assert(self@.sources =~= before.fulfilled(source_id, png_bytes@, id).sources);
                Ok(transfer_ids)
            },
            None => Err(DeferredClipboardImageError::Retired),
        }
    }

    /// Breaks the promise of a pending source. Returns the transfers that have waited for it.
    pub fn fail(&mut self, source_id: u128) -> (result: Result<
        Vec<ClipboardTransfer<Fd, Token>>,
        DeferredClipboardImageError,
    >)
        ensures
            final(self)@ == old(self)@.failed(source_id),
            match result {
                Ok(transfers) => {
                    &&& old(self)@.is_pending(source_id)
                    &&& transfers@ == old(self)@.transfers_of(source_id)
                },
                Err(error) => {
                    &&& !old(self)@.is_pending(source_id)
                    &&& error == DeferredClipboardImageError::Retired
                },
            },
    {
        let ghost before = self@;
        if !self.is_pending(source_id) {
            return Err(DeferredClipboardImageError::Retired);
        }
        match self.take_source(source_id) {
            Some(source) => {
                let ClipboardSource { data: _, transfers: transfer_ids, retire_when_idle } =
                    source;
                self.put_source(
                    source_id,
                    ClipboardSource {
                        data: ClipboardSourceData::Failed,
                        transfers: Vec::new(),
                        retire_when_idle,
                    },
                );
                let transfers = self.take_transfers(&transfer_ids);
                assert(self@.sources =~= before.failed(source_id).sources);
                Ok(transfers)
            },
            None => Err(DeferredClipboardImageError::Retired),
        }
    }

    /// Takes a source out. Returns the transfers that were asked of it.
    pub fn cancel(&mut self, source_id: u128) -> (transfers: Vec<ClipboardTransfer<Fd, Token>>)
        ensures
            final(self)@ == old(self)@.cancelled(source_id),
            transfers@ == old(self)@.transfers_of(source_id),
    {
        match self.take_source(source_id) {
            Some(source) => self.take_transfers(&source.transfers),
            None => {
                assert(self@.sources =~= old(self)@.sources);
                Vec::new()
            },
        }
    }

    /// Takes out the transfers that a list names.
    fn take_transfers(&mut self, ids: &Vec<u128>) -> (taken: Vec<ClipboardTransfer<Fd, Token>>)
        ensures
            taken@ == listed_transfers(old(self)@.transfers, ids@),
            final(self)@.transfers == old(self)@.transfers.remove_keys(ids@.to_set()),
            final(self)@.sources == old(self)@.sources,
    {
        let ghost before = self@;
        let mut taken: Vec<ClipboardTransfer<Fd, Token>> = Vec::new();
        let mut i: usize = 0;
        assert(self.transfers@ =~= before.transfers.remove_keys(ids@.take(0).to_set()));
        while i < ids.len()
            invariant
                i <= ids@.len(),
                self@.sources == before.sources,
                self.transfers@ == before.transfers.remove_keys(ids@.take(i as int).to_set()),
                taken@ == listed_transfers(before.transfers, ids@.take(i as int)),
            decreases ids@.len() - i,
        {
            proof {
                lemma_take_one_more(ids@, i as int);
            }
            match self.transfers.remove(&ids[i]) {
                Some(transfer) => {
                    taken.push(transfer);
                },
                None => {},
            }
            assert(self.transfers@ =~= before.transfers.remove_keys(
                ids@.take(i + 1).to_set(),
            ));
            i += 1;
        }
        assert(ids@.take(i as int) =~= ids@);
        taken
    }

    /// Takes a transfer out. A source that goes away with its last transfer goes too.
    pub fn remove_transfer(&mut self, transfer_id: u128) -> (transfer: Option<
        ClipboardTransfer<Fd, Token>,
    >)
        ensures
            transfer == old(self)@.transfer(transfer_id),
            final(self)@ == old(self)@.without_transfer(transfer_id),
    {
        let ghost before = self@;
        match self.transfers.remove(&transfer_id) {
            Some(transfer) => {
                let source_id = transfer.source_id;
                match self.take_source(source_id) {
                    Some(source) => {
                        let mut source = source;
                        source.transfers = ids_without(&source.transfers, transfer_id);
                        assert(source@ == before.source_without(source_id, transfer_id));
                        if !source.retire_when_idle || source.transfers.len() > 0 {
                            self.put_source(source_id, source);
                        }
                    },
                    None => {},
                }
                assert(self@.sources =~= before.without_transfer(transfer_id).sources);
                assert(self@.transfers =~= before.without_transfer(transfer_id).transfers);
                Some(transfer)
            },
            None => {
                assert(self@.transfers =~= before.transfers);
                None
            },
        }
    }

    /// Takes a transfer out whose writer is done. Returns the token of its timeout.
    pub fn finish_from_write(&mut self, transfer_id: u128) -> (token: Option<Token>)
        ensures
            final(self)@ == old(self)@.without_transfer(transfer_id),
            token == match old(self)@.transfer(transfer_id) {
                Some(transfer) => transfer.timeout_token,
                None => None,
            },
    {
        match self.remove_transfer(transfer_id) {
            Some(transfer) => transfer.timeout_token,
            None => None,
        }
    }

    /// Takes a transfer out whose time is up. Returns the token of its writer.
    pub fn finish_from_timeout(&mut self, transfer_id: u128) -> (token: Option<Token>)
        ensures
            final(self)@ == old(self)@.without_transfer(transfer_id),
            token == match old(self)@.transfer(transfer_id) {
                Some(transfer) => transfer.write_token,
                None => None,
            },
    {
        match self.remove_transfer(transfer_id) {
            Some(transfer) => transfer.write_token,
            None => None,
        }
    }
}

/// The bytes that an item gives for a mime type.
fn bytes_of(item: &ClipboardItem, mime_type: &str) -> (bytes: Option<Vec<u8>>)
    ensures
        match bytes {
            Some(bytes) => item_bytes(item@, mime_type@) == Some(bytes@),
            None => item_bytes(item@, mime_type@) is None,
        },
{
    if is_text_mime_type(mime_type) {
        return match item.text() {
            Some(text) => Some(text.as_str().as_bytes_vec()),
            None => None,
        };
    }
    let format = match ImageFormat::from_mime_type(mime_type) {
        Some(format) => format,
        None => {
            return None;
        },
    };
    let entries = item.entries();
    let mut i: usize = 0;
    assert(item@.skip(0) =~= item@);
    while i < entries.len()
        invariant
            i <= entries@.len(),
            *entries == item.entries,
            !text_mimes().contains(mime_type@),
            first_image(item@.skip(i as int), format) == first_image(item@, format),
            item_bytes(item@, mime_type@) == first_image(item@, format),
        decreases entries@.len() - i,
    {
        assert(item@.skip(i as int)[0] == entries@[i as int]@);
        assert(item@.skip(i as int).skip(1) =~= item@.skip(i + 1));
        match &entries[i] {
            ClipboardEntry::Image(image) => {
                if image.format == format {
                    return Some(copy_bytes(&image.bytes));
                }
            },
            ClipboardEntry::String(_) => {},
        }
        i += 1;
    }
    assert(item@.skip(i as int).len() == 0);
    None
}

/// The mime types under which an item is offered.
fn mime_types_of(item: &ClipboardItem) -> (mime_types: Vec<&'static str>)
    ensures
        str_views(mime_types@) == item_mimes(item@),
{
    let mut mime_types: Vec<&'static str> = Vec::new();
    if item.text().is_some() {
        mime_types.push(TEXT_MIME_TYPES[0]);
        mime_types.push(TEXT_MIME_TYPES[1]);
        mime_types.push(TEXT_MIME_TYPES[2]);
        assert(str_views(mime_types@) =~= text_mimes());
    } else {
        assert(str_views(mime_types@) =~= Seq::empty());
    }
    let ghost base = str_views(mime_types@);
    let entries = item.entries();
    let mut i: usize = 0;
    assert(item@.take(0) =~= Seq::empty());
    while i < entries.len()
        invariant
            i <= entries@.len(),
            *entries == item.entries,
            str_views(mime_types@) == with_image_mimes(base, item@.take(i as int)),
        decreases entries@.len() - i,
    {
        assert(item@.take(i + 1).drop_last() =~= item@.take(i as int));
        assert(item@.take(i + 1).last() == entries@[i as int]@);
        match &entries[i] {
            ClipboardEntry::Image(image) => {
                let mime_type = image.format.mime_type();
                if !contains_text(mime_types.as_slice(), mime_type) {
                    let ghost before = mime_types@;
                    mime_types.push(mime_type);
                    assert(str_views(mime_types@) =~= str_views(before).push(mime_type@));
                }
            },
            ClipboardEntry::String(_) => {},
        }
        i += 1;
    }
    assert(item@.take(i as int) =~= item@);
    mime_types
}

/// A copy of a list of identifiers.
fn copy_ids(ids: &Vec<u128>) -> (copy: Vec<u128>)
    ensures
        copy@ == ids@,
{
    let copy = ids.clone();
    assert(copy@ =~= ids@);
    copy
}

/// A list of identifiers without one of them.
fn ids_without(ids: &Vec<u128>, left_out: u128) -> (kept: Vec<u128>)
    ensures
        kept@ == ids_except(ids@, left_out),
{
    let mut kept: Vec<u128> = Vec::new();
    let mut i: usize = 0;
    assert(ids_except(ids@.take(0), left_out) =~= Seq::empty()) by {
        reveal(Seq::filter);
    }
    while i < ids.len()
        invariant
            i <= ids@.len(),
            kept@ == ids_except(ids@.take(i as int), left_out),
        decreases ids@.len() - i,
    {
        proof {
            reveal(Seq::filter);
            assert(ids@.take(i + 1).drop_last() =~= ids@.take(i as int));
        }
        if ids[i] != left_out {
            kept.push(ids[i]);
        }
        i += 1;
    }
    assert(ids@.take(i as int) =~= ids@);
    kept
}

} // verus!
