//! The mathematical model of the clipboard sources that a program owns and of the transfers
//! that other programs have asked of them.

use vstd::prelude::*;
use vstd::utf8::encode_utf8;
use crate::item::{
    format_of_mime, item_text, EntryModel, ImageFormat, ImageModel,
};
use crate::mime::text_mimes;
use crate::sources::{ClipboardTransfer, ClipboardTransferState};

verus! {

/// How many transfers may be under way at once.
pub const MAX_CLIPBOARD_TRANSFERS: usize = 32;

/// How many transfers may be under way from one source.
pub const MAX_SOURCE_TRANSFERS: usize = 8;

/// What a source has to give.
#[verifier::ext_equal]
pub enum DataModel {
    /// The source holds an item.
    Ready(Seq<EntryModel>),
    /// The source has promised a PNG image that is still being made.
    PendingImage,
    /// The promised image could not be made.
    Failed,
}

/// A clipboard source.
#[verifier::ext_equal]
pub struct SourceModel {
    pub data: DataModel,
    /// The transfers asked of the source, in the order in which they were asked.
    pub transfers: Seq<u128>,
    /// Whether the source goes away with its last transfer.
    pub retire_when_idle: bool,
}

/// What a source answers to a request for one mime type.
#[verifier::ext_equal]
pub enum SendModel {
    Ready(Seq<u8>),
    Pending,
    Unavailable,
}

/// All sources and transfers, by their identifiers.
#[verifier::ext_equal]
pub struct StoreModel<Fd, Token> {
    pub sources: Map<u128, SourceModel>,
    pub transfers: Map<u128, ClipboardTransfer<Fd, Token>>,
}

/// The bytes of the first image of a format among some entries.
pub open spec fn first_image(entries: Seq<EntryModel>, format: ImageFormat) -> Option<Seq<u8>>
    decreases entries.len(),
{
    if entries.len() == 0 {
        None
    } else {
        match entries[0] {
            EntryModel::Image(image) if image.format == format => Some(image.bytes),
            _ => first_image(entries.skip(1), format),
        }
    }
}

/// `base` followed by the mime types of the images among some entries, each at its first
/// occurrence.
pub open spec fn with_image_mimes(base: Seq<Seq<char>>, entries: Seq<EntryModel>) -> Seq<
    Seq<char>,
>
    decreases entries.len(),
{
    if entries.len() == 0 {
        base
    } else {
        let mimes = with_image_mimes(base, entries.drop_last());
        match entries.last() {
            EntryModel::Image(image) if !mimes.contains(image.format.mime()) => mimes.push(
                image.format.mime(),
            ),
            _ => mimes,
        }
    }
}

/// The mime types under which an item is offered.
pub open spec fn item_mimes(entries: Seq<EntryModel>) -> Seq<Seq<char>> {
    let base = if item_text(entries) is Some {
        text_mimes()
    } else {
        Seq::empty()
    };
    with_image_mimes(base, entries)
}

/// The bytes that an item gives for a mime type.
pub open spec fn item_bytes(entries: Seq<EntryModel>, mime: Seq<char>) -> Option<Seq<u8>> {
    if text_mimes().contains(mime) {
        match item_text(entries) {
            Some(text) => Some(encode_utf8(text)),
            None => None,
        }
    } else {
        match format_of_mime(mime) {
            Some(format) => first_image(entries, format),
            None => None,
        }
    }
}

/// The transfers that a list of identifiers names, in the order of the list, each once.
pub open spec fn listed_transfers<Fd, Token>(
    transfers: Map<u128, ClipboardTransfer<Fd, Token>>,
    ids: Seq<u128>,
) -> Seq<ClipboardTransfer<Fd, Token>>
    decreases ids.len(),
{
    if ids.len() == 0 {
        Seq::empty()
    } else {
        let earlier = listed_transfers(transfers, ids.drop_last());
        if transfers.contains_key(ids.last()) && !ids.drop_last().contains(ids.last()) {
            earlier.push(transfers[ids.last()])
        } else {
            earlier
        }
    }
}

/// A list of identifiers without one of them.
pub open spec fn ids_except(ids: Seq<u128>, left_out: u128) -> Seq<u128> {
    ids.filter(|id: u128| id != left_out)
}

/// A longer list holds what the shorter one holds, and what was put behind it.
pub(crate) proof fn lemma_contains_after_push(ids: Seq<u128>, last: u128)
    ensures
        forall|id: u128| #[trigger]
            ids.push(last).contains(id) <==> (ids.contains(id) || id == last),
{
    let longer = ids.push(last);
    assert forall|id: u128| #[trigger] longer.contains(id) <==> (ids.contains(id) || id
        == last) by {
        if ids.contains(id) {
            let k = choose|k: int| 0 <= k < ids.len() && ids[k] == id;
            assert(longer[k] == id);
        }
        if id == last {
            assert(longer[ids.len() as int] == id);
        }
        if longer.contains(id) && id != last {
            let k = choose|k: int| 0 <= k < longer.len() && longer[k] == id;
            assert(ids[k] == id);
        }
    }
}

/// The list up to and with a place holds what the list up to the place holds, and what stands
/// at the place.
pub(crate) proof fn lemma_take_one_more(ids: Seq<u128>, place: int)
    requires
        0 <= place < ids.len(),
    ensures
        ids.take(place + 1).drop_last() == ids.take(place),
        ids.take(place + 1).last() == ids[place],
        forall|id: u128| #[trigger]
            ids.take(place + 1).contains(id) <==> (ids.take(place).contains(id) || id
                == ids[place]),
{
    assert(ids.take(place + 1).drop_last() =~= ids.take(place));
    assert(ids.take(place + 1) =~= ids.take(place).push(ids[place]));
    lemma_contains_after_push(ids.take(place), ids[place]);
}

/// A source that holds an item and has no transfers.
pub open spec fn ready_source(item: Seq<EntryModel>, retire_when_idle: bool) -> SourceModel {
    SourceModel { data: DataModel::Ready(item), transfers: Seq::empty(), retire_when_idle }
}

/// A source that has promised an image and has no transfers.
pub open spec fn pending_source() -> SourceModel {
    SourceModel {
        data: DataModel::PendingImage,
        transfers: Seq::empty(),
        retire_when_idle: false,
    }
}

/// A transfer that waits for the data of its source.
pub open spec fn waiting_transfer<Fd, Token>(source_id: u128, fd: Fd) -> ClipboardTransfer<
    Fd,
    Token,
> {
    ClipboardTransfer {
        source_id,
        state: ClipboardTransferState::Pending(fd),
        timeout_token: None,
        write_token: None,
    }
}

/// An item that holds one PNG image.
pub open spec fn png_item(bytes: Seq<u8>, id: u64) -> Seq<EntryModel> {
    seq![EntryModel::Image(ImageModel { format: ImageFormat::Png, bytes, id })]
}

impl<Fd, Token> StoreModel<Fd, Token> {
    /// The store without sources and transfers.
    pub open spec fn empty() -> Self {
        StoreModel { sources: Map::empty(), transfers: Map::empty() }
    }

    /// The store with a source put in, in place of any source of that identifier.
    pub open spec fn with_source(self, source_id: u128, source: SourceModel) -> Self {
        StoreModel { sources: self.sources.insert(source_id, source), ..self }
    }

    /// Whether a source has promised an image and not yet kept or broken its promise.
    pub open spec fn is_pending(self, source_id: u128) -> bool {
        self.sources.contains_key(source_id) && self.sources[source_id].data
            == DataModel::PendingImage
    }

    /// The item of a source that holds one.
    pub open spec fn item(self, source_id: u128) -> Option<Seq<EntryModel>> {
        if self.sources.contains_key(source_id) {
            match self.sources[source_id].data {
                DataModel::Ready(item) => Some(item),
                _ => None,
            }
        } else {
            None
        }
    }

    /// What a source answers to a request for a mime type.
    pub open spec fn send_data(self, source_id: u128, mime: Seq<char>) -> SendModel {
        if !self.sources.contains_key(source_id) {
            SendModel::Unavailable
        } else {
            match self.sources[source_id].data {
                DataModel::PendingImage => if mime == ImageFormat::Png.mime() {
                    SendModel::Pending
                } else {
                    SendModel::Unavailable
                },
                DataModel::Failed => SendModel::Unavailable,
                DataModel::Ready(item) => match item_bytes(item, mime) {
                    Some(bytes) => SendModel::Ready(bytes),
                    None => SendModel::Unavailable,
                },
            }
        }
    }

    /// The mime types under which a source is offered to other programs.
    pub open spec fn offered_mimes(self, source_id: u128) -> Seq<Seq<char>> {
        if !self.sources.contains_key(source_id) {
            Seq::empty()
        } else {
            match self.sources[source_id].data {
                DataModel::PendingImage => seq![ImageFormat::Png.mime()],
                DataModel::Failed => Seq::empty(),
                DataModel::Ready(item) => item_mimes(item),
            }
        }
    }

    /// Whether a source can take on one more transfer.
    pub open spec fn can_enqueue(self, source_id: u128) -> bool {
        &&& self.transfers.len() < MAX_CLIPBOARD_TRANSFERS
        &&& self.sources.contains_key(source_id)
        &&& self.sources[source_id].transfers.len() < MAX_SOURCE_TRANSFERS
    }

    /// The store with one more transfer asked of a source.
    pub open spec fn enqueued(self, source_id: u128, transfer_id: u128, fd: Fd) -> Self {
        let source = self.sources[source_id];
        StoreModel {
            sources: self.sources.insert(
                source_id,
                SourceModel { transfers: source.transfers.push(transfer_id), ..source },
            ),
            transfers: self.transfers.insert(transfer_id, waiting_transfer(source_id, fd)),
        }
    }

    /// The store with the token of the timeout of a transfer noted.
    pub open spec fn with_timeout_token(self, transfer_id: u128, token: Token) -> Self {
        if self.transfers.contains_key(transfer_id) {
            StoreModel {
                transfers: self.transfers.insert(
                    transfer_id,
                    ClipboardTransfer {
                        timeout_token: Some(token),
                        ..self.transfers[transfer_id]
                    },
                ),
                ..self
            }
        } else {
            self
        }
    }

    /// The store with the token of the writer of a transfer noted.
    pub open spec fn with_write_token(self, transfer_id: u128, token: Token) -> Self {
        if self.transfers.contains_key(transfer_id) {
            StoreModel {
                transfers: self.transfers.insert(
                    transfer_id,
                    ClipboardTransfer { write_token: Some(token), ..self.transfers[transfer_id] },
                ),
                ..self
            }
        } else {
            self
        }
    }

    /// The file descriptor that a transfer still waits with.
    pub open spec fn waiting_fd(self, transfer_id: u128) -> Option<Fd> {
        if self.transfers.contains_key(transfer_id) {
            match self.transfers[transfer_id].state {
                ClipboardTransferState::Pending(fd) => Some(fd),
                ClipboardTransferState::Sending => None,
            }
        } else {
            None
        }
    }

    /// The store with a transfer, if it is there, no longer waiting.
    pub open spec fn sending(self, transfer_id: u128) -> Self {
        if self.transfers.contains_key(transfer_id) {
            StoreModel {
                transfers: self.transfers.insert(
                    transfer_id,
                    ClipboardTransfer {
                        state: ClipboardTransferState::Sending,
                        ..self.transfers[transfer_id]
                    },
                ),
                ..self
            }
        } else {
            self
        }
    }

    /// The store with the transfers that a list names no longer waiting.
    pub open spec fn sending_all(self, ids: Seq<u128>) -> Self {
        StoreModel {
            transfers: self.transfers.map_entries(
                |id: u128, transfer: ClipboardTransfer<Fd, Token>|
                    if ids.contains(id) {
                        ClipboardTransfer { state: ClipboardTransferState::Sending, ..transfer }
                    } else {
                        transfer
                    },
            ),
            ..self
        }
    }

    /// The store with the promise of a pending source kept.
    pub open spec fn fulfilled(self, source_id: u128, png_bytes: Seq<u8>, id: u64) -> Self {
        if self.is_pending(source_id) {
            self.with_source(
                source_id,
                SourceModel {
                    data: DataModel::Ready(png_item(png_bytes, id)),
                    ..self.sources[source_id]
                },
            )
        } else {
            self
        }
    }

    /// The transfers of a source, when the source is there.
    pub open spec fn transfers_of(self, source_id: u128) -> Seq<ClipboardTransfer<Fd, Token>> {
        if self.sources.contains_key(source_id) {
            listed_transfers(self.transfers, self.sources[source_id].transfers)
        } else {
            Seq::empty()
        }
    }

    /// The store with the promise of a pending source broken, and its transfers dropped.
    pub open spec fn failed(self, source_id: u128) -> Self {
        if self.is_pending(source_id) {
            let source = self.sources[source_id];
            StoreModel {
                sources: self.sources.insert(
                    source_id,
                    SourceModel {
                        data: DataModel::Failed,
                        transfers: Seq::empty(),
                        ..source
                    },
                ),
                transfers: self.transfers.remove_keys(source.transfers.to_set()),
            }
        } else {
            self
        }
    }

    /// The store without a source and its transfers.
    pub open spec fn cancelled(self, source_id: u128) -> Self {
        if self.sources.contains_key(source_id) {
            StoreModel {
                sources: self.sources.remove(source_id),
                transfers: self.transfers.remove_keys(self.sources[source_id].transfers.to_set()),
            }
        } else {
            self
        }
    }

    /// A source without one of its transfers.
    pub open spec fn source_without(self, source_id: u128, transfer_id: u128) -> SourceModel {
        SourceModel {
            transfers: ids_except(self.sources[source_id].transfers, transfer_id),
            ..self.sources[source_id]
        }
    }

    /// The transfer of an identifier, when it is there.
    pub open spec fn transfer(self, transfer_id: u128) -> Option<ClipboardTransfer<Fd, Token>> {
        if self.transfers.contains_key(transfer_id) {
            Some(self.transfers[transfer_id])
        } else {
            None
        }
    }

    /// The store without a transfer. A source that goes away with its last transfer goes too.
    pub open spec fn without_transfer(self, transfer_id: u128) -> Self {
        if !self.transfers.contains_key(transfer_id) {
            self
        } else {
            let source_id = self.transfers[transfer_id].source_id;
            let source = self.source_without(source_id, transfer_id);
            StoreModel {
                sources: if !self.sources.contains_key(source_id) {
                    self.sources
                } else if source.retire_when_idle && source.transfers.len() == 0 {
                    self.sources.remove(source_id)
                } else {
                    self.sources.insert(source_id, source)
                },
                transfers: self.transfers.remove(transfer_id),
            }
        }
    }
}

} // verus!
