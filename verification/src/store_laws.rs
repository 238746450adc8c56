//! What each operation on the clipboard sources does to every source and every transfer.

use vstd::prelude::*;
use vstd::utf8::encode_utf8;
use crate::ids::is_random_id;
use crate::item::{
    item_text, joined_text, mime_type_names_its_format, ClipboardItem, EntryModel, ImageFormat,
};
use crate::item_laws::text_names;
use crate::laws::lemma_ids_except;
use crate::mime::{image_mimes_are_not_text, str_views, text_mimes};
use crate::source_laws::{
    lemma_image_is_offered, lemma_image_mimes, lemma_listed_holds_the_listed,
    offered_mime_types_are_distinct,
};
use crate::sources::{
    ClipboardSourceData, ClipboardSources, ClipboardTransfer,
    ClipboardTransferState, DeferredClipboardImageError, SendData,
};
use crate::store::{
    first_image, ids_except, item_mimes, listed_transfers, with_image_mimes, DataModel, SendModel,
    StoreModel,
};

verus! {

/// Whether two stores have the same sources, but for one.
pub open spec fn same_other_sources<Fd, Token>(
    before: StoreModel<Fd, Token>,
    after: StoreModel<Fd, Token>,
    source_id: u128,
) -> bool {
    forall|other: u128|
        other != source_id ==> {
            &&& #[trigger] after.sources.contains_key(other) <==> before.sources.contains_key(other)
            &&& before.sources.contains_key(other) ==> after.sources[other]
                == before.sources[other]
        }
}

/// Whether two stores have the same transfers, but for one.
pub open spec fn same_other_transfers<Fd, Token>(
    before: StoreModel<Fd, Token>,
    after: StoreModel<Fd, Token>,
    transfer_id: u128,
) -> bool {
    forall|other: u128|
        other != transfer_id ==> {
            &&& #[trigger] after.transfers.contains_key(other) <==> before.transfers.contains_key(
                other,
            )
            &&& before.transfers.contains_key(other) ==> after.transfers[other]
                == before.transfers[other]
        }
}

/// Whether a source has promised an image and the promise stands.
pub open spec fn has_promised<Fd, Token>(store: StoreModel<Fd, Token>, source_id: u128) -> bool {
    store.sources.contains_key(source_id) && store.sources[source_id].data is PendingImage
}

/// Whether one transfer more fits in: of at most 32 in all, and of at most 8 from the source.
pub open spec fn has_room<Fd, Token>(store: StoreModel<Fd, Token>, source_id: u128) -> bool {
    &&& store.transfers.len() < 32
    &&& store.sources.contains_key(source_id)
    &&& store.sources[source_id].transfers.len() < 8
}

/// Whether a transfer came in, at the end of the list of its source, and waits with its
/// descriptor.
pub open spec fn came_in<Fd, Token>(
    before: StoreModel<Fd, Token>,
    after: StoreModel<Fd, Token>,
    source_id: u128,
    transfer_id: u128,
    fd: Fd,
) -> bool {
    let source = after.sources[source_id];
    let transfer = after.transfers[transfer_id];
    &&& same_other_sources(before, after, source_id)
    &&& same_other_transfers(before, after, transfer_id)
    &&& after.sources.contains_key(source_id)
    &&& source.data == before.sources[source_id].data
    &&& source.retire_when_idle == before.sources[source_id].retire_when_idle
    &&& source.transfers.len() == before.sources[source_id].transfers.len() + 1
    &&& source.transfers.drop_last() == before.sources[source_id].transfers
    &&& source.transfers.last() == transfer_id
    &&& after.transfers.contains_key(transfer_id)
    &&& transfer.source_id == source_id
    &&& transfer.state == ClipboardTransferState::Pending(fd)
    &&& transfer.timeout_token is None
    &&& transfer.write_token is None
}

/// Whether a transfer, when it was there, went out of the store and of the list of its source,
/// and with it a source that goes away with its last transfer.
pub open spec fn went_out<Fd, Token>(
    before: StoreModel<Fd, Token>,
    after: StoreModel<Fd, Token>,
    transfer_id: u128,
) -> bool {
    if before.transfers.contains_key(transfer_id) {
        let source_id = before.transfers[transfer_id].source_id;
        let old_list = before.sources[source_id].transfers;
        let list = after.sources[source_id].transfers;
        let last_one = forall|id: u128| #[trigger] old_list.contains(id) ==> id == transfer_id;
        &&& !after.transfers.contains_key(transfer_id)
        &&& same_other_transfers(before, after, transfer_id)
        &&& same_other_sources(before, after, source_id)
        &&& after.sources.contains_key(source_id) <==> before.sources.contains_key(source_id)
            && !(before.sources[source_id].retire_when_idle && last_one)
        &&& after.sources.contains_key(source_id) ==> {
            &&& after.sources[source_id].data == before.sources[source_id].data
            &&& after.sources[source_id].retire_when_idle
                == before.sources[source_id].retire_when_idle
            &&& forall|id: u128| #[trigger]
                list.contains(id) <==> old_list.contains(id) && id != transfer_id
            &&& forall|place: int|
                old_list.no_duplicates() && 0 <= place < old_list.len()
                    && #[trigger] old_list[place] == transfer_id ==> list == old_list.remove(place)
        }
    } else {
        after == before
    }
}

/// Whether the transfers that a source listed went out, and no others.
pub open spec fn listed_went_out<Fd, Token>(
    before: StoreModel<Fd, Token>,
    after: StoreModel<Fd, Token>,
    source_id: u128,
) -> bool {
    forall|id: u128|
        {
            &&& #[trigger] after.transfers.contains_key(id) <==> before.transfers.contains_key(id)
                && !(before.sources.contains_key(source_id)
                && before.sources[source_id].transfers.contains(id))
            &&& after.transfers.contains_key(id) ==> after.transfers[id] == before.transfers[id]
        }
}

/// Whether some transfers are those that a list names: each that is there, none else, and, where
/// the list names each once and all are there, in the order of the list.
pub open spec fn are_listed<Fd, Token>(
    before: StoreModel<Fd, Token>,
    ids: Seq<u128>,
    taken: Seq<ClipboardTransfer<Fd, Token>>,
) -> bool {
    &&& taken.len() <= ids.len()
    &&& forall|id: u128| #[trigger]
        ids.contains(id) && before.transfers.contains_key(id) ==> taken.contains(
            before.transfers[id],
        )
    &&& forall|i: int|
        0 <= i < taken.len() ==> exists|id: u128| #[trigger]
            ids.contains(id) && before.transfers.contains_key(id) && before.transfers[id]
                == #[trigger] taken[i]
    &&& ids.no_duplicates() && (forall|id: u128| #[trigger]
        ids.contains(id) ==> before.transfers.contains_key(id)) ==> taken.len() == ids.len() && (
    forall|i: int| 0 <= i < ids.len() ==> #[trigger] taken[i] == before.transfers[ids[i]])
}

/// The value of a store has all of its sources and transfers, with all that they hold.
pub proof fn the_value_of_a_store_is_all_of_it<Fd, Token>(
    store: ClipboardSources<Fd, Token>,
    source_id: u128,
)
    ensures
        store@.transfers == store.transfers@,
        store@.sources.contains_key(source_id) <==> store.sources@.contains_key(source_id),
        store.sources@.contains_key(source_id) ==> {
            let source = store.sources@[source_id];
            let value = store@.sources[source_id];
            &&& value.transfers == source.transfers@
            &&& value.retire_when_idle == source.retire_when_idle
            &&& match source.data {
                ClipboardSourceData::Ready(item) => value.data == DataModel::Ready(item@),
                ClipboardSourceData::PendingImage => value.data is PendingImage,
                ClipboardSourceData::Failed => value.data is Failed,
            }
        },
{
}

/// A new store has no sources and no transfers.
pub proof fn a_new_store_is_empty<Fd, Token>(store: ClipboardSources<Fd, Token>, id: u128)
    requires
        call_ensures(ClipboardSources::<Fd, Token>::new, (), store),
    ensures
        !store@.sources.contains_key(id),
        !store@.transfers.contains_key(id),
        store@.transfers.len() == 0,
{
}

/// A source that is put in holds its item, and nothing else changes.
pub proof fn a_ready_source_is_put_in<Fd, Token>(
    store: &mut ClipboardSources<Fd, Token>,
    source_id: u128,
    item: ClipboardItem,
    retire_when_idle: bool,
)
    requires
        call_ensures(
            ClipboardSources::<Fd, Token>::insert_ready,
            (store, source_id, item, retire_when_idle),
            (),
        ),
    ensures
        final(store)@.sources.contains_key(source_id),
        final(store)@.sources[source_id].data == DataModel::Ready(item@),
        final(store)@.sources[source_id].transfers.len() == 0,
        final(store)@.sources[source_id].retire_when_idle == retire_when_idle,
        same_other_sources(old(store)@, final(store)@, source_id),
        final(store)@.transfers == old(store)@.transfers,
{
}

/// A source that promises an image is put in, and nothing else changes.
pub proof fn a_pending_source_is_put_in<Fd, Token>(
    store: &mut ClipboardSources<Fd, Token>,
    source_id: u128,
)
    requires
        call_ensures(ClipboardSources::<Fd, Token>::insert_pending, (store, source_id), ()),
    ensures
        has_promised(final(store)@, source_id),
        final(store)@.sources[source_id].transfers.len() == 0,
        !final(store)@.sources[source_id].retire_when_idle,
        same_other_sources(old(store)@, final(store)@, source_id),
        final(store)@.transfers == old(store)@.transfers,
{
}

/// A source gives its item exactly when it holds one.
pub proof fn a_source_gives_the_item_it_holds<Fd, Token>(
    store: ClipboardSources<Fd, Token>,
    source_id: u128,
    item: Option<ClipboardItem>,
)
    requires
        call_ensures(ClipboardSources::<Fd, Token>::item, (&store, source_id), item),
    ensures
        item is Some <==> store@.sources.contains_key(source_id) && store@.sources[source_id].data
            is Ready,
        item matches Some(item) ==> store@.sources[source_id].data == DataModel::Ready(item@),
        match item {
            Some(item) => store@.item(source_id) == Some(item@),
            None => store@.item(source_id) is None,
        },
{
}

/// Whether an entry is an image of a format.
pub open spec fn is_image_of(entry: EntryModel, format: ImageFormat) -> bool {
    entry matches EntryModel::Image(image) && image.format == format
}

/// The image of a format that an item gives is the first one it holds.
pub proof fn the_first_image_is_given(entries: Seq<EntryModel>, format: ImageFormat)
    ensures
        first_image(entries, format) is None <==> forall|i: int|
            0 <= i < entries.len() ==> !is_image_of(#[trigger] entries[i], format),
        forall|i: int|
            0 <= i < entries.len() && is_image_of(#[trigger] entries[i], format) && (forall|j: int|
                0 <= j < i ==> !is_image_of(#[trigger] entries[j], format)) ==> first_image(
                entries,
                format,
            ) == Some(entries[i]->Image_0.bytes),
    decreases entries.len(),
{
    if entries.len() > 0 {
        let rest = entries.skip(1);
        the_first_image_is_given(rest, format);
        assert forall|i: int|
            0 <= i < entries.len() && is_image_of(#[trigger] entries[i], format) && (forall|j: int|
                0 <= j < i ==> !is_image_of(
                    #[trigger] entries[j],
                    format,
                )) implies first_image(entries, format) == Some(entries[i]->Image_0.bytes) by {
            if i > 0 {
                assert(rest[i - 1] == entries[i]);
                assert forall|j: int| 0 <= j < i - 1 implies !is_image_of(
                    #[trigger] rest[j],
                    format,
                ) by {
                    assert(rest[j] == entries[j + 1]);
                }
                assert(!is_image_of(entries[0], format));
            }
        }
        if first_image(entries, format) is None {
            assert forall|i: int| 0 <= i < entries.len() implies !is_image_of(
                #[trigger] entries[i],
                format,
            ) by {
                if i > 0 {
                    assert(rest[i - 1] == entries[i]);
                }
            }
        }
        if forall|i: int|
            0 <= i < entries.len() ==> !is_image_of(#[trigger] entries[i], format) {
            assert forall|i: int| 0 <= i < rest.len() implies !is_image_of(
                #[trigger] rest[i],
                format,
            ) by {
                assert(rest[i] == entries[i + 1]);
            }
            assert(!is_image_of(entries[0], format));
        }
    }
}

/// Whether a mime type is a name of a format: its own, or the short one of two of them.
pub open spec fn is_name_of(mime: Seq<char>, format: ImageFormat) -> bool {
    ||| mime == format.mime()
    ||| mime == "image/jpg"@ && format == ImageFormat::Jpeg
    ||| mime == "image/tif"@ && format == ImageFormat::Tiff
}

/// Whether a mime type is one of text.
pub open spec fn is_name_of_text(mime: Seq<char>) -> bool {
    mime == "text/plain;charset=utf-8"@ || mime == "UTF8_STRING"@ || mime == "text/plain"@
}

/// What a source answers to a request for a mime type. A promised image is answered later, and
/// only as PNG. An item that is there is answered at once: under a mime type of text with its
/// whole text, unless that is empty, and under a mime type of a format with the bytes of its
/// first image of that format. There is no other answer.
pub proof fn a_request_is_answered_by_what_is_held<Fd, Token>(
    store: ClipboardSources<Fd, Token>,
    source_id: u128,
    mime: &str,
    data: SendData,
    format: ImageFormat,
)
    requires
        call_ensures(ClipboardSources::<Fd, Token>::send_data, (&store, source_id, mime), data),
    ensures
        data@ == store@.send_data(source_id, mime@),
        data is Pending <==> has_promised(store@, source_id) && mime@ == "image/png"@,
        data is Ready ==> {
            &&& store@.sources.contains_key(source_id)
            &&& store@.sources[source_id].data is Ready
            &&& is_name_of_text(mime@) || exists|named: ImageFormat| #[trigger]
                is_name_of(mime@, named)
        },
        store@.sources.contains_key(source_id) && store@.sources[source_id].data is Ready ==> {
            let item = store@.sources[source_id].data->Ready_0;
            let text = joined_text(item);
            &&& is_name_of_text(mime@) && text.len() > 0 ==> (data matches SendData::Ready(bytes)
                && bytes@ == encode_utf8(text))
            &&& is_name_of_text(mime@) && text.len() == 0 ==> data is Unavailable
            &&& is_name_of(mime@, format) ==> match first_image(item, format) {
                Some(image) => data matches SendData::Ready(bytes) && bytes@ == image,
                None => data is Unavailable,
            }
        },
        match data {
            SendData::Ready(bytes) => data@ == SendModel::Ready(bytes@),
            SendData::Pending => data@ is Pending,
            SendData::Unavailable => data@ is Unavailable,
        },
{
    text_names(mime@);
    image_mimes_are_not_text(format);
    mime_type_names_its_format(format);
    lemma_short_names_are_not_text();
    if data is Ready && !is_name_of_text(mime@) {
        let named = crate::item::format_of_mime(mime@)->0;
        assert(is_name_of(mime@, named));
    }
}

proof fn lemma_short_names_are_not_text()
    ensures
        !text_mimes().contains("image/jpg"@),
        !text_mimes().contains("image/tif"@),
        crate::item::format_of_mime("image/jpg"@) == Some(ImageFormat::Jpeg),
        crate::item::format_of_mime("image/tif"@) == Some(ImageFormat::Tiff),
{
    text_names("image/jpg"@);
    text_names("image/tif"@);
    reveal_strlit("text/plain;charset=utf-8");
    reveal_strlit("UTF8_STRING");
    reveal_strlit("text/plain");
    reveal_strlit("image/jpg");
    reveal_strlit("image/tif");
    reveal_strlit("image/png");
    reveal_strlit("image/jpeg");
    reveal_strlit("image/webp");
    reveal_strlit("image/gif");
    reveal_strlit("image/svg+xml");
    reveal_strlit("image/bmp");
    reveal_strlit("image/tiff");
    assert("image/jpg"@[0] == 'i' && "image/tif"@[0] == 'i');
    assert("text/plain;charset=utf-8"@[0] == 't' && "UTF8_STRING"@[0] == 'U' && "text/plain"@[0]
        == 't');
    assert("image/jpg"@[6] == 'j' && "image/tif"@[6] == 't');
    assert("image/png"@[6] == 'p' && "image/gif"@[6] == 'g' && "image/bmp"@[6] == 'b');
}

/// The mime types under which a source is offered. A promise is offered as PNG alone. An item is
/// offered under the three mime types of text, which come first, exactly when it has text, and
/// under the own mime type of each of its images. No mime type comes twice, and nothing else is
/// offered.
pub proof fn a_source_is_offered_as_what_it_holds<Fd, Token>(
    store: ClipboardSources<Fd, Token>,
    source_id: u128,
    offered: Vec<&'static str>,
    mime: Seq<char>,
)
    requires
        call_ensures(
            ClipboardSources::<Fd, Token>::offered_mime_types,
            (&store, source_id),
            offered,
        ),
    ensures
        forall|i: int, j: int|
            0 <= i < j < offered@.len() ==> (#[trigger] offered@[i])@ != (#[trigger] offered@[j])@,
        has_promised(store@, source_id) ==> offered@.len() == 1 && offered@[0]@ == "image/png"@,
        !store@.sources.contains_key(source_id) || store@.sources[source_id].data is Failed
            ==> offered@.len() == 0,
        store@.sources.contains_key(source_id) && store@.sources[source_id].data is Ready ==> {
            let item = store@.sources[source_id].data->Ready_0;
            let has_text = joined_text(item).len() > 0;
            &&& has_text ==> offered@.len() >= 3 && offered@[0]@ == "text/plain;charset=utf-8"@
                && offered@[1]@ == "UTF8_STRING"@ && offered@[2]@ == "text/plain"@
            &&& (exists|i: int| 0 <= i < offered@.len() && (#[trigger] offered@[i])@ == mime)
                <==> has_text && is_name_of_text(mime) || exists|k: int|
                0 <= k < item.len() && #[trigger] item[k] is Image
                    && item[k]->Image_0.format.mime() == mime
        },
{
    offered_mime_types_are_distinct(store@, source_id);
    let views = store@.offered_mimes(source_id);
    assert(views == str_views(offered@));
    assert forall|i: int, j: int| 0 <= i < j < offered@.len() implies (#[trigger] offered@[i])@ != (
    #[trigger] offered@[j])@ by {
        assert(views[i] != views[j]);
    }
    if has_promised(store@, source_id) {
        assert(views[0] == offered@[0]@);
    }
    if store@.sources.contains_key(source_id) && store@.sources[source_id].data is Ready {
        let item = store@.sources[source_id].data->Ready_0;
        lemma_item_is_offered(item, mime);
        if joined_text(item).len() > 0 {
            text_names(mime);
            assert(views[0] == offered@[0]@ && views[1] == offered@[1]@ && views[2]
                == offered@[2]@);
        }
        if exists|i: int| 0 <= i < offered@.len() && (#[trigger] offered@[i])@ == mime {
            let i = choose|i: int| 0 <= i < offered@.len() && (#[trigger] offered@[i])@ == mime;
            assert(views[i] == mime);
        }
        if views.contains(mime) {
            let i = choose|i: int| 0 <= i < views.len() && views[i] == mime;
            assert(offered@[i]@ == mime);
        }
    }
}

/// What is offered of an item comes in the order of its entries: more entries behind an item add
/// mime types behind those that it is offered under, as long as both have text or neither has.
pub proof fn what_comes_later_is_offered_later<Fd, Token>(
    shorter: ClipboardSources<Fd, Token>,
    longer: ClipboardSources<Fd, Token>,
    source_id: u128,
    more: Seq<EntryModel>,
    fewer_offered: Vec<&'static str>,
    more_offered: Vec<&'static str>,
)
    requires
        shorter@.sources.contains_key(source_id) && shorter@.sources[source_id].data is Ready,
        longer@.sources.contains_key(source_id) && longer@.sources[source_id].data is Ready,
        longer@.sources[source_id].data->Ready_0 == shorter@.sources[source_id].data->Ready_0
            + more,
        joined_text(shorter@.sources[source_id].data->Ready_0).len() > 0 <==> joined_text(
            longer@.sources[source_id].data->Ready_0,
        ).len() > 0,
        call_ensures(
            ClipboardSources::<Fd, Token>::offered_mime_types,
            (&shorter, source_id),
            fewer_offered,
        ),
        call_ensures(
            ClipboardSources::<Fd, Token>::offered_mime_types,
            (&longer, source_id),
            more_offered,
        ),
    ensures
        fewer_offered@.len() <= more_offered@.len(),
        forall|i: int|
            0 <= i < fewer_offered@.len() ==> (#[trigger] fewer_offered@[i])@
                == more_offered@[i]@,
{
    let item = shorter@.sources[source_id].data->Ready_0;
    let base = if item_text(item) is Some {
        text_mimes()
    } else {
        Seq::empty()
    };
    lemma_mimes_grow(base, item, more);
    assert forall|i: int| 0 <= i < fewer_offered@.len() implies (#[trigger] fewer_offered@[i])@
        == more_offered@[i]@ by {
        assert(str_views(fewer_offered@)[i] == fewer_offered@[i]@);
        assert(str_views(more_offered@)[i] == more_offered@[i]@);
    }
}

proof fn lemma_mimes_grow(base: Seq<Seq<char>>, item: Seq<EntryModel>, more: Seq<EntryModel>)
    ensures
        with_image_mimes(base, item).is_prefix_of(with_image_mimes(base, item + more)),
    decreases more.len(),
{
    if more.len() == 0 {
        assert(item + more =~= item);
    } else {
        lemma_mimes_grow(base, item, more.drop_last());
        assert((item + more).drop_last() =~= item + more.drop_last());
    }
}

proof fn lemma_item_is_offered(item: Seq<EntryModel>, mime: Seq<char>)
    ensures
        item_mimes(item).contains(mime) <==> (item_text(item) is Some && text_mimes().contains(
            mime,
        ))
            || exists|k: int|
            0 <= k < item.len() && #[trigger] item[k] is Image
                && item[k]->Image_0.format.mime() == mime,
        item_text(item) is Some ==> text_mimes().is_prefix_of(item_mimes(item)),
        text_mimes().contains(mime) <==> is_name_of_text(mime),
{
    text_names(mime);
    let base = if item_text(item) is Some {
        text_mimes()
    } else {
        Seq::empty()
    };
    lemma_mimes_grow(base, Seq::empty(), item);
    assert(Seq::<EntryModel>::empty() + item =~= item);
    if item_mimes(item).contains(mime) {
        lemma_image_mimes(base, item, mime);
        if !base.contains(mime) {
            let format = choose|format: ImageFormat| #[trigger]
                format.mime() == mime && first_image(item, format) is Some;
            the_first_image_is_given(item, format);
            let k = choose|k: int| 0 <= k < item.len() && is_image_of(#[trigger] item[k], format);
            assert(item[k] is Image && item[k]->Image_0.format.mime() == mime);
        }
    }
    if base.contains(mime) {
        let k = choose|k: int| 0 <= k < base.len() && base[k] == mime;
        assert(item_mimes(item)[k] == mime);
    }
    if exists|k: int|
        0 <= k < item.len() && #[trigger] item[k] is Image && item[k]->Image_0.format.mime()
            == mime {
        let k = choose|k: int|
            0 <= k < item.len() && #[trigger] item[k] is Image
                && item[k]->Image_0.format.mime() == mime;
        let format = item[k]->Image_0.format;
        the_first_image_is_given(item, format);
        assert(is_image_of(item[k], format));
        lemma_image_is_offered(base, item, format);
    }
}

/// A transfer is taken on exactly when there is room, and is then queued behind the others of
/// its source; else nothing changes.
pub proof fn transfers_are_queued_while_there_is_room<Fd, Token>(
    store: &mut ClipboardSources<Fd, Token>,
    source_id: u128,
    transfer_id: u128,
    fd: Fd,
    taken: bool,
)
    requires
        call_ensures(
            ClipboardSources::<Fd, Token>::enqueue_transfer_as,
            (store, source_id, transfer_id, fd),
            taken,
        ),
    ensures
        taken <==> has_room(old(store)@, source_id),
        taken ==> came_in(old(store)@, final(store)@, source_id, transfer_id, fd),
        !taken ==> final(store)@ == old(store)@,
{
    let list = old(store)@.sources[source_id].transfers;
    assert(list.push(transfer_id).drop_last() =~= list);
}

/// A transfer under an identifier of its own is queued in the same way.
pub proof fn transfers_get_identifiers_while_there_is_room<Fd, Token>(
    store: &mut ClipboardSources<Fd, Token>,
    source_id: u128,
    fd: Fd,
    transfer_id: Option<u128>,
)
    requires
        call_ensures(
            ClipboardSources::<Fd, Token>::enqueue_transfer,
            (store, source_id, fd),
            transfer_id,
        ),
    ensures
        transfer_id is Some <==> has_room(old(store)@, source_id),
        transfer_id matches Some(id) ==> is_random_id(id) && came_in(
            old(store)@,
            final(store)@,
            source_id,
            id,
            fd,
        ),
        transfer_id is None ==> final(store)@ == old(store)@,
{
    let list = old(store)@.sources[source_id].transfers;
    if transfer_id is Some {
        assert(list.push(transfer_id->0).drop_last() =~= list);
    }
}

/// The tokens of a transfer are noted with it, when it is there, and nothing else changes.
pub proof fn a_timeout_token_is_noted<Fd, Token>(
    store: &mut ClipboardSources<Fd, Token>,
    transfer_id: u128,
    token: Token,
    found: bool,
)
    requires
        call_ensures(
            ClipboardSources::<Fd, Token>::set_timeout_token,
            (store, transfer_id, token),
            found,
        ),
    ensures
        found <==> old(store)@.transfers.contains_key(transfer_id),
        final(store)@.transfers.contains_key(transfer_id) == found,
        final(store)@.sources == old(store)@.sources,
        same_other_transfers(old(store)@, final(store)@, transfer_id),
        found ==> {
            let transfer = final(store)@.transfers[transfer_id];
            &&& transfer.source_id == old(store)@.transfers[transfer_id].source_id
            &&& transfer.state == old(store)@.transfers[transfer_id].state
            &&& transfer.timeout_token == Some(token)
            &&& transfer.write_token == old(store)@.transfers[transfer_id].write_token
        },
{
}

/// The token of a writer is noted in the same way.
pub proof fn a_write_token_is_noted<Fd, Token>(
    store: &mut ClipboardSources<Fd, Token>,
    transfer_id: u128,
    token: Token,
    found: bool,
)
    requires
        call_ensures(
            ClipboardSources::<Fd, Token>::set_write_token,
            (store, transfer_id, token),
            found,
        ),
    ensures
        found <==> old(store)@.transfers.contains_key(transfer_id),
        final(store)@.transfers.contains_key(transfer_id) == found,
        final(store)@.sources == old(store)@.sources,
        same_other_transfers(old(store)@, final(store)@, transfer_id),
        found ==> {
            let transfer = final(store)@.transfers[transfer_id];
            &&& transfer.source_id == old(store)@.transfers[transfer_id].source_id
            &&& transfer.state == old(store)@.transfers[transfer_id].state
            &&& transfer.timeout_token == old(store)@.transfers[transfer_id].timeout_token
            &&& transfer.write_token == Some(token)
        },
{
}

/// Whether a transfer, when it is there, no longer waits, and nothing else has changed.
pub open spec fn began_sending<Fd, Token>(
    before: StoreModel<Fd, Token>,
    after: StoreModel<Fd, Token>,
    transfer_id: u128,
) -> bool {
    &&& after.sources == before.sources
    &&& same_other_transfers(before, after, transfer_id)
    &&& after.transfers.contains_key(transfer_id) <==> before.transfers.contains_key(transfer_id)
    &&& before.transfers.contains_key(transfer_id) ==> {
        let transfer = after.transfers[transfer_id];
        &&& transfer.state is Sending
        &&& transfer.source_id == before.transfers[transfer_id].source_id
        &&& transfer.timeout_token == before.transfers[transfer_id].timeout_token
        &&& transfer.write_token == before.transfers[transfer_id].write_token
    }
}

/// A waiting transfer hands its descriptor out once.
pub proof fn a_waiting_transfer_hands_its_descriptor_out<Fd, Token>(
    store: &mut ClipboardSources<Fd, Token>,
    transfer_id: u128,
    fd: Option<Fd>,
)
    requires
        call_ensures(ClipboardSources::<Fd, Token>::begin_sending, (store, transfer_id), fd),
    ensures
        fd is Some <==> old(store)@.transfers.contains_key(transfer_id) && old(
            store,
        )@.transfers[transfer_id].state is Pending,
        fd matches Some(fd) ==> old(store)@.transfers[transfer_id].state
            == ClipboardTransferState::Pending(fd),
        began_sending(old(store)@, final(store)@, transfer_id),
{
}

/// Whether a source now holds one PNG image, and nothing else has changed.
pub open spec fn got_its_image<Fd, Token>(
    before: StoreModel<Fd, Token>,
    after: StoreModel<Fd, Token>,
    source_id: u128,
    bytes: Seq<u8>,
    id: u64,
) -> bool {
    &&& same_other_sources(before, after, source_id)
    &&& after.sources.contains_key(source_id)
    &&& after.sources[source_id].transfers == before.sources[source_id].transfers
    &&& after.sources[source_id].retire_when_idle == before.sources[source_id].retire_when_idle
    &&& after.sources[source_id].data matches DataModel::Ready(item)
    &&& item.len() == 1
    &&& item[0] matches EntryModel::Image(image)
    &&& image.format == ImageFormat::Png
    &&& image.bytes == bytes
    &&& image.id == id
}

/// A promise that stands is kept with all of the bytes, and gives the transfers of the source;
/// there is no other promise to keep.
pub proof fn a_standing_promise_is_kept<Fd, Token>(
    store: &mut ClipboardSources<Fd, Token>,
    source_id: u128,
    png_bytes: Vec<u8>,
    id: u64,
    result: Result<Vec<u128>, DeferredClipboardImageError>,
)
    requires
        call_ensures(
            ClipboardSources::<Fd, Token>::fulfill_as,
            (store, source_id, png_bytes, id),
            result,
        ),
    ensures
        final(store)@.transfers == old(store)@.transfers,
        match result {
            Ok(ids) => {
                &&& has_promised(old(store)@, source_id)
                &&& ids@ == old(store)@.sources[source_id].transfers
                &&& got_its_image(old(store)@, final(store)@, source_id, png_bytes@, id)
            },
            Err(error) => {
                &&& !has_promised(old(store)@, source_id)
                &&& error == DeferredClipboardImageError::Retired
                &&& final(store)@ == old(store)@
            },
        },
{
}

/// The same, with an identifier taken from the bytes.
pub proof fn a_standing_promise_is_kept_under_some_identifier<Fd, Token>(
    store: &mut ClipboardSources<Fd, Token>,
    source_id: u128,
    png_bytes: Vec<u8>,
    result: Result<Vec<u128>, DeferredClipboardImageError>,
)
    requires
        call_ensures(
            ClipboardSources::<Fd, Token>::fulfill,
            (store, source_id, png_bytes),
            result,
        ),
    ensures
        final(store)@.transfers == old(store)@.transfers,
        match result {
            Ok(ids) => {
                &&& has_promised(old(store)@, source_id)
                &&& ids@ == old(store)@.sources[source_id].transfers
                &&& exists|id: u64| #[trigger]
                    got_its_image(old(store)@, final(store)@, source_id, png_bytes@, id)
            },
            Err(error) => {
                &&& !has_promised(old(store)@, source_id)
                &&& error == DeferredClipboardImageError::Retired
                &&& final(store)@ == old(store)@
            },
        },
{
    let id = choose|id: u64|
        final(store)@ == #[trigger] old(store)@.fulfilled(source_id, png_bytes@, id);
    if result is Ok {
        assert(got_its_image(old(store)@, final(store)@, source_id, png_bytes@, id));
    }
}

pub(crate) proof fn lemma_listed_are_listed<Fd, Token>(store: StoreModel<Fd, Token>, ids: Seq<u128>)
    ensures
        are_listed(store, ids, listed_transfers(store.transfers, ids)),
    decreases ids.len(),
{
    let taken = listed_transfers(store.transfers, ids);
    assert forall|id: u128| #[trigger]
        ids.contains(id) && store.transfers.contains_key(id) implies taken.contains(
        store.transfers[id],
    ) by {
        lemma_listed_holds_the_listed(store.transfers, ids, id);
    }
    if ids.len() > 0 {
        let init = ids.drop_last();
        let last = ids.last();
        let earlier = listed_transfers(store.transfers, init);
        lemma_listed_are_listed(store, init);
        assert forall|id: u128| #[trigger] init.contains(id) implies ids.contains(id) by {
            let k = choose|k: int| 0 <= k < init.len() && init[k] == id;
            assert(ids[k] == id);
        }
        assert(ids.contains(last));
        assert forall|i: int| 0 <= i < taken.len() implies exists|id: u128| #[trigger]
            ids.contains(id) && store.transfers.contains_key(id) && store.transfers[id]
                == #[trigger] taken[i] by {
            if i < earlier.len() {
                assert(taken[i] == earlier[i]);
                let id = choose|id: u128| #[trigger]
                    init.contains(id) && store.transfers.contains_key(id) && store.transfers[id]
                        == earlier[i];
                assert(ids.contains(id));
            } else {
                assert(ids.contains(last) && store.transfers[last] == taken[i]);
            }
        }
        if ids.no_duplicates() && forall|id: u128| #[trigger]
            ids.contains(id) ==> store.transfers.contains_key(id) {
            assert(init.no_duplicates());
            assert(!init.contains(last)) by {
                if init.contains(last) {
                    let k = choose|k: int| 0 <= k < init.len() && init[k] == last;
                    assert(ids[k] == ids[ids.len() - 1]);
                }
            }
            assert forall|i: int| 0 <= i < ids.len() implies #[trigger] taken[i]
                == store.transfers[ids[i]] by {
                if i < init.len() {
                    assert(earlier[i] == store.transfers[init[i]]);
                }
            }
        }
    }
}

/// A promise that stands can be broken: the source has nothing to give any more, and its
/// transfers go out and are handed back. There is no other promise to break.
pub proof fn a_standing_promise_is_broken<Fd, Token>(
    store: &mut ClipboardSources<Fd, Token>,
    source_id: u128,
    result: Result<Vec<ClipboardTransfer<Fd, Token>>, DeferredClipboardImageError>,
)
    requires
        call_ensures(ClipboardSources::<Fd, Token>::fail, (store, source_id), result),
    ensures
        match result {
            Ok(taken) => {
                &&& has_promised(old(store)@, source_id)
                &&& lost_its_promise(old(store)@, final(store)@, source_id)
                &&& are_listed(old(store)@, old(store)@.sources[source_id].transfers, taken@)
            },
            Err(error) => {
                &&& !has_promised(old(store)@, source_id)
                &&& error == DeferredClipboardImageError::Retired
                &&& final(store)@ == old(store)@
            },
        },
{
    lemma_listed_are_listed(old(store)@, old(store)@.sources[source_id].transfers);
    assert(result is Ok ==> listed_went_out(old(store)@, final(store)@, source_id));
}

/// Whether a source has lost its promise and its transfers, and nothing else has changed.
pub open spec fn lost_its_promise<Fd, Token>(
    before: StoreModel<Fd, Token>,
    after: StoreModel<Fd, Token>,
    source_id: u128,
) -> bool {
    &&& same_other_sources(before, after, source_id)
    &&& after.sources.contains_key(source_id)
    &&& after.sources[source_id].data is Failed
    &&& after.sources[source_id].transfers.len() == 0
    &&& after.sources[source_id].retire_when_idle == before.sources[source_id].retire_when_idle
    &&& listed_went_out(before, after, source_id)
}

/// Whether a source is gone with its transfers, and nothing else has changed.
pub open spec fn is_gone<Fd, Token>(
    before: StoreModel<Fd, Token>,
    after: StoreModel<Fd, Token>,
    source_id: u128,
) -> bool {
    &&& !after.sources.contains_key(source_id)
    &&& same_other_sources(before, after, source_id)
    &&& listed_went_out(before, after, source_id)
}

/// A source that is cancelled is gone with its transfers, which are handed back.
pub proof fn a_cancelled_source_is_gone<Fd, Token>(
    store: &mut ClipboardSources<Fd, Token>,
    source_id: u128,
    taken: Vec<ClipboardTransfer<Fd, Token>>,
)
    requires
        call_ensures(ClipboardSources::<Fd, Token>::cancel, (store, source_id), taken),
    ensures
        is_gone(old(store)@, final(store)@, source_id),
        old(store)@.sources.contains_key(source_id) ==> are_listed(
            old(store)@,
            old(store)@.sources[source_id].transfers,
            taken@,
        ),
        !old(store)@.sources.contains_key(source_id) ==> taken@.len() == 0 && final(store)@ == old(
            store,
        )@,
{
    lemma_listed_are_listed(old(store)@, old(store)@.sources[source_id].transfers);
    assert(listed_went_out(old(store)@, final(store)@, source_id));
}

proof fn lemma_kept_ids(ids: Seq<u128>, left_out: u128)
    ensures
        forall|place: int|
            ids.no_duplicates() && 0 <= place < ids.len() && #[trigger] ids[place] == left_out
                ==> ids_except(ids, left_out) == ids.remove(place),
        !ids.contains(left_out) ==> ids_except(ids, left_out) == ids,
        ids_except(ids, left_out).len() == 0 <==> forall|id: u128| #[trigger]
            ids.contains(id) ==> id == left_out,
    decreases ids.len(),
{
    reveal(Seq::filter);
    lemma_ids_except(ids, left_out);
    let kept = ids_except(ids, left_out);
    if kept.len() > 0 {
        assert(kept.contains(kept[0]));
    } else {
        assert forall|id: u128| #[trigger] ids.contains(id) implies id == left_out by {
            if id != left_out {
                assert(kept.contains(id));
            }
        }
    }
    if ids.len() > 0 {
        let init = ids.drop_last();
        lemma_kept_ids(init, left_out);
        assert forall|id: u128| #[trigger] init.contains(id) implies ids.contains(id) by {
            let k = choose|k: int| 0 <= k < init.len() && init[k] == id;
            assert(ids[k] == id);
        }
        assert(ids.contains(ids.last()));
        if !ids.contains(left_out) {
            assert(kept =~= init.push(ids.last()));
            assert(ids =~= init.push(ids.last()));
        }
        assert forall|place: int|
            ids.no_duplicates() && 0 <= place < ids.len() && #[trigger] ids[place]
                == left_out implies kept == ids.remove(place) by {
            assert(init.no_duplicates());
            if place < init.len() {
                assert(init[place] == left_out);
                assert(ids[place] != ids[ids.len() - 1]);
                assert(kept =~= init.remove(place).push(ids.last()));
                assert(kept =~= ids.remove(place));
            } else {
                assert(!init.contains(left_out)) by {
                    if init.contains(left_out) {
                        let k = choose|k: int| 0 <= k < init.len() && init[k] == left_out;
                        assert(ids[k] == ids[place]);
                    }
                }
                assert(kept =~= init);
                assert(kept =~= ids.remove(place));
            }
        }
    }
}

pub(crate) proof fn lemma_without_transfer_went_out<Fd, Token>(
    store: StoreModel<Fd, Token>,
    transfer_id: u128,
)
    ensures
        went_out(store, store.without_transfer(transfer_id), transfer_id),
{
    if store.transfers.contains_key(transfer_id) {
        let source_id = store.transfers[transfer_id].source_id;
        let ids = store.sources[source_id].transfers;
        lemma_kept_ids(ids, transfer_id);
        lemma_ids_except(ids, transfer_id);
    }
}

/// A transfer is taken out of the store and of the list of its source, and handed back. A source
/// that goes away with its last transfer goes with that one, and no other does.
pub proof fn a_transfer_is_taken_out<Fd, Token>(
    store: &mut ClipboardSources<Fd, Token>,
    transfer_id: u128,
    transfer: Option<ClipboardTransfer<Fd, Token>>,
)
    requires
        call_ensures(
            ClipboardSources::<Fd, Token>::remove_transfer,
            (store, transfer_id),
            transfer,
        ),
    ensures
        transfer is Some <==> old(store)@.transfers.contains_key(transfer_id),
        transfer matches Some(transfer) ==> transfer == old(store)@.transfers[transfer_id],
        went_out(old(store)@, final(store)@, transfer_id),
{
    lemma_without_transfer_went_out(old(store)@, transfer_id);
}

/// A transfer that was written goes out, and its timeout, if it has one, is to be removed.
pub proof fn a_written_transfer_gives_its_timeout_back<Fd, Token>(
    store: &mut ClipboardSources<Fd, Token>,
    transfer_id: u128,
    token: Option<Token>,
)
    requires
        call_ensures(ClipboardSources::<Fd, Token>::finish_from_write, (store, transfer_id), token),
    ensures
        old(store)@.transfers.contains_key(transfer_id) ==> token == old(
            store,
        )@.transfers[transfer_id].timeout_token,
        !old(store)@.transfers.contains_key(transfer_id) ==> token is None,
        went_out(old(store)@, final(store)@, transfer_id),
{
    lemma_without_transfer_went_out(old(store)@, transfer_id);
}

/// A transfer whose time is up goes out, and its writer, if it has one, is to be removed.
pub proof fn a_late_transfer_gives_its_writer_back<Fd, Token>(
    store: &mut ClipboardSources<Fd, Token>,
    transfer_id: u128,
    token: Option<Token>,
)
    requires
        call_ensures(
            ClipboardSources::<Fd, Token>::finish_from_timeout,
            (store, transfer_id),
            token,
        ),
    ensures
        old(store)@.transfers.contains_key(transfer_id) ==> token == old(
            store,
        )@.transfers[transfer_id].write_token,
        !old(store)@.transfers.contains_key(transfer_id) ==> token is None,
        went_out(old(store)@, final(store)@, transfer_id),
{
    lemma_without_transfer_went_out(old(store)@, transfer_id);
}

} // verus!
