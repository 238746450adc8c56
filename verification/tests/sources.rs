use wayland_transfers::item::{
    ClipboardEntry, ClipboardItem, ClipboardString, Image, ImageFormat, FORMAT_COUNT,
};
use wayland_transfers::mime::{
    is_allowed_text_mime_type, is_text_mime_type, ALLOWED_TEXT_MIME_TYPES, FILE_LIST_MIME_TYPE,
    TEXT_MIME_TYPES,
};
use wayland_transfers::sources::{ClipboardSources, DeferredClipboardImageError, SendData};
use wayland_transfers::store::{MAX_CLIPBOARD_TRANSFERS, MAX_SOURCE_TRANSFERS};
use wayland_transfers::transfers::{
    cancel_source, fail_source, fulfill_source, fulfill_source_as, insert_transfer_timeout,
    queue_source_send, queue_source_send_as, queued_timeout_inserted, start_sending,
    writer_inserted, DropReason, Outgoing, QueueAction, SendAction, TimeoutOutcome, WriteAction,
    WriteOutcome, DEFERRED_SEND_TIMEOUT_SECS,
};

type TestSources = ClipboardSources<u8, u32>;

/// A PNG image of one white pixel.
const PIXEL: [u8; 69] = [
    137, 80, 78, 71, 13, 10, 26, 10, 0, 0, 0, 13, 73, 72, 68, 82, 0, 0, 0, 1, 0, 0, 0, 1, 8, 2, 0,
    0, 0, 144, 119, 83, 222, 0, 0, 0, 12, 73, 68, 65, 84, 120, 156, 99, 248, 255, 255, 63, 0, 5,
    254, 2, 254, 13, 239, 70, 184, 0, 0, 0, 0, 73, 69, 78, 68, 174, 66, 96, 130,
];

fn text_item(text: &str) -> ClipboardItem {
    ClipboardItem::new_string(text.to_string())
}

fn image(format: ImageFormat, bytes: &[u8]) -> ClipboardEntry {
    ClipboardEntry::Image(Image { format, bytes: bytes.to_vec(), id: 0 })
}

fn text(text: &str) -> ClipboardEntry {
    ClipboardEntry::String(ClipboardString { text: text.to_string(), metadata: None })
}

fn bytes_of(data: SendData) -> Option<Vec<u8>> {
    match data {
        SendData::Ready(bytes) => Some(bytes),
        _ => None,
    }
}

#[test]
fn a_ready_source_gives_its_item() {
    let mut sources = TestSources::new();
    sources.insert_ready(7, text_item("text"), false);
    assert_eq!(sources.item(7).and_then(|item| item.text()), Some("text".to_string()));
    assert!(sources.item(8).is_none());
}

#[test]
fn mime_types_of_text_are_told_apart() {
    assert_eq!(
        TEXT_MIME_TYPES,
        ["text/plain;charset=utf-8", "UTF8_STRING", "text/plain"]
    );
    assert_eq!(ALLOWED_TEXT_MIME_TYPES, ["text/plain;charset=utf-8", "UTF8_STRING"]);
    assert_eq!(FILE_LIST_MIME_TYPE, "text/uri-list");
    assert!(is_text_mime_type("text/plain"));
    assert!(!is_allowed_text_mime_type("text/plain"));
    assert!(is_allowed_text_mime_type("UTF8_STRING"));
    assert!(!is_text_mime_type("utf8_string"));
    assert!(!is_text_mime_type(""));
}

#[test]
fn every_format_has_its_mime_type() {
    for index in 0..FORMAT_COUNT {
        let format = ImageFormat::at(index).expect("format is missing");
        assert_eq!(format.index(), index);
        assert_eq!(ImageFormat::from_mime_type(format.mime_type()), Some(format));
    }
    assert_eq!(ImageFormat::at(FORMAT_COUNT), None);
    assert_eq!(ImageFormat::from_mime_type("image/jpg"), Some(ImageFormat::Jpeg));
    assert_eq!(ImageFormat::from_mime_type("image/heic"), None);
}

#[test]
fn a_mixed_item_offers_text_before_images() {
    let mut sources = TestSources::new();
    let item = ClipboardItem {
        entries: vec![
            image(ImageFormat::Jpeg, &[1]),
            text("a"),
            image(ImageFormat::Png, &[2]),
            image(ImageFormat::Jpeg, &[3]),
            text("b"),
        ],
    };
    sources.insert_ready(1, item, false);
    assert_eq!(
        sources.offered_mime_types(1),
        vec!["text/plain;charset=utf-8", "UTF8_STRING", "text/plain", "image/jpeg", "image/png"]
    );
    assert_eq!(bytes_of(sources.send_data(1, "UTF8_STRING")), Some(b"ab".to_vec()));
    assert_eq!(bytes_of(sources.send_data(1, "image/jpeg")), Some(vec![1]));
    assert_eq!(bytes_of(sources.send_data(1, "image/jpg")), Some(vec![1]));
    for index in 0..FORMAT_COUNT {
        let mime_type = ImageFormat::at(index).expect("format is missing").mime_type();
        assert_eq!(
            bytes_of(sources.send_data(1, mime_type)).is_some(),
            sources.offered_mime_types(1).contains(&mime_type)
        );
    }
    assert_eq!(bytes_of(sources.send_data(1, "image/png")), Some(vec![2]));
    assert!(matches!(sources.send_data(1, "image/gif"), SendData::Unavailable));
    assert!(matches!(sources.send_data(1, "text/uri-list"), SendData::Unavailable));
    assert!(matches!(sources.send_data(2, "image/png"), SendData::Unavailable));
    assert!(sources.offered_mime_types(2).is_empty());
}

#[test]
fn an_item_without_text_offers_none() {
    let mut sources = TestSources::new();
    sources.insert_ready(1, ClipboardItem { entries: vec![text("")] }, false);
    sources.insert_ready(2, ClipboardItem { entries: vec![] }, false);
    assert!(sources.offered_mime_types(1).is_empty());
    assert!(matches!(sources.send_data(1, "text/plain"), SendData::Unavailable));
    assert!(sources.offered_mime_types(2).is_empty());
    assert!(sources.item(2).is_some());
}

#[test]
fn a_pending_source_only_promises_png() {
    let mut sources = TestSources::new();
    sources.insert_pending(1);
    assert_eq!(sources.offered_mime_types(1), vec!["image/png"]);
    assert!(matches!(sources.send_data(1, "image/png"), SendData::Pending));
    assert!(matches!(sources.send_data(1, "text/plain"), SendData::Unavailable));
    assert!(sources.item(1).is_none());
    assert!(sources.fail(1).is_ok());
    assert!(matches!(sources.send_data(1, "image/png"), SendData::Unavailable));
    assert!(sources.offered_mime_types(1).is_empty());
    assert!(matches!(sources.fail(1), Err(DeferredClipboardImageError::Retired)));
    assert!(matches!(sources.fail(9), Err(DeferredClipboardImageError::Retired)));
}

#[test]
fn requests_are_dropped_for_a_reason() {
    let mut sources = TestSources::new();
    sources.insert_pending(1);
    assert!(matches!(
        queue_source_send(&mut sources, 1, "image/png", 3, false),
        QueueAction::Dropped(DropReason::Blocking)
    ));
    assert!(matches!(
        queue_source_send(&mut sources, 1, "text/plain", 3, true),
        QueueAction::Dropped(DropReason::Unavailable)
    ));
    assert!(matches!(
        queue_source_send(&mut sources, 2, "image/png", 3, true),
        QueueAction::Dropped(DropReason::Unavailable)
    ));
    for transfer_id in 0..8 {
        assert!(matches!(
            queue_source_send_as(&mut sources, 1, transfer_id, "image/png", 3, true),
            QueueAction::ArmTimeout { data: SendData::Pending, .. }
        ));
    }
    assert!(matches!(
        queue_source_send(&mut sources, 1, "image/png", 3, true),
        QueueAction::Dropped(DropReason::QueueFull)
    ));
    assert_eq!(MAX_SOURCE_TRANSFERS, 8);
    assert_eq!(DEFERRED_SEND_TIMEOUT_SECS, 5);
}

#[test]
fn all_sources_together_are_bounded() {
    let mut sources = TestSources::new();
    for source_id in 0..5 {
        sources.insert_pending(source_id);
    }
    for transfer in 0..MAX_CLIPBOARD_TRANSFERS {
        assert!(sources.enqueue_transfer((transfer / 8) as u128, 3).is_some());
    }
    assert_eq!(MAX_CLIPBOARD_TRANSFERS, 32);
    assert_eq!(sources.enqueue_transfer(4, 3), None);
    assert_eq!(sources.enqueue_transfer(9, 3), None);
    assert_eq!(cancel_source(&mut sources, 0).len(), 0);
    assert_eq!(sources.transfers.len(), 24);
    assert!(sources.enqueue_transfer(4, 3).is_some());
}

#[test]
fn a_queued_transfer_is_armed_written_and_finished() {
    let mut sources = TestSources::new();
    sources.insert_ready(1, text_item("abc"), false);
    let data = match queue_source_send_as(&mut sources, 1, 20, "text/plain", 3, true) {
        QueueAction::ArmTimeout { transfer_id: 20, data } => data,
        _ => panic!("request was dropped"),
    };
    let job = match queued_timeout_inserted(&mut sources, 20, data, Some(70)) {
        SendAction::Write(job) => job,
        _ => panic!("nothing is written"),
    };
    assert_eq!((job.transfer_id, job.fd, job.outgoing.remaining()), (20, 3, &b"abc"[..]));
    assert_eq!(writer_inserted(&mut sources, 20, Some(71)), None);
    assert!(start_sending(&mut sources, 20, vec![]).is_none());
    assert_eq!(sources.finish_from_write(20), Some(70));
    assert_eq!(sources.finish_from_timeout(20), None);
    assert!(sources.item(1).is_some());
    assert!(sources.sources[&1].transfers.is_empty());
}

#[test]
fn a_timeout_ends_a_writer() {
    let mut sources = TestSources::new();
    sources.insert_ready(1, text_item("abc"), true);
    assert!(sources.enqueue_transfer_as(1, 20, 3));
    assert!(matches!(
        insert_transfer_timeout(&mut sources, 20, Some(70)),
        TimeoutOutcome::Armed
    ));
    assert!(start_sending(&mut sources, 20, b"abc".to_vec()).is_some());
    assert!(sources.set_write_token(20, 71));
    assert_eq!(sources.finish_from_timeout(20), Some(71));
    assert!(sources.sources.is_empty());
}

#[test]
fn a_transfer_that_is_gone_keeps_no_token() {
    let mut sources = TestSources::new();
    sources.insert_ready(1, text_item("abc"), false);
    assert!(matches!(
        insert_transfer_timeout(&mut sources, 20, Some(70)),
        TimeoutOutcome::TransferGone(70)
    ));
    assert!(matches!(
        insert_transfer_timeout(&mut sources, 20, None),
        TimeoutOutcome::NotRegistered
    ));
    assert_eq!(writer_inserted(&mut sources, 20, Some(71)), Some(71));
    assert!(!sources.set_timeout_token(20, 70));
    assert!(!sources.set_write_token(20, 71));
    assert!(matches!(
        queued_timeout_inserted(&mut sources, 20, SendData::Pending, Some(70)),
        SendAction::RemoveToken(70)
    ));
}

#[test]
fn a_transfer_without_timeout_or_writer_is_given_up() {
    let mut sources = TestSources::new();
    sources.insert_ready(1, text_item("abc"), false);
    assert!(sources.enqueue_transfer_as(1, 20, 3));
    assert!(matches!(
        queued_timeout_inserted(&mut sources, 20, SendData::Pending, None),
        SendAction::Nothing
    ));
    assert!(sources.transfers.is_empty());

    assert!(sources.enqueue_transfer_as(1, 21, 3));
    assert!(sources.set_timeout_token(21, 70));
    assert!(start_sending(&mut sources, 21, vec![1]).is_some());
    assert_eq!(writer_inserted(&mut sources, 21, None), Some(70));
    assert!(sources.transfers.is_empty());
}

#[test]
fn a_kept_promise_sends_to_all_that_wait() {
    let mut sources = TestSources::new();
    sources.insert_pending(1);
    for transfer_id in 20..23 {
        assert!(sources.enqueue_transfer_as(1, transfer_id, transfer_id as u8));
    }
    let fulfillment = fulfill_source(&mut sources, 1, PIXEL.to_vec());
    assert_eq!(fulfillment.result, Ok(()));
    assert!(fulfillment.tokens.is_empty());
    let jobs: Vec<_> = fulfillment.jobs.iter().map(|job| (job.transfer_id, job.fd)).collect();
    assert_eq!(jobs, vec![(20, 20), (21, 21), (22, 22)]);
    assert!(fulfillment.jobs.iter().all(|job| job.outgoing.remaining() == &PIXEL[..]));
    assert_eq!(bytes_of(sources.send_data(1, "image/png")), Some(PIXEL.to_vec()));
    let again = fulfill_source(&mut sources, 1, PIXEL.to_vec());
    assert_eq!(again.result, Err(DeferredClipboardImageError::Retired));
}

#[test]
fn a_broken_promise_gives_its_tokens_back() {
    let mut sources = TestSources::new();
    sources.insert_pending(1);
    for transfer_id in 20..22 {
        assert!(sources.enqueue_transfer_as(1, transfer_id, 3));
        assert!(sources.set_timeout_token(transfer_id, transfer_id as u32));
    }
    assert!(sources.set_write_token(20, 99));
    let mut cut = PIXEL.to_vec();
    cut.truncate(20);
    let fulfillment = fulfill_source(&mut sources, 1, cut);
    assert_eq!(fulfillment.result, Err(DeferredClipboardImageError::InvalidPng));
    assert_eq!(fulfillment.tokens, vec![20, 99, 21]);
    assert!(fulfillment.jobs.is_empty());
    assert!(sources.transfers.is_empty());

    sources.insert_pending(2);
    assert!(sources.enqueue_transfer_as(2, 30, 3));
    assert!(sources.set_timeout_token(30, 30));
    let fulfillment = fulfill_source_as(&mut sources, 2, PIXEL.to_vec(), false, 1);
    assert_eq!(fulfillment.tokens, vec![30]);
    assert_eq!(fail_source(&mut sources, 2), Err(DeferredClipboardImageError::Retired));
    assert_eq!(
        fulfill_source(&mut sources, 9, vec![]).result,
        Err(DeferredClipboardImageError::Retired)
    );
}

#[test]
fn a_kept_promise_keeps_the_identifier_of_its_image() {
    let mut sources = TestSources::new();
    sources.insert_pending(1);
    assert_eq!(sources.fulfill_as(1, vec![5], 77), Ok(vec![]));
    let item = sources.item(1).expect("item is missing");
    match &item.entries()[..] {
        [ClipboardEntry::Image(image)] => {
            assert_eq!((image.format, image.id), (ImageFormat::Png, 77));
            assert_eq!(image.bytes, vec![5]);
        }
        _ => panic!("item is no image"),
    }
}

#[test]
fn a_promise_is_kept_for_those_that_wait() {
    let mut sources = TestSources::new();
    sources.insert_pending(1);
    assert!(sources.enqueue_transfer_as(1, 20, 3));
    assert_eq!(sources.fulfill(1, vec![5]), Ok(vec![20]));
    assert_eq!(bytes_of(sources.send_data(1, "image/png")), Some(vec![5]));
    assert_eq!(
        sources.fulfill(1, vec![6]),
        Err(DeferredClipboardImageError::Retired)
    );
    assert_eq!(bytes_of(sources.send_data(1, "image/png")), Some(vec![5]));
}

#[test]
fn a_source_put_in_anew_forgets_its_transfers() {
    let mut sources = TestSources::new();
    sources.insert_pending(1);
    assert!(sources.enqueue_transfer_as(1, 20, 3));
    sources.insert_pending(1);
    assert!(sources.cancel(1).is_empty());
    assert_eq!(sources.transfers.len(), 1);
    assert!(sources.remove_transfer(20).is_some());
    assert!(sources.remove_transfer(20).is_none());
}

#[test]
fn an_idle_source_can_be_put_in_anew() {
    let mut sources = TestSources::new();
    sources.insert_pending(1);
    sources.insert_ready(1, text_item("abc"), false);
    assert!(sources.enqueue_transfer_as(1, 20, 3));
    assert_eq!(sources.cancel(1).len(), 1);
    assert!(sources.transfers.is_empty());
}

#[test]
fn a_writer_counts_what_was_taken() {
    let mut outgoing = Outgoing::new(vec![1, 2, 3, 4]);
    assert_eq!(outgoing.on_write(WriteOutcome::Wrote(1)), WriteAction::Retry);
    assert_eq!(outgoing.remaining(), &[2, 3, 4]);
    assert_eq!(outgoing.on_write(WriteOutcome::WouldBlock), WriteAction::Wait);
    assert_eq!(outgoing.on_write(WriteOutcome::Interrupted), WriteAction::Retry);
    assert_eq!(outgoing.remaining(), &[2, 3, 4]);
    assert_eq!(outgoing.on_write(WriteOutcome::Wrote(3)), WriteAction::Finish);
    assert!(outgoing.remaining().is_empty());

    let mut stuck = Outgoing::new(vec![1]);
    assert_eq!(stuck.on_write(WriteOutcome::Wrote(0)), WriteAction::Finish);
    let mut broken = Outgoing::new(vec![1]);
    assert_eq!(broken.on_write(WriteOutcome::Failed), WriteAction::Finish);
    let mut empty = Outgoing::new(vec![]);
    assert_eq!(empty.on_write(WriteOutcome::Wrote(0)), WriteAction::Finish);
}
