use wayland_transfers::clipboard::{BytesAction, Clipboard};
use wayland_transfers::ids::{primary_self_mime_of, self_mime_of};
use wayland_transfers::item::{ClipboardEntry, ClipboardItem, Image, ImageFormat};
use wayland_transfers::offer::{DataOffer, ReadStage, ReadStep};
use wayland_transfers::sources::DeferredClipboardImageError;
use wayland_transfers::store::MAX_CLIPBOARD_TRANSFERS;
use wayland_transfers::text::with_line_feeds;
use wayland_transfers::transfers::{DropReason, QueueAction, SendAction};

type TestClipboard = Clipboard<u8, u32, u8, u8>;

const NONCE: u128 = 0x0123456789ab4cdef0123456789abcde;

fn offer(mime_types: &[&str]) -> DataOffer<u8> {
    let mut offer = DataOffer::new(1);
    for mime_type in mime_types {
        offer.add_mime_type(mime_type.to_string());
    }
    offer
}

fn text_of(step: ReadStep) -> Option<String> {
    match step {
        ReadStep::Done(item) => item.and_then(|item| item.text()),
        ReadStep::Receive { .. } => panic!("reading is not over"),
    }
}

fn request_of(step: ReadStep) -> (String, ReadStage) {
    match step {
        ReadStep::Done(_) => panic!("reading is over"),
        ReadStep::Receive { mime_type, stage } => (mime_type, stage),
    }
}

fn text_item(text: &str) -> ClipboardItem {
    ClipboardItem::new_string(text.to_string())
}

#[test]
fn identifiers_are_hyphenated_hexadecimal() {
    assert_eq!(
        self_mime_of(NONCE, 0xf),
        "application/x-zed-clipboard-01234567-89ab-4cde-f012-3456789abcde-\
         00000000-0000-0000-0000-00000000000f"
    );
    assert_eq!(
        primary_self_mime_of(NONCE),
        "application/x-zed-primary-01234567-89ab-4cde-f012-3456789abcde"
    );
    let clipboard = TestClipboard::with_nonce(NONCE);
    assert_eq!(clipboard.self_mime(0xf), self_mime_of(NONCE, 0xf));
    assert_eq!(clipboard.primary_self_mime(), primary_self_mime_of(NONCE));
}

#[test]
fn a_new_clipboard_draws_a_random_nonce() {
    let a = TestClipboard::new();
    let b = TestClipboard::new();
    assert_ne!(a.self_mime_nonce, b.self_mime_nonce);
    assert_eq!((a.self_mime_nonce >> 76) & 0xf, 4);
    assert_eq!((a.self_mime_nonce >> 62) & 0x3, 2);
    assert_ne!(a.self_mime(7), b.self_mime(7));
}

#[test]
fn a_copied_offer_has_the_same_mime_types() {
    let copy = offer(&["image/png", "UTF8_STRING"]).clone();
    assert_eq!(copy.inner, 1);
    assert_eq!(copy.mime_types, vec!["image/png", "UTF8_STRING"]);
    assert!(copy.has_mime_type("UTF8_STRING"));
    assert!(!copy.has_mime_type("image/pn"));
}

#[test]
fn line_ends_become_line_feeds() {
    assert_eq!(with_line_feeds(""), "");
    assert_eq!(with_line_feeds("\r\n"), "\n");
    assert_eq!(with_line_feeds("\r"), "\r");
    assert_eq!(with_line_feeds("\r\r\n\n"), "\r\n\n");
    assert_eq!(with_line_feeds("\r\n\r\na"), "\n\na");
    let text = "\u{e9}\r\n\u{1f600}\r\n\r\u{4e2d}\n\r\n\u{e9}\r";
    assert_eq!(with_line_feeds(text), text.replace("\r\n", "\n"));
}

#[test]
fn nothing_is_read_without_an_offer() {
    let mut clipboard = TestClipboard::with_nonce(NONCE);
    clipboard.set(5, text_item("own"));
    assert!(matches!(clipboard.read(), ReadStep::Done(None)));
    assert!(matches!(clipboard.read_primary(), ReadStep::Done(None)));
    assert!(matches!(
        clipboard.read_received(ReadStage::Text, Some(b"late".to_vec())),
        ReadStep::Done(None)
    ));
    assert!(clipboard.selection.cached_read.is_none());
}

#[test]
fn an_own_offer_is_read_from_its_source() {
    let mut clipboard = TestClipboard::with_nonce(NONCE);
    clipboard.set(4, text_item("other"));
    clipboard.set(5, text_item("own"));
    let mark = clipboard.self_mime(5);
    let mut mime_types = clipboard.offered_mime_types(5);
    mime_types.push(&mark);
    clipboard.set_offer(Some(offer(&mime_types)));
    assert_eq!(text_of(clipboard.read()), Some("own".to_string()));

    clipboard.begin_deferred(6);
    let mark = clipboard.self_mime(6);
    clipboard.set_offer(Some(offer(&["image/png", &mark])));
    assert!(matches!(clipboard.read(), ReadStep::Done(None)));
}

#[test]
fn an_offer_with_a_foreign_mark_is_asked_for() {
    let mut clipboard = TestClipboard::with_nonce(NONCE);
    clipboard.set(5, text_item("own"));
    let mark = self_mime_of(NONCE + 1, 5);
    clipboard.set_offer(Some(offer(&["UTF8_STRING", &mark])));
    assert_eq!(
        request_of(clipboard.read()),
        ("UTF8_STRING".to_string(), ReadStage::Text)
    );
}

#[test]
fn text_is_read_with_line_feeds_and_remembered() {
    let mut clipboard = TestClipboard::with_nonce(NONCE);
    clipboard.set_offer(Some(offer(&["text/plain", "image/png", "UTF8_STRING"])));
    let (mime_type, stage) = request_of(clipboard.read());
    assert_eq!((mime_type.as_str(), stage), ("UTF8_STRING", ReadStage::Text));
    let step = clipboard.read_received(stage, Some(b"a\r\nb\rc\n\r\n\xc3\xa9".to_vec()));
    assert_eq!(text_of(step), Some("a\nb\rc\n\n\u{e9}".to_string()));
    assert_eq!(text_of(clipboard.read()), Some("a\nb\rc\n\n\u{e9}".to_string()));

    clipboard.set_offer(Some(offer(&["text/plain;charset=utf-8"])));
    assert_eq!(request_of(clipboard.read()).0, "text/plain;charset=utf-8");
    clipboard.set_offer(None);
    assert!(matches!(clipboard.read(), ReadStep::Done(None)));
}

#[test]
fn images_follow_text_that_cannot_be_read() {
    let mut clipboard = TestClipboard::with_nonce(NONCE);
    clipboard.set_offer(Some(offer(&["image/jpeg", "image/png", "UTF8_STRING"])));
    let (_, stage) = request_of(clipboard.read());
    let (mime_type, stage) = request_of(clipboard.read_received(stage, Some(vec![0xff, 0xfe])));
    assert_eq!(mime_type, "image/png");
    assert_eq!(stage, ReadStage::Image(ImageFormat::Png));
    let (mime_type, stage) = request_of(clipboard.read_received(stage, None));
    assert_eq!(mime_type, "image/jpeg");
    assert!(clipboard.selection.cached_read.is_none());
    match clipboard.read_received(stage, Some(vec![1, 2, 3])) {
        ReadStep::Done(Some(item)) => match &item.entries()[..] {
            [ClipboardEntry::Image(image)] => {
                assert_eq!(image.format, ImageFormat::Jpeg);
                assert_eq!(image.bytes, vec![1, 2, 3]);
            }
            _ => panic!("item is no image"),
        },
        _ => panic!("no item was read"),
    }
    assert!(matches!(clipboard.read(), ReadStep::Done(Some(_))));
}

#[test]
fn an_offer_of_nothing_known_is_read_as_nothing() {
    let mut clipboard = TestClipboard::with_nonce(NONCE);
    clipboard.set_offer(Some(offer(&["text/plain", "text/uri-list", "application/json"])));
    assert!(matches!(clipboard.read(), ReadStep::Done(None)));
    clipboard.set_offer(Some(offer(&["image/png"])));
    let (_, stage) = request_of(clipboard.read());
    assert!(matches!(clipboard.read_received(stage, None), ReadStep::Done(None)));
    assert!(matches!(clipboard.read(), ReadStep::Receive { .. }));
}

#[test]
fn equal_images_get_equal_identifiers() {
    let image_id = |bytes: Vec<u8>| {
        let step = offer(&["image/png"]).received(ReadStage::Image(ImageFormat::Png), Some(bytes));
        match step {
            ReadStep::Done(Some(item)) => match &item.entries()[0] {
                ClipboardEntry::Image(image) => image.id,
                _ => panic!("item is no image"),
            },
            _ => panic!("no item was read"),
        }
    };
    assert_eq!(image_id(vec![1, 2, 3]), image_id(vec![1, 2, 3]));
    assert_ne!(image_id(vec![1, 2, 3]), image_id(vec![1, 2, 4]));
}

#[test]
fn the_primary_selection_is_read_in_the_same_way() {
    let mut clipboard = TestClipboard::with_nonce(NONCE);
    let mark = clipboard.primary_self_mime();
    clipboard.set_primary_offer(Some(offer(&["UTF8_STRING", &mark])));
    assert!(matches!(clipboard.read_primary(), ReadStep::Done(None)));
    clipboard.set_primary(text_item("own"));
    assert_eq!(text_of(clipboard.read_primary()), Some("own".to_string()));
    assert!(matches!(clipboard.read(), ReadStep::Done(None)));

    clipboard.set_primary_offer(Some(offer(&["UTF8_STRING"])));
    let (_, stage) = request_of(clipboard.read_primary());
    let step = clipboard.read_primary_received(stage, Some(b"other".to_vec()));
    assert_eq!(text_of(step), Some("other".to_string()));
    assert_eq!(text_of(clipboard.read_primary()), Some("other".to_string()));
}

#[test]
fn the_primary_selection_is_sent_as_text() {
    let mut clipboard = TestClipboard::with_nonce(NONCE);
    assert_eq!(clipboard.send_primary(), None);
    clipboard.set_primary(ClipboardItem::new_image(&Image {
        format: ImageFormat::Png,
        bytes: vec![1],
        id: 1,
    }));
    assert_eq!(clipboard.send_primary(), None);
    clipboard.set_primary(text_item("caf\u{e9}"));
    assert_eq!(clipboard.send_primary(), Some(b"caf\xc3\xa9".to_vec()));
}

#[test]
fn bytes_travel_as_a_passing_source() {
    let mut clipboard = TestClipboard::with_nonce(NONCE);
    let action = clipboard.send_bytes_as(1, 2, 9, b"abc".to_vec(), true);
    assert!(matches!(
        action,
        BytesAction::ArmTimeout { source_id: 1, transfer_id: 2, .. }
    ));
    assert_eq!(clipboard.sources.sources.len(), 1);
    match clipboard.bytes_timeout_inserted(1, 2, b"abc".to_vec(), Some(70)) {
        SendAction::Write(job) => {
            assert_eq!((job.transfer_id, job.fd), (2, 9));
            assert_eq!(job.outgoing.remaining(), b"abc");
        }
        _ => panic!("bytes were not written"),
    }
    assert_eq!(clipboard.sources.finish_from_write(2), Some(70));
    assert!(clipboard.sources.sources.is_empty());
    assert!(clipboard.sources.transfers.is_empty());
}

#[test]
fn bytes_without_a_timeout_are_given_up() {
    let mut clipboard = TestClipboard::with_nonce(NONCE);
    clipboard.send_bytes_as(1, 2, 9, b"abc".to_vec(), true);
    assert!(matches!(
        clipboard.bytes_timeout_inserted(1, 2, b"abc".to_vec(), None),
        SendAction::Nothing
    ));
    assert!(clipboard.sources.sources.is_empty());
    assert!(clipboard.sources.transfers.is_empty());
    assert!(matches!(
        clipboard.bytes_timeout_inserted(1, 2, b"abc".to_vec(), Some(5)),
        SendAction::RemoveToken(5)
    ));
}

#[test]
fn bytes_are_dropped_when_they_cannot_be_queued() {
    let mut clipboard = TestClipboard::with_nonce(NONCE);
    assert!(matches!(
        clipboard.send_bytes(9, b"abc".to_vec(), false),
        BytesAction::Dropped(DropReason::Blocking)
    ));
    for _ in 0..MAX_CLIPBOARD_TRANSFERS {
        assert!(matches!(
            clipboard.send_bytes(9, b"abc".to_vec(), true),
            BytesAction::ArmTimeout { .. }
        ));
    }
    assert!(matches!(
        clipboard.send_bytes(9, b"abc".to_vec(), true),
        BytesAction::Dropped(DropReason::QueueFull)
    ));
    assert_eq!(clipboard.sources.sources.len(), MAX_CLIPBOARD_TRANSFERS);
    assert_eq!(clipboard.sources.transfers.len(), MAX_CLIPBOARD_TRANSFERS);
}

#[test]
fn a_deferred_image_without_a_header_is_refused() {
    let mut clipboard = TestClipboard::with_nonce(NONCE);
    clipboard.begin_deferred(5);
    let refused = clipboard.fulfill_deferred(5, b"\x89PNG\r\n\x1a\ninvalid".to_vec());
    assert_eq!(refused.result, Err(DeferredClipboardImageError::InvalidPng));
    assert!(refused.jobs.is_empty());
    assert!(clipboard.sources.item(5).is_none());
}

#[test]
fn a_deferred_image_is_settled_once() {
    let mut clipboard = TestClipboard::with_nonce(NONCE);
    clipboard.begin_deferred(5);
    assert_eq!(clipboard.offered_mime_types(5), vec!["image/png"]);
    let queued = clipboard.send(5, "image/png", 9, true);
    assert!(matches!(queued, QueueAction::ArmTimeout { .. }));
    assert_eq!(clipboard.fail_deferred(5), Ok(vec![]));
    assert_eq!(clipboard.fail_deferred(5), Err(DeferredClipboardImageError::Retired));
    let late = clipboard.fulfill_deferred(5, vec![1]);
    assert_eq!(late.result, Err(DeferredClipboardImageError::Retired));
    assert!(clipboard.offered_mime_types(5).is_empty());
    assert!(clipboard.cancel_source(5).is_empty());
    assert!(clipboard.sources.sources.is_empty());
}
