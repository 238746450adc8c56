use std::cell::RefCell;
use std::hash::BuildHasher;
use std::io::{Cursor, ErrorKind, Read, Write};
use std::rc::Rc;
use std::time::Duration;

use calloop::generic::Generic;
use calloop::timer::{TimeoutAction, Timer};
use calloop::{EventLoop, Interest, LoopHandle, Mode, PostAction, RegistrationToken};
use filedescriptor::{FileDescriptor, Pipe};
use uuid::Uuid;
use wayland_transfers::item::{ClipboardItem, Image, ImageFormat};
use wayland_transfers::offer::{DataOffer, ExternalSelection};
use wayland_transfers::sources::{ClipboardSources, DeferredClipboardImageError};
use wayland_transfers::store::MAX_SOURCE_TRANSFERS;
use wayland_transfers::transfers::{
    self, QueueAction, SendAction, WriteAction, WriteJob, WriteOutcome,
};

type Sources = Rc<RefCell<ClipboardSources<FileDescriptor, RegistrationToken>>>;

fn png_bytes(marker: u8) -> Vec<u8> {
    let image = image::RgbaImage::from_pixel(1, 1, image::Rgba([marker, 0, 0, 255]));
    let mut bytes = Cursor::new(Vec::new());
    image::DynamicImage::ImageRgba8(image)
        .write_to(&mut bytes, image::ImageFormat::Png)
        .expect("PNG encoding failed");
    bytes.into_inner()
}

fn png_item(bytes: &[u8]) -> ClipboardItem {
    ClipboardItem::new_image(&Image {
        format: ImageFormat::Png,
        bytes: bytes.to_vec(),
        id: rustc_hash::FxBuildHasher.hash_one(bytes),
    })
}

fn pipe_pair() -> (FileDescriptor, FileDescriptor) {
    let Pipe { read, write } = Pipe::new().expect("pipe creation failed");
    (read, write)
}

fn read_all(mut read: FileDescriptor) -> Vec<u8> {
    let mut bytes = Vec::new();
    read.read_to_end(&mut bytes).expect("pipe read failed");
    bytes
}

fn make_source_store() -> Sources {
    Rc::new(RefCell::new(ClipboardSources::new()))
}

fn new_source_id() -> u128 {
    Uuid::new_v4().as_u128()
}

fn insert_timeout(
    handle: &LoopHandle<'static, ()>,
    sources: &Sources,
    transfer_id: u128,
    timeout: Duration,
) -> Option<RegistrationToken> {
    let weak_sources = Rc::downgrade(sources);
    let weak_handle = handle.downgrade();
    handle
        .insert_source(Timer::from_duration(timeout), move |_, _, _| {
            if let Some(sources) = weak_sources.upgrade() {
                let token = sources.borrow_mut().finish_from_timeout(transfer_id);
                if let (Some(handle), Some(token)) = (weak_handle.upgrade(), token) {
                    handle.remove(token);
                }
            }
            TimeoutAction::Drop
        })
        .ok()
}

fn write_once(fd: &mut FileDescriptor, bytes: &[u8]) -> WriteOutcome {
    match fd.write(bytes) {
        Ok(count) => WriteOutcome::Wrote(count),
        Err(error) if error.kind() == ErrorKind::WouldBlock => WriteOutcome::WouldBlock,
        Err(error) if error.kind() == ErrorKind::Interrupted => WriteOutcome::Interrupted,
        Err(_) => WriteOutcome::Failed,
    }
}

fn insert_writer(
    handle: &LoopHandle<'static, ()>,
    sources: &Sources,
    job: WriteJob<FileDescriptor>,
) {
    let WriteJob { transfer_id, fd, mut outgoing } = job;
    let weak_sources = Rc::downgrade(sources);
    let weak_handle = handle.downgrade();
    let token = handle
        .insert_source(Generic::new(fd, Interest::WRITE, Mode::Level), move |_, fd, _| {
            let mut fd = fd.try_clone().expect("descriptor duplication failed");
            let action = loop {
                let outcome = write_once(&mut fd, outgoing.remaining());
                match outgoing.on_write(outcome) {
                    WriteAction::Retry => {}
                    action => break action,
                }
            };
            if action == WriteAction::Wait {
                return Ok(PostAction::Continue);
            }
            if let Some(sources) = weak_sources.upgrade() {
                let token = sources.borrow_mut().finish_from_write(transfer_id);
                if let (Some(handle), Some(token)) = (weak_handle.upgrade(), token) {
                    handle.remove(token);
                }
            }
            Ok(PostAction::Remove)
        })
        .ok();
    let unused = transfers::writer_inserted(&mut sources.borrow_mut(), transfer_id, token);
    if let Some(token) = unused {
        handle.remove(token);
    }
}

fn queue_source_send(
    handle: &LoopHandle<'static, ()>,
    sources: &Sources,
    source_id: u128,
    mime_type: &str,
    mut fd: FileDescriptor,
    timeout: Duration,
) {
    let nonblocking = fd.set_non_blocking(true).is_ok();
    let action = transfers::queue_source_send(
        &mut sources.borrow_mut(),
        source_id,
        mime_type,
        fd,
        nonblocking,
    );
    if let QueueAction::ArmTimeout { transfer_id, data } = action {
        let token = insert_timeout(handle, sources, transfer_id, timeout);
        let action = transfers::queued_timeout_inserted(
            &mut sources.borrow_mut(),
            transfer_id,
            data,
            token,
        );
        match action {
            SendAction::Nothing => {}
            SendAction::RemoveToken(token) => handle.remove(token),
            SendAction::Write(job) => insert_writer(handle, sources, job),
        }
    }
}

fn fulfill_source(
    handle: &LoopHandle<'static, ()>,
    sources: &Sources,
    source_id: u128,
    png_bytes: Vec<u8>,
) -> Result<(), DeferredClipboardImageError> {
    let fulfillment =
        transfers::fulfill_source(&mut sources.borrow_mut(), source_id, png_bytes);
    for token in fulfillment.tokens {
        handle.remove(token);
    }
    for job in fulfillment.jobs {
        insert_writer(handle, sources, job);
    }
    fulfillment.result
}

fn fail_source(
    handle: &LoopHandle<'static, ()>,
    sources: &Sources,
    source_id: u128,
) -> Result<(), DeferredClipboardImageError> {
    let tokens = transfers::fail_source(&mut sources.borrow_mut(), source_id)?;
    for token in tokens {
        handle.remove(token);
    }
    Ok(())
}

fn cancel_source(handle: &LoopHandle<'static, ()>, sources: &Sources, source_id: u128) {
    let tokens = transfers::cancel_source(&mut sources.borrow_mut(), source_id);
    for token in tokens {
        handle.remove(token);
    }
}

#[test]
fn ordinary_png_source_sends_externally_consumable_bytes() {
    let mut event_loop = EventLoop::<()>::try_new().expect("event loop creation failed");
    let sources = make_source_store();
    let source_id = new_source_id();
    let bytes = png_bytes(1);
    sources.borrow_mut().insert_ready(source_id, png_item(&bytes), false);
    assert_eq!(
        sources.borrow().offered_mime_types(source_id),
        vec!["image/png"]
    );

    let (read, write_fd) = pipe_pair();
    queue_source_send(
        &event_loop.handle(),
        &sources,
        source_id,
        "image/png",
        write_fd,
        Duration::from_secs(1),
    );
    event_loop
        .dispatch(Duration::ZERO, &mut ())
        .expect("event loop dispatch failed");

    assert_eq!(read_all(read), bytes);
    assert!(sources.borrow().item(source_id).is_some());
    cancel_source(&event_loop.handle(), &sources, source_id);
    assert!(sources.borrow().item(source_id).is_none());
}

#[test]
fn pending_send_waits_for_fulfillment_of_its_source() {
    let mut event_loop = EventLoop::<()>::try_new().expect("event loop creation failed");
    let sources = make_source_store();
    let source_id = new_source_id();
    sources.borrow_mut().insert_pending(source_id);
    let bytes = png_bytes(2);

    let (mut read, write_fd) = pipe_pair();
    read.set_non_blocking(true)
        .expect("failed to make read pipe nonblocking");
    queue_source_send(
        &event_loop.handle(),
        &sources,
        source_id,
        "image/png",
        write_fd,
        Duration::from_secs(1),
    );
    let mut buffer = [0; 1];
    let error = read.read(&mut buffer).expect_err("pending pipe was ready");
    assert_eq!(error.kind(), ErrorKind::WouldBlock);

    fulfill_source(&event_loop.handle(), &sources, source_id, bytes.clone())
        .expect("source fulfillment failed");
    event_loop
        .dispatch(Duration::ZERO, &mut ())
        .expect("event loop dispatch failed");
    assert_eq!(read_all(read), bytes);
}

#[test]
fn pending_send_times_out_and_closes_its_fd() {
    let mut event_loop = EventLoop::<()>::try_new().expect("event loop creation failed");
    let sources = make_source_store();
    let source_id = new_source_id();
    sources.borrow_mut().insert_pending(source_id);
    let (read, write_fd) = pipe_pair();
    queue_source_send(
        &event_loop.handle(),
        &sources,
        source_id,
        "image/png",
        write_fd,
        Duration::from_millis(5),
    );
    event_loop
        .dispatch(Duration::from_millis(50), &mut ())
        .expect("event loop dispatch failed");

    assert!(read_all(read).is_empty());
    assert!(sources.borrow().transfers.is_empty());
}

#[test]
fn failure_and_cancellation_close_pending_fds_and_retire_work() {
    let event_loop = EventLoop::<()>::try_new().expect("event loop creation failed");
    let sources = make_source_store();

    let failed_source = new_source_id();
    sources.borrow_mut().insert_pending(failed_source);
    let (failed_read, failed_write_fd) = pipe_pair();
    queue_source_send(
        &event_loop.handle(),
        &sources,
        failed_source,
        "image/png",
        failed_write_fd,
        Duration::from_secs(1),
    );
    fail_source(&event_loop.handle(), &sources, failed_source).expect("source failure failed");
    assert!(read_all(failed_read).is_empty());
    assert_eq!(
        fulfill_source(&event_loop.handle(), &sources, failed_source, png_bytes(3)),
        Err(DeferredClipboardImageError::Retired)
    );

    let cancelled_source = new_source_id();
    sources.borrow_mut().insert_pending(cancelled_source);
    let (cancelled_read, cancelled_write_fd) = pipe_pair();
    queue_source_send(
        &event_loop.handle(),
        &sources,
        cancelled_source,
        "image/png",
        cancelled_write_fd,
        Duration::from_secs(1),
    );
    cancel_source(&event_loop.handle(), &sources, cancelled_source);
    assert!(read_all(cancelled_read).is_empty());
    assert_eq!(
        fulfill_source(
            &event_loop.handle(),
            &sources,
            cancelled_source,
            png_bytes(4)
        ),
        Err(DeferredClipboardImageError::Retired)
    );
}

#[test]
fn invalid_png_fails_the_source_and_closes_pending_fds() {
    let event_loop = EventLoop::<()>::try_new().expect("event loop creation failed");
    let sources = make_source_store();
    let source_id = new_source_id();
    sources.borrow_mut().insert_pending(source_id);
    let (read, write_fd) = pipe_pair();
    queue_source_send(
        &event_loop.handle(),
        &sources,
        source_id,
        "image/png",
        write_fd,
        Duration::from_secs(1),
    );

    let result = fulfill_source(
        &event_loop.handle(),
        &sources,
        source_id,
        b"\x89PNG\r\n\x1a\ninvalid".to_vec(),
    );

    assert_eq!(result, Err(DeferredClipboardImageError::InvalidPng));
    assert!(read_all(read).is_empty());
    assert!(sources.borrow().item(source_id).is_none());
    assert!(sources.borrow().transfers.is_empty());
}

#[test]
fn cancellation_closes_an_active_bounded_send() {
    let mut event_loop = EventLoop::<()>::try_new().expect("event loop creation failed");
    let sources = make_source_store();
    let source_id = new_source_id();
    let bytes = vec![7; 1024 * 1024];
    sources.borrow_mut().insert_ready(source_id, png_item(&bytes), false);
    let (read, write_fd) = pipe_pair();
    queue_source_send(
        &event_loop.handle(),
        &sources,
        source_id,
        "image/png",
        write_fd,
        Duration::from_secs(1),
    );
    event_loop
        .dispatch(Duration::ZERO, &mut ())
        .expect("event loop dispatch failed");
    assert_eq!(sources.borrow().transfers.len(), 1);

    cancel_source(&event_loop.handle(), &sources, source_id);

    let sent = read_all(read);
    assert!(sent.len() < bytes.len());
    assert!(sources.borrow().transfers.is_empty());
    assert!(sources.borrow().item(source_id).is_none());
}

#[test]
fn reversed_fulfillment_keeps_each_source_data_independent() {
    let mut event_loop = EventLoop::<()>::try_new().expect("event loop creation failed");
    let sources = make_source_store();
    let source_a = new_source_id();
    let source_b = new_source_id();
    sources.borrow_mut().insert_pending(source_a);
    sources.borrow_mut().insert_pending(source_b);

    let (read_a, write_a) = pipe_pair();
    queue_source_send(
        &event_loop.handle(),
        &sources,
        source_a,
        "image/png",
        write_a,
        Duration::from_secs(1),
    );
    let (read_b, write_b) = pipe_pair();
    queue_source_send(
        &event_loop.handle(),
        &sources,
        source_b,
        "image/png",
        write_b,
        Duration::from_secs(1),
    );

    let bytes_a = png_bytes(10);
    let bytes_b = png_bytes(20);
    fulfill_source(&event_loop.handle(), &sources, source_b, bytes_b.clone())
        .expect("source B fulfillment failed");
    fulfill_source(&event_loop.handle(), &sources, source_a, bytes_a.clone())
        .expect("source A fulfillment failed");
    event_loop
        .dispatch(Duration::ZERO, &mut ())
        .expect("event loop dispatch failed");

    assert_eq!(read_all(read_a), bytes_a);
    assert_eq!(read_all(read_b), bytes_b);
}

#[derive(Clone, Debug, Eq, PartialEq)]
struct FakeOffer(u8);

fn fake_offer(id: u8) -> DataOffer<FakeOffer> {
    let mut offer = DataOffer::new(FakeOffer(id));
    offer.add_mime_type("image/png".to_string());
    offer
}

#[test]
fn equal_and_aba_external_offers_always_replace_the_previous_offer() {
    let mut selection = ExternalSelection::new();
    selection.cached_read = Some(ClipboardItem::new_string("cached".to_string()));
    selection.set_offer(Some(fake_offer(1)));
    assert!(selection.cached_read.is_none());
    assert_eq!(
        selection.current_offer.as_ref().map(|offer| &offer.inner),
        Some(&FakeOffer(1))
    );

    selection.cached_read = Some(ClipboardItem::new_string("same payload".to_string()));
    selection.set_offer(Some(fake_offer(2)));
    assert!(selection.cached_read.is_none());
    assert_eq!(
        selection.current_offer.as_ref().map(|offer| &offer.inner),
        Some(&FakeOffer(2))
    );

    selection.set_offer(Some(fake_offer(1)));
    assert_eq!(
        selection.current_offer.as_ref().map(|offer| &offer.inner),
        Some(&FakeOffer(1))
    );
}

#[test]
fn late_old_fulfillment_does_not_mutate_a_newer_external_offer() {
    let event_loop = EventLoop::<()>::try_new().expect("event loop creation failed");
    let sources = make_source_store();
    let old_source = new_source_id();
    sources.borrow_mut().insert_pending(old_source);
    let mut selection = ExternalSelection::new();
    selection.set_offer(Some(fake_offer(9)));

    fulfill_source(&event_loop.handle(), &sources, old_source, png_bytes(30))
        .expect("old source fulfillment failed");

    assert_eq!(
        selection.current_offer.as_ref().map(|offer| &offer.inner),
        Some(&FakeOffer(9))
    );
    assert!(sources.borrow().item(old_source).is_some());
}

#[test]
fn pending_transfer_queue_is_bounded_per_source() {
    let event_loop = EventLoop::<()>::try_new().expect("event loop creation failed");
    let sources = make_source_store();
    let source_id = new_source_id();
    sources.borrow_mut().insert_pending(source_id);
    let mut readers = Vec::new();

    for _ in 0..MAX_SOURCE_TRANSFERS {
        let (read, write_fd) = pipe_pair();
        queue_source_send(
            &event_loop.handle(),
            &sources,
            source_id,
            "image/png",
            write_fd,
            Duration::from_secs(1),
        );
        readers.push(read);
    }
    let (rejected_read, rejected_write_fd) = pipe_pair();
    queue_source_send(
        &event_loop.handle(),
        &sources,
        source_id,
        "image/png",
        rejected_write_fd,
        Duration::from_secs(1),
    );

    assert!(read_all(rejected_read).is_empty());
    assert_eq!(sources.borrow().transfers.len(), MAX_SOURCE_TRANSFERS);
    cancel_source(&event_loop.handle(), &sources, source_id);
    for reader in readers {
        assert!(read_all(reader).is_empty());
    }
}

#[test]
fn a_large_send_reaches_its_reader_whole() {
    let mut event_loop = EventLoop::<()>::try_new().expect("event loop creation failed");
    let sources = make_source_store();
    let source_id = new_source_id();
    let bytes: Vec<u8> = (0..300_000u32).map(|i| (i % 251) as u8).collect();
    sources.borrow_mut().insert_ready(source_id, png_item(&bytes), false);
    let (mut read, write_fd) = pipe_pair();
    read.set_non_blocking(true).expect("failed to make read pipe nonblocking");
    queue_source_send(
        &event_loop.handle(),
        &sources,
        source_id,
        "image/png",
        write_fd,
        Duration::from_secs(10),
    );
    let mut received = Vec::new();
    let mut buffer = vec![0u8; 65536];
    for _ in 0..100 {
        event_loop
            .dispatch(Duration::ZERO, &mut ())
            .expect("event loop dispatch failed");
        match read.read(&mut buffer) {
            Ok(0) => break,
            Ok(count) => received.extend_from_slice(&buffer[..count]),
            Err(error) => assert_eq!(error.kind(), ErrorKind::WouldBlock),
        }
    }
    assert_eq!(received, bytes);
    assert!(sources.borrow().transfers.is_empty());
    assert!(sources.borrow().item(source_id).is_some());
}

#[test]
fn a_reader_that_goes_away_ends_its_transfer() {
    let mut event_loop = EventLoop::<()>::try_new().expect("event loop creation failed");
    let sources = make_source_store();
    let source_id = new_source_id();
    sources.borrow_mut().insert_ready(source_id, png_item(&[1, 2, 3]), false);
    let (read, write_fd) = pipe_pair();
    queue_source_send(
        &event_loop.handle(),
        &sources,
        source_id,
        "image/png",
        write_fd,
        Duration::from_secs(10),
    );
    drop(read);
    event_loop
        .dispatch(Duration::ZERO, &mut ())
        .expect("event loop dispatch failed");
    assert!(sources.borrow().transfers.is_empty());
}
