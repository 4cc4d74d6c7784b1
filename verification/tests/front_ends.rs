use axdl::buffer::BufReader;
use axdl::error::Cause;
use axdl::file::{FileWrapper, LoadState, ReadAction, SeekFrom};
use axdl::gui::Window;
use axdl::progress::{cancellation, BarUpdate, CliProgress, Fraction, GuiProgress};
use axdl::transport::{DeviceWait, Transport, WaitAction, WaitError};
use axdl::{AxdlError, DownloadProgress};

#[test]
fn transport_is_read_from_its_name() {
    assert_eq!(Transport::from_str("usb"), Ok(Transport::Usb));
    assert_eq!("serial".parse::<Transport>(), Ok(Transport::Serial));
    assert_eq!(
        "USB".parse::<Transport>(),
        Err("Unknown transport method: USB".to_string())
    );
    assert_eq!(Transport::from_str(""), Err("Unknown transport method: ".to_string()));
    assert_eq!(Transport::default(), Transport::Usb);
}

#[test]
fn device_is_waited_for_as_asked() {
    let no = DeviceWait { wait: false, timeout_secs: Some(5) };
    assert_eq!(no.decide(false, 0, 0), WaitAction::Fail(WaitError::NotFound));
    assert_eq!(no.decide(true, 0, 0), WaitAction::Use);
    let forever = DeviceWait { wait: true, timeout_secs: None };
    assert_eq!(forever.decide(false, u64::MAX, 999_999_999), WaitAction::Retry { after_secs: 1 });
    let some = DeviceWait { wait: true, timeout_secs: Some(5) };
    assert_eq!(some.decide(false, 4, 999_999_999), WaitAction::Retry { after_secs: 1 });
    assert_eq!(some.decide(false, 5, 0), WaitAction::Retry { after_secs: 1 });
    assert_eq!(some.decide(false, 5, 1), WaitAction::Fail(WaitError::Timeout));
    assert_eq!(some.decide(false, 6, 0), WaitAction::Fail(WaitError::Timeout));
    assert_eq!(some.decide(true, 6, 0), WaitAction::Use);
    assert_eq!(WaitError::Timeout.message(), "Timeout waiting for the device");
    assert_eq!(WaitError::NotFound.message(), "Device not found");
    assert_eq!(some.choose_device(0), None);
    assert_eq!(some.choose_device(3), Some(0));
}

#[test]
fn waiting_is_announced() {
    let announce = |wait, timeout_secs| DeviceWait { wait, timeout_secs }.announce();
    assert_eq!(announce(false, Some(3)), None);
    assert_eq!(announce(true, None), Some("Waiting for the device to be ready".to_string()));
    assert_eq!(
        announce(true, Some(120)),
        Some("Waiting for the device to be ready (timeout=120s)".to_string())
    );
}

#[test]
fn terminal_has_one_progress_bar() {
    let mut progress = CliProgress::new();
    assert!(!progress.is_cancelled());
    assert!(progress.check_is_cancelled().is_ok());
    assert!(progress.take_update().is_none());
    progress.report_progress("a", None);
    assert!(matches!(progress.take_update(), Some(BarUpdate::Log { finish: false, text }) if text == "a"));
    let half = Fraction { part: 1, whole: 2 };
    progress.report_progress("b", Some(half));
    assert!(matches!(progress.take_update(), Some(BarUpdate::Move { create: true, to }) if to == half));
    progress.report_progress("b", Some(half));
    assert!(matches!(progress.take_update(), Some(BarUpdate::Move { create: false, .. })));
    assert_eq!(progress.last_description(), "b");
    progress.report_progress("c", None);
    assert!(matches!(progress.take_update(), Some(BarUpdate::Log { finish: true, .. })));
    assert!(progress.take_update().is_none());
    progress.report_progress("d", Some(half));
    assert!(matches!(progress.take_update(), Some(BarUpdate::Move { create: true, .. })));
}

#[test]
fn window_can_stop_a_download() {
    let mut progress = GuiProgress::new();
    assert!(progress.check_is_cancelled().is_ok());
    progress.set_cancelled(true);
    assert!(progress.is_cancelled());
    assert!(matches!(progress.check_is_cancelled(), Err(AxdlError::UserCancelled)));
    progress.report_progress("x", Some(Fraction { part: 3, whole: 4 }));
    assert_eq!(progress.description(), "x");
    assert_eq!(progress.progress(), Some(Fraction { part: 3, whole: 4 }));
    progress.set_cancelled(false);
    assert!(progress.check_is_cancelled().is_ok());
}

struct Stubborn(bool);

impl DownloadProgress for Stubborn {
    fn is_cancelled(&self) -> bool {
        self.0
    }
    fn report_progress(&mut self, _description: &str, _progress: Option<Fraction>) {}
}

#[test]
fn front_end_decides_about_stopping() {
    assert!(Stubborn(false).check_is_cancelled().is_ok());
    assert!(matches!(Stubborn(true).check_is_cancelled(), Err(AxdlError::UserCancelled)));
    assert!(cancellation(false).is_ok());
    assert!(matches!(cancellation(true), Err(AxdlError::UserCancelled)));
}

#[test]
fn pieces_of_a_file() {
    let mut file = FileWrapper::new();
    assert_eq!(file.read(10, 4), Some((0, 4)));
    assert_eq!(file.read(10, 0), None);
    assert_eq!(file.read(0, 4), None);
    assert_eq!(file.advance(4, 4), 4);
    assert_eq!(file.read(10, 4), Some((4, 8)));
    assert_eq!(file.advance(9, 4), 4);
    assert_eq!(file.read(10, 4), Some((8, 10)));
    assert_eq!(file.advance(2, 4), 2);
    assert_eq!(file.read(10, 4), None);
    assert_eq!(file.position(), 10);
}

#[test]
fn pieces_that_are_loaded() {
    let mut file = FileWrapper::new();
    assert_eq!(file.poll_read(10, 4, LoadState::Done), ReadAction::Load { from: 0, to: 4 });
    file.loading();
    assert_eq!(file.poll_read(10, 4, LoadState::Loading), ReadAction::Wait);
    assert_eq!(file.poll_read(10, 0, LoadState::Loading), ReadAction::Nothing);
    assert_eq!(file.poll_read(10, 4, LoadState::Done), ReadAction::Deliver);
    assert_eq!(file.deliver(4, 3), 3);
    assert_eq!(file.poll_read(10, 40, LoadState::Done), ReadAction::Load { from: 3, to: 10 });
    file.loading();
    assert_eq!(file.deliver(7, 40), 7);
    assert_eq!(file.poll_read(10, 40, LoadState::Done), ReadAction::Nothing);
}

#[test]
fn seeks_stay_in_the_file() {
    let mut file = FileWrapper::new();
    assert_eq!(file.poll_seek(10, SeekFrom::Start(4)), 4);
    assert_eq!(file.poll_seek(10, SeekFrom::Current(-3)), 1);
    assert_eq!(file.poll_seek(10, SeekFrom::Current(-3)), 0);
    assert_eq!(file.poll_seek(10, SeekFrom::Start(99)), 10);
    assert_eq!(file.poll_seek(10, SeekFrom::End(0)), 10);
    assert_eq!(file.poll_seek(10, SeekFrom::End(-4)), 6);
    assert_eq!(file.poll_seek(10, SeekFrom::End(i64::MIN)), 0);
    assert_eq!(file.poll_seek(u64::MAX, SeekFrom::End(i64::MAX)), u64::MAX);
    assert_eq!(file.position(), u64::MAX);
    assert_eq!(file.seek(10, SeekFrom::Start(4)), 4);
    assert_eq!(file.seek(10, SeekFrom::Start(10)), 9);
    assert_eq!(file.seek(10, SeekFrom::End(0)), 9);
    assert_eq!(file.seek(10, SeekFrom::End(-2)), 8);
    assert_eq!(file.seek(10, SeekFrom::Current(5)), 9);
    assert_eq!(file.seek(0, SeekFrom::Current(5)), 0);
}

#[test]
fn buffered_bytes_come_out_in_order() {
    let mut buffer = BufReader::new(8);
    let mut out = [9u8; 3];
    assert_eq!(buffer.poll_read(&mut out), None);
    assert_eq!(out, [9, 9, 9]);
    assert!(!buffer.poll_fill_buf());
    assert_eq!(buffer.memory(), &[0u8; 8]);
    buffer.memory()[..5].copy_from_slice(&[1, 2, 3, 4, 5]);
    buffer.filled(5);
    assert!(buffer.poll_fill_buf());
    assert_eq!(buffer.contents(), &[1, 2, 3, 4, 5]);
    buffer.consume(1);
    assert_eq!(buffer.contents(), &[2, 3, 4, 5]);
    assert_eq!(buffer.poll_read(&mut out), Some(3));
    assert_eq!(out, [2, 3, 4]);
    assert!(buffer.can_consume(usize::MAX - 4));
    assert!(!buffer.can_consume(usize::MAX - 3));
    assert_eq!(buffer.poll_read(&mut out), Some(1));
    assert_eq!(out, [5, 3, 4]);
    assert!(buffer.can_consume(usize::MAX));
    assert_eq!(buffer.poll_read(&mut out), None);
    assert!(!buffer.poll_fill_buf());
}

#[test]
fn seek_drops_the_buffered_bytes() {
    let mut buffer = BufReader::new(4);
    buffer.memory().copy_from_slice(&[1, 2, 3, 4]);
    buffer.filled(4);
    buffer.consume(4);
    assert!(!buffer.poll_fill_buf());
    buffer.filled(4);
    assert_eq!(buffer.contents().len(), 4);
    buffer.poll_seek();
    assert_eq!(buffer.contents().len(), 0);
    assert!(!buffer.poll_fill_buf());
}

#[test]
fn window_downloads_with_a_device_and_an_image() {
    let mut window = Window::new();
    assert!(window.download("a").is_none());
    window.open_device(Transport::Usb, true);
    assert!(window.device_opened());
    assert!(window.download("a").is_none());
    assert!(!window.downloading());
    window.open_image(Some("x.axp".to_string()));
    assert_eq!(window.image_file(), "x.axp");
    assert!(window.image_file_opened());
    window.open_device(Transport::Serial, false);
    assert!(!window.device_opened());
    let config = window.download("rootfs, boot").unwrap();
    assert_eq!(config.exclude_partitions, vec!["rootfs".to_string(), "boot".to_string()]);
    assert!(window.downloading());
    window.set_progress("working", Some(Fraction { part: 1, whole: 3 }));
    assert_eq!(window.description(), "working");
    assert_eq!(window.progress(), Some(Fraction { part: 1, whole: 3 }));
    window.finish(Some("DeviceTimeout".to_string()));
    assert!(!window.downloading());
    assert_eq!(window.description(), "Failed to download image file: DeviceTimeout");
    assert_eq!(window.progress(), None);
    assert!(window.download("").is_some());
    window.finish(None);
    assert_eq!(window.description(), "Done");
    window.open_image(None);
    assert_eq!(window.image_file(), "");
    assert!(!window.image_file_opened());
    assert!(window.download("").is_none());
}

#[test]
fn pieces_follow_one_another() {
    for size in [0u64, 1, 5, 9, 12] {
        for first in 0..8usize {
            for second in 0..8usize {
                let piece = |file: &FileWrapper, room: usize| match file.read(size, room) {
                    Some((from, to)) => (to - from) as usize,
                    None => 0,
                };
                let mut file = FileWrapper::new();
                let both = piece(&file, first + second);
                let one = piece(&file, first);
                file.advance(one, first);
                assert_eq!(one + piece(&file, second), both);
            }
        }
    }
}

#[test]
fn window_leaves_the_root_file_system_alone() {
    let mut window = Window::new();
    window.open_device(Transport::Usb, true);
    window.open_image(Some("x.axp".to_string()));
    assert!(!window.exclude_rootfs());
    assert!(!window.download("boot").unwrap().is_excluded("ROOTFS"));
    window.set_exclude_rootfs(true);
    assert!(window.exclude_rootfs());
    let config = window.download("boot").unwrap();
    assert_eq!(config.exclude_partitions, vec!["boot".to_string(), "ROOTFS".to_string()]);
    assert!(config.is_excluded("rootfs"));
    assert_eq!(window.download("").unwrap().exclude_partitions, vec!["ROOTFS".to_string()]);
    window.set_exclude_rootfs(false);
    assert!(window.download("").unwrap().exclude_partitions.is_empty());
}

#[test]
fn window_works_with_the_device_that_was_opened_last() {
    let mut window = Window::new();
    assert_eq!(window.device(), None);
    window.open_device(Transport::Serial, false);
    assert_eq!(window.device(), None);
    assert!(!window.device_opened());
    window.open_device(Transport::Usb, true);
    assert_eq!(window.device(), Some(Transport::Usb));
    window.open_device(Transport::Serial, true);
    assert_eq!(window.device(), Some(Transport::Serial));
    assert!(window.device_opened());
    window.open_device(Transport::Usb, false);
    assert_eq!(window.device(), Some(Transport::Serial));
    assert!(!window.device_opened());
    window.open_image(Some("x.axp".to_string()));
    assert!(window.download("").is_some());
    window.finish(None);
    assert_eq!(window.device(), Some(Transport::Serial));
}

#[test]
fn window_shows_the_debug_form_of_a_failure() {
    let mut window = Window::new();
    let cause = Cause { shown: "no end".to_string(), debug: "EndNotFound(4)".to_string() };
    window.download_ended(Err(AxdlError::ImageAsyncZipError(cause)));
    assert_eq!(
        window.description(),
        "Failed to download image file: ImageAsyncZipError(EndNotFound(4))"
    );
    window.download_ended(Err(AxdlError::ImageError("no \"x\"".to_string())));
    assert_eq!(
        window.description(),
        "Failed to download image file: ImageError(\"no \\\"x\\\"\")"
    );
    window.download_ended(Ok(()));
    assert_eq!(window.description(), "Done");
}
