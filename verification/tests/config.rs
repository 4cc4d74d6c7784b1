use axdl::config::DEFAULT_EXCLUDE;
use axdl::error::Cause;
use axdl::partition::{Block, Image, ImageType, Project};
use axdl::{AxdlError, DownloadConfig};

fn excluding(names: &[&str]) -> DownloadConfig {
    DownloadConfig { exclude_partitions: names.iter().map(|n| n.to_string()).collect() }
}

fn code(name: &str) -> Image {
    Image::new(name.to_string(), None, Block::Other, ImageType::Code)
}

#[test]
fn factory_is_always_excluded() {
    assert_eq!(DEFAULT_EXCLUDE, "factory");
    for config in [DownloadConfig::default(), excluding(&[]), excluding(&["ROOTFS"])] {
        for name in ["factory", "FACTORY", "Factory"] {
            assert!(config.is_excluded(name));
        }
        assert!(!config.is_excluded("factory2"));
        assert!(!config.is_excluded("boot"));
    }
}

#[test]
fn excluded_partitions_are_those_of_the_user() {
    let config = excluding(&["ROOTFS", "boot"]);
    assert!(config.is_excluded("ROOTFS"));
    assert!(config.is_excluded("rootfs"));
    assert!(config.is_excluded("BOOT"));
    assert!(!config.is_excluded("boot2"));
    assert!(!config.is_excluded(""));
    assert!(excluding(&["a", "ROOTFS", "boot"]).is_excluded("Boot"));
}

#[test]
fn default_excludes_nothing_of_the_user() {
    assert!(DownloadConfig::default().exclude_partitions.is_empty());
}

#[test]
fn comma_separated_exclusions() {
    let config = DownloadConfig::from_comma_list(" rootfs, ,Boot ");
    assert_eq!(config.exclude_partitions, vec!["rootfs".to_string(), "Boot".to_string()]);
    assert!(config.is_excluded("ROOTFS"));
}

#[test]
fn exclusions_are_logged_with_their_reason() {
    let images = vec![
        code("BOOT"),
        code("Factory"),
        Image::new("factory".to_string(), None, Block::Other, ImageType::Other),
        code("rootfs"),
        code("OPT"),
    ];
    assert_eq!(
        excluding(&["RootFS", "factory", "boot"]).log_exclusions(&images),
        vec![
            "Skipping partition: BOOT (excluded by user)".to_string(),
            "Skipping partition: Factory (excluded by default)".to_string(),
            "Skipping partition: rootfs (excluded by user)".to_string(),
        ]
    );
    assert!(DownloadConfig::default().log_exclusions(&vec![code("BOOT")]).is_empty());
}

#[test]
fn first_image_with_the_name_is_found() {
    let project = Project::new(
        vec![
            Image::new("A".to_string(), Some("1".to_string()), Block::Absolute(1), ImageType::Code),
            Image::new("B".to_string(), None, Block::Absolute(2), ImageType::Other),
            Image::new("A".to_string(), Some("3".to_string()), Block::Other, ImageType::Other),
        ],
        false,
    );
    assert_eq!(project.find("A").unwrap().file(), Some("1"));
    assert_eq!(project.find("B").unwrap().file(), None);
    assert!(matches!(project.find("B").unwrap().block(), Block::Absolute(2)));
    assert!(project.find("a").is_none());
    assert!(!project.is2_level_fdl());
    assert_eq!(project.images().len(), 3);
    assert_eq!(project.images()[1].name(), "B");
    assert_eq!(project.images()[0].image_type(), ImageType::Code);
}

#[test]
fn errors_are_shown_with_their_message() {
    let s = |t: &str| t.to_string();
    let c = |t: &str| Cause { shown: t.to_string(), debug: format!("Debug({})", t) };
    let cases = [
        (AxdlError::UsbError(c("Pipe error")), "USB error: Pipe error"),
        (AxdlError::SerialError(c("gone")), "Serial communication error: gone"),
        (AxdlError::WebUsbError(c("x")), "WebUSB error: x"),
        (AxdlError::WebSerialError(c("y")), "WebSerial error: Debug(y)"),
        (AxdlError::InvalidFrame, "Invalid frame received"),
        (AxdlError::HandshakeDecodeError(c("z")), "Failed to decode handshake: z"),
        (AxdlError::UnexpectedHandshake(s("fdl1")), "Unexpected handshake: fdl1"),
        (AxdlError::NoPayload, "Frame has no payload"),
        (AxdlError::UnexpectedResponse(0x5), "Unexpected response: 05"),
        (AxdlError::UnexpectedResponse(0xab), "Unexpected response: AB"),
        (AxdlError::UnexpectedResponse(0x1f0), "Unexpected response: 1F0"),
        (AxdlError::IoError(s("read"), c("eof")), "IO Error: read, eof"),
        (AxdlError::ImageZipError(c("bad")), "AXP image zip error: bad"),
        (AxdlError::ImageAsyncZipError(c("bad")), "AXP image zip error: bad"),
        (AxdlError::ImageError(s("FDL image not found")), "Image error: FDL image not found"),
        (AxdlError::DeviceNotFound, "Device not found"),
        (AxdlError::DeviceTimeout, "Device timeout"),
        (AxdlError::UserCancelled, "User cancelled the operation"),
        (AxdlError::Unsupported(s("this")), "Unsupported: this"),
    ];
    for (error, message) in cases {
        assert_eq!(error.message(), message);
    }
}

#[test]
fn more_exclusions_keep_the_others() {
    for names in [vec!["a"], vec!["a", "b"], vec!["b", "a"]] {
        assert!(excluding(&names).is_excluded("A"));
    }
}

#[test]
fn errors_have_the_debug_form_of_their_variant() {
    let s = |t: &str| t.to_string();
    let c = |t: &str| Cause { shown: t.to_string(), debug: format!("Debug({})", t) };
    let cases = [
        (AxdlError::UsbError(c("a")), s("UsbError(Debug(a))")),
        (AxdlError::SerialError(c("a")), s("SerialError(Debug(a))")),
        (AxdlError::WebUsbError(c("a")), s("WebUsbError(Debug(a))")),
        (AxdlError::WebSerialError(c("a")), s("WebSerialError(Debug(a))")),
        (AxdlError::HandshakeDecodeError(c("a")), s("HandshakeDecodeError(Debug(a))")),
        (AxdlError::ImageZipError(c("a")), s("ImageZipError(Debug(a))")),
        (AxdlError::ImageAsyncZipError(c("a")), s("ImageAsyncZipError(Debug(a))")),
        (AxdlError::IoError(s("re\tad"), c("a")), s("IoError(\"re\\tad\", Debug(a))")),
    ];
    for (error, text) in cases {
        assert_eq!(error.debug_text(), text);
    }
    // What holds nothing from elsewhere has the form that `derive` gives it.
    let derived = [
        AxdlError::InvalidFrame,
        AxdlError::UnexpectedHandshake(s("fdl\u{0}\u{301}\"'\\\n\u{e9}")),
        AxdlError::NoPayload,
        AxdlError::UnexpectedResponse(0),
        AxdlError::UnexpectedResponse(65535),
        AxdlError::ImageError(s("FDL image not found")),
        AxdlError::DeviceNotFound,
        AxdlError::DeviceTimeout,
        AxdlError::UserCancelled,
        AxdlError::Unsupported(s("")),
    ];
    for error in derived {
        assert_eq!(error.debug_text(), format!("{:?}", error));
    }
    assert_eq!(AxdlError::ImageError(s("x")).debug_with("<x>"), "ImageError(<x>)");
    assert_eq!(AxdlError::ImageError(s("x")).own_text(), "x");
    assert_eq!(AxdlError::NoPayload.own_text(), "");
}
