use axdl::download::{Action, Download, Event};
use axdl::error::Cause;
use axdl::gui::Window;
use axdl::partition::{Block, Image, ImageType, Project};
use axdl::transport::Transport;
use axdl::{download_image, download_image_async, AxdlError, DownloadConfig};
use std::io::{Read, Write};

/// An archive, a device and a user for a download to talk to.
struct World {
    entries: Vec<(Option<&'static str>, u64, &'static str)>,
    project: Option<Project>,
    counted: bool,
    cancel_at: Option<usize>,
    fail_at: Option<&'static str>,
    asked: usize,
    trace: Vec<String>,
}

impl World {
    fn new(project: Project) -> Self {
        World {
            entries: vec![
                (Some("readme.txt"), 3, "abc"),
                (Some("AX.xml"), 9, "<Config/>"),
                (Some("second.xml"), 1, "x"),
                (Some("fdl.bin"), 77, ""),
                (Some("fdl1.bin"), 100, ""),
                (Some("fdl2.bin"), 0x1_0000_0002, ""),
                (Some("boot.bin"), 5000, ""),
                (Some("root.bin"), 0x2_0000_0000, ""),
                (Some("factory.bin"), 8, ""),
            ],
            project: Some(project),
            counted: true,
            cancel_at: None,
            fail_at: None,
            asked: 0,
            trace: Vec::new(),
        }
    }

    fn perform(&mut self, action: Action) -> Result<Event, Result<(), AxdlError>> {
        let shown = format!("{:?}", action);
        let failed = match self.fail_at {
            Some(text) => shown.starts_with(text),
            None => false,
        };
        self.trace.push(shown);
        Ok(match action {
            Action::OpenArchive => {
                if failed {
                    Event::Refused(refusal("not a zip file"))
                } else {
                    let entries = if self.counted { Some(self.entries.len()) } else { None };
                    Event::ArchiveOpened { entries }
                }
            }
            Action::InspectEntry(index) => {
                if failed {
                    Event::Refused(refusal("bad header"))
                } else if index < self.entries.len() {
                    let entry = &self.entries[index];
                    Event::Entry { name: entry.0.map(|n| n.to_string()), size: entry.1 }
                } else {
                    Event::NoSuchEntry
                }
            }
            Action::ReadEntry(index) => {
                if failed {
                    Event::Refused(refusal("not UTF-8"))
                } else {
                    Event::Text(self.entries[index].2.to_string())
                }
            }
            Action::ParseConfig(_) => {
                if failed {
                    Event::Refused(refusal("no root element"))
                } else {
                    Event::Parsed(self.project.take().unwrap())
                }
            }
            Action::OpenEntry(name) => {
                match self.entries.iter().find(|e| e.0 == Some(name.as_str())) {
                    Some(entry) => Event::EntryOpened { size: entry.1 },
                    None => Event::Refused(refusal("specified file not found in archive")),
                }
            }
            Action::CheckCancelled => {
                self.asked += 1;
                Event::Cancelled(Some(self.asked) == self.cancel_at)
            }
            Action::Finished(result) => {
                self.trace.pop();
                return Err(result);
            }
            Action::Report(_) | Action::Log(_) => Event::Done,
            _ => {
                if failed {
                    Event::Failed(AxdlError::UnexpectedResponse(0x81))
                } else {
                    Event::Done
                }
            }
        })
    }

    fn run(&mut self, started: (Download, Action)) -> Result<(), AxdlError> {
        let (mut download, mut action) = started;
        loop {
            match self.perform(action) {
                Ok(event) => {
                    assert!(!download.ended());
                    assert!(download.accepts(&event));
                    action = download.advance(event);
                }
                Err(result) => {
                    assert!(!download.accepts(&Event::Done));
                    return result;
                }
            }
        }
    }

    /// What was asked for after the project was known, without the reports.
    fn device_trace(&self) -> Vec<&str> {
        let from = self.trace.iter().position(|t| t.starts_with("ParseConfig")).unwrap() + 1;
        self.trace[from..]
            .iter()
            .map(|t| t.as_str())
            .filter(|t| !t.starts_with("Report"))
            .collect()
    }
}

fn refusal(shown: &str) -> Cause {
    Cause { shown: shown.to_string(), debug: format!("Refusal({})", shown.len()) }
}

fn image(name: &str, file: Option<&str>, block: Block, image_type: ImageType) -> Image {
    Image::new(name.to_string(), file.map(|f| f.to_string()), block, image_type)
}

fn partition(name: &str, file: &str) -> Image {
    image(name, Some(file), Block::Partition(name.to_lowercase()), ImageType::Code)
}

fn fdls() -> Vec<Image> {
    vec![
        image("INIT", None, Block::Other, ImageType::Other),
        image("FDL", Some("fdl.bin"), Block::Absolute(0x300_0000), ImageType::Other),
        image("FDL1", Some("fdl1.bin"), Block::Absolute(0x9_0300_0000), ImageType::Other),
        image("FDL2", Some("fdl2.bin"), Block::Absolute(0x1_5c00_0000), ImageType::Other),
    ]
}

fn project(two_level: bool) -> Project {
    let mut images = fdls();
    images.push(partition("BOOT", "boot.bin"));
    images.push(partition("Factory", "factory.bin"));
    images.push(partition("ROOTFS", "root.bin"));
    Project::new(images, two_level)
}

fn with_images(images: Vec<Image>) -> Project {
    let mut all = fdls();
    all.extend(images);
    Project::new(all, true)
}

fn excluding(names: &[&str]) -> DownloadConfig {
    DownloadConfig { exclude_partitions: names.iter().map(|n| n.to_string()).collect() }
}

fn image_error(result: Result<(), AxdlError>) -> String {
    match result {
        Err(AxdlError::ImageError(message)) => message,
        other => panic!("{:?}", other),
    }
}

#[test]
fn blocking_download_with_two_stages() {
    let mut world = World::new(project(true));
    let result = world.run(download_image(DownloadConfig::default()));
    assert!(result.is_ok());
    let reports: Vec<&String> = world.trace.iter().filter(|t| t.starts_with("Report")).collect();
    assert_eq!(
        reports,
        vec![
            "Report(\"Loading the AXP image configuration\")",
            "Report(\"Start download\")",
            "Report(\"Handshaking with the device\")",
            "Report(\"Downloading the flash downloaders\")",
            "Report(\"Downloading the partition table\")",
            "Report(\"Downloading image BOOT\")",
            "Report(\"Downloading image ROOTFS\")",
        ]
    );
    assert_eq!(
        &world.trace[..6],
        &[
            "OpenArchive",
            "Report(\"Loading the AXP image configuration\")",
            "InspectEntry(0)",
            "InspectEntry(1)",
            "ReadEntry(1)",
            "ParseConfig(\"<Config/>\")",
        ]
    );
    assert_eq!(
        world.device_trace(),
        vec![
            "Handshake(\"romcode\")",
            "OpenEntry(\"fdl1.bin\")",
            "StartRamDownload",
            "StartPartitionAbsolute32 { address: 50331648, size: 100 }",
            "WriteImage { name: \"FDL1\", chunk_size: 1000, size: 100, report_every: Some(100) }",
            "EndPartition { timeout_secs: None }",
            "EndRamDownload",
            "Handshake(\"fdl1\")",
            "OpenEntry(\"fdl2.bin\")",
            "StartRamDownload",
            "StartPartitionAbsolute { address: 5838471168, size: 4294967298 }",
            "WriteImage { name: \"FDL2\", chunk_size: 1000, size: 4294967298, report_every: Some(100) }",
            "EndPartition { timeout_secs: None }",
            "EndRamDownload",
            "SetPartitionTable",
            "Log(\"Skipping partition: Factory (excluded by default)\")",
            "CheckCancelled",
            "OpenEntry(\"boot.bin\")",
            "StartPartitionId { id: \"boot\", size: 5000 }",
            "WriteImage { name: \"BOOT\", chunk_size: 48000, size: 5000, report_every: Some(100) }",
            "EndPartition { timeout_secs: Some(60) }",
            "CheckCancelled",
            "OpenEntry(\"root.bin\")",
            "StartPartitionId { id: \"rootfs\", size: 8589934592 }",
            "WriteImage { name: \"ROOTFS\", chunk_size: 48000, size: 8589934592, report_every: Some(100) }",
            "EndPartition { timeout_secs: Some(60) }",
        ]
    );
}

#[test]
fn blocking_download_with_one_stage() {
    let mut world = World::new(project(false));
    assert!(world.run(download_image(excluding(&["boot", "rootfs"]))).is_ok());
    assert_eq!(
        world.device_trace(),
        vec![
            "Handshake(\"romcode\")",
            "OpenEntry(\"fdl.bin\")",
            "StartRamDownload",
            "StartPartitionAbsolute32 { address: 50331648, size: 77 }",
            "WriteImage { name: \"FDL\", chunk_size: 1000, size: 77, report_every: Some(100) }",
            "EndPartition { timeout_secs: None }",
            "EndRamDownload",
            "Handshake(\"fdl2\")",
            "SetPartitionTable",
            "Log(\"Skipping partition: BOOT (excluded by user)\")",
            "Log(\"Skipping partition: Factory (excluded by default)\")",
            "Log(\"Skipping partition: ROOTFS (excluded by user)\")",
        ]
    );
}

#[test]
fn async_download_has_two_stages_and_searches() {
    let mut world = World::new(project(false));
    world.counted = false;
    assert!(world.run(download_image_async(excluding(&["ROOTFS"]))).is_ok());
    assert_eq!(
        world.device_trace(),
        vec![
            "Handshake(\"romcode\")",
            "StartRamDownload",
            "InspectEntry(0)",
            "InspectEntry(1)",
            "InspectEntry(2)",
            "InspectEntry(3)",
            "InspectEntry(4)",
            "StartPartitionAbsolute32 { address: 50331648, size: 100 }",
            "WriteImage { name: \"FDL1\", chunk_size: 1000, size: 100, report_every: Some(100) }",
            "EndPartition { timeout_secs: None }",
            "EndRamDownload",
            "Handshake(\"fdl1\")",
            "StartRamDownload",
            "InspectEntry(0)",
            "InspectEntry(1)",
            "InspectEntry(2)",
            "InspectEntry(3)",
            "InspectEntry(4)",
            "InspectEntry(5)",
            "StartPartitionAbsolute { address: 5838471168, size: 4294967298 }",
            "WriteImage { name: \"FDL2\", chunk_size: 1000, size: 4294967298, report_every: Some(100) }",
            "EndPartition { timeout_secs: None }",
            "EndRamDownload",
            "SetPartitionTable",
            "Log(\"Skipping partition: Factory (excluded by default)\")",
            "Log(\"Skipping partition: ROOTFS (excluded by user)\")",
            "CheckCancelled",
            "InspectEntry(0)",
            "InspectEntry(1)",
            "InspectEntry(2)",
            "InspectEntry(3)",
            "InspectEntry(4)",
            "InspectEntry(5)",
            "InspectEntry(6)",
            "StartPartitionId { id: \"boot\", size: 5000 }",
            "WriteImage { name: \"BOOT\", chunk_size: 48000, size: 5000, report_every: Some(100) }",
            "EndPartition { timeout_secs: None }",
        ]
    );
}

#[test]
fn size_for_the_boot_rom_is_cut_to_32_bits() {
    let mut images = fdls();
    images[2] = image("FDL1", Some("fdl2.bin"), Block::Absolute(u64::MAX), ImageType::Other);
    let mut world = World::new(Project::new(images, true));
    assert!(world.run(download_image(DownloadConfig::default())).is_ok());
    let expected = format!("StartPartitionAbsolute32 {{ address: {}, size: 2 }}", u32::MAX);
    assert!(world.trace.contains(&expected));
}

#[test]
fn archive_that_cannot_be_opened() {
    for counted in [true, false] {
        let mut world = World::new(project(true));
        world.counted = counted;
        world.fail_at = Some("OpenArchive");
        let config = DownloadConfig::default();
        let started = if counted { download_image(config) } else { download_image_async(config) };
        let error = world.run(started).unwrap_err();
        assert_eq!(error.message(), "AXP image zip error: not a zip file");
        assert_eq!(matches!(error, AxdlError::ImageZipError(_)), counted);
        assert_eq!(matches!(error, AxdlError::ImageAsyncZipError(_)), !counted);
        assert_eq!(world.trace, vec!["OpenArchive"]);
    }
}

#[test]
fn entry_that_cannot_be_inspected() {
    for counted in [true, false] {
        let mut world = World::new(project(true));
        world.counted = counted;
        world.fail_at = Some("InspectEntry(1)");
        let config = DownloadConfig::default();
        let started = if counted { download_image(config) } else { download_image_async(config) };
        let error = world.run(started).unwrap_err();
        assert_eq!(matches!(error, AxdlError::ImageZipError(_)), counted);
        assert_eq!(matches!(error, AxdlError::ImageAsyncZipError(_)), !counted);
        assert_eq!(error.message(), "AXP image zip error: bad header");
        assert!(error.debug_text().ends_with("ZipError(Refusal(10))"));
    }
}

#[test]
fn image_without_a_description() {
    for counted in [true, false] {
        for entries in [vec![], vec![(Some("a.bin"), 1, ""), (None, 2, ""), (Some("b.XML"), 3, "")]]
        {
            let mut world = World::new(project(true));
            world.counted = counted;
            world.entries = entries;
            let config = DownloadConfig::default();
            let started =
                if counted { download_image(config) } else { download_image_async(config) };
            let message = image_error(world.run(started));
            assert_eq!(message, "configuration file not found in the image");
        }
    }
}

#[test]
fn description_that_cannot_be_read() {
    let mut world = World::new(project(true));
    world.fail_at = Some("ReadEntry");
    let message = image_error(world.run(download_image(DownloadConfig::default())));
    assert_eq!(message, "failed to read configuration file: not UTF-8");

    let mut world = World::new(project(true));
    world.counted = false;
    world.fail_at = Some("ReadEntry");
    let error = world.run(download_image_async(DownloadConfig::default())).unwrap_err();
    assert!(matches!(error, AxdlError::ImageAsyncZipError(_)));
}

#[test]
fn description_that_cannot_be_parsed() {
    for counted in [true, false] {
        let mut world = World::new(project(true));
        world.counted = counted;
        world.fail_at = Some("ParseConfig");
        let config = DownloadConfig::default();
        let started = if counted { download_image(config) } else { download_image_async(config) };
        let message = image_error(world.run(started));
        assert_eq!(message, "failed to parse the configuration file: no root element");
    }
}

#[test]
fn flash_downloader_that_is_missing() {
    let cases = [
        (image("X", Some("fdl1.bin"), Block::Absolute(1), ImageType::Other), "FDL1 image not found"),
        (
            image("FDL1", None, Block::Absolute(1), ImageType::Other),
            "FDL1 image file not specified in the project",
        ),
        (
            image("FDL1", Some("gone.bin"), Block::Other, ImageType::Other),
            "FDL1 image was not found in the image file: specified file not found in archive",
        ),
        (
            image("FDL1", Some("fdl1.bin"), Block::Partition("a".to_string()), ImageType::Other),
            "FDL1 block is not absolute",
        ),
    ];
    for (first, expected) in cases {
        let mut world = World::new(Project::new(vec![first], true));
        let message = image_error(world.run(download_image(DownloadConfig::default())));
        assert_eq!(message, expected);
        assert!(!world.trace.contains(&"StartRamDownload".to_string()));
        assert!(world.trace.contains(&"Handshake(\"romcode\")".to_string()));
    }
    let mut world = World::new(Project::new(vec![], false));
    let message = image_error(world.run(download_image(DownloadConfig::default())));
    assert_eq!(message, "FDL image not found");
}

#[test]
fn async_looks_at_the_address_before_the_archive() {
    let gone = image("FDL1", Some("gone.bin"), Block::Other, ImageType::Other);
    let mut world = World::new(Project::new(vec![gone], true));
    world.counted = false;
    let message = image_error(world.run(download_image_async(DownloadConfig::default())));
    assert_eq!(message, "FDL1 block is not absolute");

    let gone = image("FDL1", Some("gone.bin"), Block::Absolute(1), ImageType::Other);
    let mut world = World::new(Project::new(vec![gone], true));
    world.counted = false;
    let message = image_error(world.run(download_image_async(DownloadConfig::default())));
    assert_eq!(message, "image was not found in the image file: gone.bin");
    assert!(world.trace.contains(&"StartRamDownload".to_string()));
}

#[test]
fn search_that_meets_a_broken_entry() {
    let mut world = World::new(project(true));
    world.counted = false;
    world.fail_at = Some("InspectEntry(4)");
    let error = world.run(download_image_async(DownloadConfig::default())).unwrap_err();
    assert!(matches!(error, AxdlError::ImageAsyncZipError(_)));
}

#[test]
fn second_stage_that_is_missing_is_noticed_after_the_first() {
    let mut images = fdls();
    images.pop();
    let mut world = World::new(Project::new(images, true));
    let message = image_error(world.run(download_image(DownloadConfig::default())));
    assert_eq!(message, "FDL2 image not found");
    assert_eq!(world.device_trace().last(), Some(&"Handshake(\"fdl1\")"));
}

#[test]
fn partition_image_that_is_missing() {
    let to = || Block::Partition("p".to_string());
    let cases = [
        (
            image("P", None, to(), ImageType::Code),
            "image P file not specified in the project",
            "image P file not specified in the project",
        ),
        (
            image("P", Some("gone.bin"), to(), ImageType::Code),
            "image P was not found in the archive: specified file not found in archive",
            "image was not found in the image file: gone.bin",
        ),
        (
            image("P", Some("boot.bin"), Block::Absolute(4), ImageType::Code),
            "image P block is not partition",
            "image P block is not partition",
        ),
        (
            image("P", Some("gone.bin"), Block::Other, ImageType::Code),
            "image P was not found in the archive: specified file not found in archive",
            "image P block is not partition",
        ),
    ];
    for (broken, blocking, streamed) in cases {
        let again = Image::new(
            broken.name().to_string(),
            broken.file().map(|f| f.to_string()),
            match broken.block() {
                Block::Absolute(a) => Block::Absolute(*a),
                Block::Partition(p) => Block::Partition(p.clone()),
                Block::Other => Block::Other,
            },
            broken.image_type(),
        );
        let mut world = World::new(with_images(vec![broken]));
        let message = image_error(world.run(download_image(DownloadConfig::default())));
        assert_eq!(message, blocking);
        let mut world = World::new(with_images(vec![again]));
        world.counted = false;
        let message = image_error(world.run(download_image_async(DownloadConfig::default())));
        assert_eq!(message, streamed);
        assert!(world.trace.contains(&"SetPartitionTable".to_string()));
    }
}

#[test]
fn user_who_stops_is_heard_before_each_partition() {
    let mut world = World::new(project(true));
    world.cancel_at = Some(2);
    let error = world.run(download_image(DownloadConfig::default())).unwrap_err();
    assert!(matches!(error, AxdlError::UserCancelled));
    let trace = world.device_trace();
    assert_eq!(trace.last(), Some(&"CheckCancelled"));
    assert!(trace.iter().any(|t| t.starts_with("StartPartitionId { id: \"boot\"")));
    assert!(!trace.iter().any(|t| t.starts_with("StartPartitionId { id: \"rootfs\"")));
}

#[test]
fn device_that_fails_ends_the_download() {
    for step in [
        "Handshake(\"romcode\")",
        "StartRamDownload",
        "StartPartitionAbsolute32",
        "WriteImage { name: \"FDL1\"",
        "EndPartition { timeout_secs: None }",
        "EndRamDownload",
        "Handshake(\"fdl1\")",
        "StartPartitionAbsolute {",
        "SetPartitionTable",
        "StartPartitionId",
        "WriteImage { name: \"BOOT\"",
        "EndPartition { timeout_secs: Some(60) }",
    ] {
        let mut world = World::new(project(true));
        world.fail_at = Some(step);
        let error = world.run(download_image(DownloadConfig::default())).unwrap_err();
        assert_eq!(error.message(), "Unexpected response: 81");
        assert!(world.trace.last().unwrap().starts_with(step));
    }
}

#[test]
fn events_that_do_not_answer_are_not_accepted() {
    let (mut download, _) = download_image(DownloadConfig::default());
    assert!(!download.accepts(&Event::Done));
    assert!(!download.accepts(&Event::ArchiveOpened { entries: None }));
    assert!(!download.accepts(&Event::NoSuchEntry));
    assert!(download.accepts(&Event::ArchiveOpened { entries: Some(3) }));
    assert!(download.accepts(&Event::Refused(refusal(""))));
    download.advance(Event::ArchiveOpened { entries: Some(3) });
    assert!(download.accepts(&Event::Done));
    assert!(!download.accepts(&Event::Failed(AxdlError::DeviceTimeout)));
    download.advance(Event::Done);
    assert!(!download.accepts(&Event::NoSuchEntry));
    assert!(download.accepts(&Event::Entry { name: None, size: 0 }));
}

#[test]
fn real_archive_is_downloaded() {
    let mut writer = zip::ZipWriter::new(std::io::Cursor::new(Vec::new()));
    let options = zip::write::SimpleFileOptions::default();
    let files: [(&str, &[u8]); 4] = [
        ("boot.bin", b"boot image"),
        ("image.xml", b"<Config></Config>"),
        ("fdl1.bin", b"first"),
        ("fdl2.bin", b"second stage"),
    ];
    for (name, bytes) in files {
        writer.start_file(name, options).unwrap();
        writer.write_all(bytes).unwrap();
    }
    let mut archive = zip::ZipArchive::new(writer.finish().unwrap()).unwrap();
    let mut project = Some(with_images(vec![partition("BOOT", "boot.bin")]));

    let (mut download, mut action) = download_image(DownloadConfig::default());
    let mut open: Option<String> = None;
    let mut sent: Vec<(String, Vec<u8>)> = Vec::new();
    loop {
        let event = match action {
            Action::OpenArchive => Event::ArchiveOpened { entries: Some(archive.len()) },
            Action::InspectEntry(index) => {
                let entry = archive.by_index(index).unwrap();
                Event::Entry { name: Some(entry.name().to_string()), size: entry.size() }
            }
            Action::ReadEntry(index) => {
                let mut text = String::new();
                archive.by_index(index).unwrap().read_to_string(&mut text).unwrap();
                Event::Text(text)
            }
            Action::ParseConfig(text) => {
                assert_eq!(text, "<Config></Config>");
                Event::Parsed(project.take().unwrap())
            }
            Action::OpenEntry(name) => {
                let size = archive.by_name(&name).unwrap().size();
                open = Some(name);
                Event::EntryOpened { size }
            }
            Action::WriteImage { name, size, .. } => {
                let mut bytes = Vec::new();
                let entry = open.take().unwrap();
                archive.by_name(&entry).unwrap().read_to_end(&mut bytes).unwrap();
                assert_eq!(bytes.len(), size);
                sent.push((name, bytes));
                Event::Done
            }
            Action::CheckCancelled => Event::Cancelled(false),
            Action::Finished(result) => {
                assert!(result.is_ok());
                break;
            }
            _ => Event::Done,
        };
        action = download.advance(event);
    }
    assert_eq!(
        sent,
        vec![
            ("FDL1".to_string(), b"first".to_vec()),
            ("FDL2".to_string(), b"second stage".to_vec()),
            ("BOOT".to_string(), b"boot image".to_vec()),
        ]
    );
}

#[test]
fn both_kinds_of_download_do_the_same() {
    let essence = |world: &World| -> Vec<String> {
        let from = world.trace.iter().position(|t| t.starts_with("ParseConfig")).unwrap();
        world.trace[from..]
            .iter()
            .filter(|t| !t.starts_with("OpenEntry") && !t.starts_with("InspectEntry"))
            .map(|t| {
                if t.starts_with("EndPartition") {
                    "EndPartition".to_string()
                } else {
                    t.clone()
                }
            })
            .collect()
    };
    let mut blocking = World::new(project(true));
    assert!(blocking.run(download_image(excluding(&["boot"]))).is_ok());
    let mut streamed = World::new(project(true));
    streamed.counted = false;
    assert!(streamed.run(download_image_async(excluding(&["boot"]))).is_ok());
    assert_eq!(essence(&blocking), essence(&streamed));
}

#[test]
fn blocking_download_asks_a_bounded_number_of_times() {
    let mut world = World::new(project(true));
    assert!(world.run(download_image(DownloadConfig::default())).is_ok());
    let inspected = world.trace.iter().filter(|t| t.starts_with("InspectEntry")).count();
    assert!(inspected <= world.entries.len());
    assert_eq!(world.trace.len(), 38);
}

#[test]
fn root_file_system_is_not_sent_where_the_window_says_so() {
    let mut window = Window::new();
    window.open_device(Transport::Usb, true);
    window.open_image(Some("x.axp".to_string()));
    window.set_exclude_rootfs(true);
    let config = window.download("").unwrap();
    let mut world = World::new(project(true));
    world.counted = false;
    assert!(world.run(download_image_async(config)).is_ok());
    let written: Vec<&String> = world.trace.iter().filter(|t| t.starts_with("WriteImage")).collect();
    assert_eq!(written.len(), 3);
    assert!(written[2].contains("BOOT"));
    assert!(world.trace.contains(
        &"Log(\"Skipping partition: ROOTFS (excluded by user)\")".to_string()
    ));
}
