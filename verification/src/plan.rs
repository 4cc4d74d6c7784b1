//! The steps of a download, laid out before any of them is taken.

use vstd::prelude::*;

use crate::config::DownloadConfig;
use crate::partition::Block;
use crate::partition::BlockView;
use crate::partition::Image;
use crate::partition::ImageType;
use crate::partition::ImageView;
use crate::partition::Project;
use crate::partition::ProjectView;
use crate::text::join3;
use crate::text::join;

verus! {

/// How the archive of the image is read.
#[derive(Debug, Clone, Copy, PartialEq, Eq, Structural)]
pub enum Mode {
    /// With calls that block. The archive tells how many entries it has, and an entry is
    /// opened by its name.
    Blocking,
    /// With calls that are awaited. The entries are gone through one by one.
    Async,
}

/// Where the contents of an archive's entry are written.
#[derive(Debug)]
pub enum WriteImagePartition {
    /// An address in the device's memory that the boot ROM knows.
    Absolute32(u32),
    /// An address in the device's memory.
    Absolute64(u64),
    /// A partition of the flash.
    PartitionId(String),
}

/// A [`WriteImagePartition`] with the text that it holds.
pub enum WriteImagePartitionView {
    Absolute32(u32),
    Absolute64(u64),
    PartitionId(Seq<char>),
}

impl View for WriteImagePartition {
    type V = WriteImagePartitionView;

    open spec fn view(&self) -> WriteImagePartitionView {
        match *self {
            WriteImagePartition::Absolute32(address) => WriteImagePartitionView::Absolute32(
                address,
            ),
            WriteImagePartition::Absolute64(address) => WriteImagePartitionView::Absolute64(
                address,
            ),
            WriteImagePartition::PartitionId(id) => WriteImagePartitionView::PartitionId(id@),
        }
    }
}

/// One step of a download.
#[derive(Debug)]
pub enum Step {
    /// Open the archive of the image.
    OpenArchive,
    /// Tell the user what comes next.
    Report(String),
    /// Go through the archive's entries up to the project description.
    FindConfig,
    /// Read the project description.
    ReadConfig,
    /// Turn the project description into a project.
    ParseConfig,
    /// Wait until the device introduces itself under this name.
    Handshake(String),
    /// Tell the device that images for its memory follow.
    StartRamDownload,
    /// Tell the device that no more images for its memory follow.
    EndRamDownload,
    /// Open the archive's entry called `file`. Where that fails the message is `missing`,
    /// followed by the reason.
    OpenEntry { file: String, missing: String },
    /// Go through the archive's entries up to the one called `file`.
    SearchEntry { file: String },
    /// Tell the device where the contents of the open entry go, and how many they are.
    StartPartition(WriteImagePartition),
    /// Send the contents of the open entry in pieces of `chunk_size` bytes.
    WriteImage { name: String, chunk_size: usize, report_every: Option<usize> },
    /// Tell the device that the contents are complete, and wait for its answer for this
    /// many seconds, or for the usual time.
    EndPartition { timeout_secs: Option<u64> },
    /// Send the partition table.
    SetPartitionTable,
    /// Write a line to the log.
    Log(String),
    /// Ask whether the user wants to stop.
    CheckCancelled,
    /// Give up: the image does not hold what the download needs.
    Fail(String),
}

/// A [`Step`] with the texts that it holds.
pub enum StepView {
    OpenArchive,
    Report(Seq<char>),
    FindConfig,
    ReadConfig,
    ParseConfig,
    Handshake(Seq<char>),
    StartRamDownload,
    EndRamDownload,
    OpenEntry { file: Seq<char>, missing: Seq<char> },
    SearchEntry { file: Seq<char> },
    StartPartition(WriteImagePartitionView),
    WriteImage { name: Seq<char>, chunk_size: usize, report_every: Option<usize> },
    EndPartition { timeout_secs: Option<u64> },
    SetPartitionTable,
    Log(Seq<char>),
    CheckCancelled,
    Fail(Seq<char>),
}

impl View for Step {
    type V = StepView;

    open spec fn view(&self) -> StepView {
        match *self {
            Step::OpenArchive => StepView::OpenArchive,
            Step::Report(text) => StepView::Report(text@),
            Step::FindConfig => StepView::FindConfig,
            Step::ReadConfig => StepView::ReadConfig,
            Step::ParseConfig => StepView::ParseConfig,
            Step::Handshake(name) => StepView::Handshake(name@),
            Step::StartRamDownload => StepView::StartRamDownload,
            Step::EndRamDownload => StepView::EndRamDownload,
            Step::OpenEntry { file, missing } => StepView::OpenEntry {
                file: file@,
                missing: missing@,
            },
            Step::SearchEntry { file } => StepView::SearchEntry { file: file@ },
            Step::StartPartition(target) => StepView::StartPartition(target@),
            Step::WriteImage { name, chunk_size, report_every } => StepView::WriteImage {
                name: name@,
                chunk_size,
                report_every,
            },
            Step::EndPartition { timeout_secs } => StepView::EndPartition { timeout_secs },
            Step::SetPartitionTable => StepView::SetPartitionTable,
            Step::Log(line) => StepView::Log(line@),
            Step::CheckCancelled => StepView::CheckCancelled,
            Step::Fail(message) => StepView::Fail(message@),
        }
    }
}

/// The steps, each with the texts that it holds.
pub open spec fn step_views(steps: Seq<Step>) -> Seq<StepView> {
    steps.map_values(|step: Step| step@)
}

/// The pieces that a flash downloader is sent in.
pub const FDL_CHUNK_SIZE: usize = 1000;

/// The pieces that the contents of a partition are sent in.
pub const IMAGE_CHUNK_SIZE: usize = 48000;

/// How many pieces are sent between two reports.
pub const REPORT_EVERY: usize = 100;

/// How long the device may take to complete a partition.
pub const PARTITION_TIMEOUT_SECS: u64 = 60;

/// The steps up to the project: they are the same for each image.
pub open spec fn opening() -> Seq<StepView> {
    seq![
        StepView::OpenArchive,
        StepView::Report("Loading the AXP image configuration"@),
        StepView::FindConfig,
        StepView::ReadConfig,
        StepView::ParseConfig,
    ]
}

/// The step that gets hold of the archive's entry `file`.
pub open spec fn entry_step(mode: Mode, file: Seq<char>, missing: Seq<char>) -> StepView {
    match mode {
        Mode::Blocking => StepView::OpenEntry { file, missing },
        Mode::Async => StepView::SearchEntry { file },
    }
}

/// The address in the width that the stage of the flash downloader is loaded with.
pub open spec fn fdl_target(wide: bool, address: u64) -> WriteImagePartitionView {
    if wide {
        WriteImagePartitionView::Absolute64(address)
    } else {
        WriteImagePartitionView::Absolute32(address as u32)
    }
}

/// The steps that send the contents of the open entry.
pub open spec fn transfer(
    target: WriteImagePartitionView,
    name: Seq<char>,
    chunk_size: usize,
    timeout_secs: Option<u64>,
) -> Seq<StepView> {
    seq![
        StepView::StartPartition(target),
        StepView::WriteImage { name, chunk_size, report_every: Some(REPORT_EVERY) },
        StepView::EndPartition { timeout_secs },
    ]
}

/// The steps that load the image called `name` into the device's memory. Blocking, the
/// entry is opened before the address is looked at; otherwise the address comes first.
pub open spec fn fdl_stage(
    mode: Mode,
    images: Seq<ImageView>,
    name: Seq<char>,
    wide: bool,
) -> Seq<StepView> {
    match crate::partition::find_image(images, name) {
        None => seq![StepView::Fail(name + " image not found"@)],
        Some(image) => match image.file {
            None => seq![StepView::Fail(name + " image file not specified in the project"@)],
            Some(file) => {
                let entry = entry_step(
                    mode,
                    file,
                    name + " image was not found in the image file: "@,
                );
                match (mode, image.block) {
                    (Mode::Blocking, BlockView::Absolute(address)) => seq![
                        entry,
                        StepView::StartRamDownload,
                    ] + transfer(fdl_target(wide, address), name, FDL_CHUNK_SIZE, None) + seq![
                        StepView::EndRamDownload,
                    ],
                    (Mode::Blocking, _) => seq![
                        entry,
                        StepView::Fail(name + " block is not absolute"@),
                    ],
                    (Mode::Async, BlockView::Absolute(address)) => seq![
                        StepView::StartRamDownload,
                        entry,
                    ] + transfer(fdl_target(wide, address), name, FDL_CHUNK_SIZE, None) + seq![
                        StepView::EndRamDownload,
                    ],
                    (Mode::Async, _) => seq![StepView::Fail(name + " block is not absolute"@)],
                }
            },
        },
    }
}

/// The steps that load the flash downloader. Only a blocking download knows the flash
/// downloader with one stage.
pub open spec fn fdl_stages(mode: Mode, project: ProjectView) -> Seq<StepView> {
    if mode == Mode::Async || project.two_level_fdl {
        fdl_stage(mode, project.images, "FDL1"@, false) + seq![StepView::Handshake("fdl1"@)]
            + fdl_stage(mode, project.images, "FDL2"@, true)
    } else {
        fdl_stage(mode, project.images, "FDL"@, false) + seq![StepView::Handshake("fdl2"@)]
    }
}

/// The steps that write the contents of one partition.
pub open spec fn image_stage(mode: Mode, image: ImageView) -> Seq<StepView> {
    let name = image.name;
    seq![StepView::Report("Downloading image "@ + name), StepView::CheckCancelled] + (
    match image.file {
        None => seq![
            StepView::Fail("image "@ + name + " file not specified in the project"@),
        ],
        Some(file) => {
            let entry = entry_step(
                mode,
                file,
                "image "@ + name + " was not found in the archive: "@,
            );
            let timeout_secs = match mode {
                Mode::Blocking => Some(PARTITION_TIMEOUT_SECS),
                Mode::Async => None,
            };
            match (mode, image.block) {
                (_, BlockView::Partition(id)) => seq![entry] + transfer(
                    WriteImagePartitionView::PartitionId(id),
                    name,
                    IMAGE_CHUNK_SIZE,
                    timeout_secs,
                ),
                (Mode::Blocking, _) => seq![
                    entry,
                    StepView::Fail("image "@ + name + " block is not partition"@),
                ],
                (Mode::Async, _) => seq![
                    StepView::Fail("image "@ + name + " block is not partition"@),
                ],
            }
        },
    })
}

/// The steps that write the selected images, in the order of the images.
pub open spec fn image_stages(
    mode: Mode,
    names: Seq<Seq<char>>,
    images: Seq<ImageView>,
) -> Seq<StepView>
    decreases images.len(),
{
    if images.len() == 0 {
        Seq::empty()
    } else {
        let steps = image_stages(mode, names, images.drop_last());
        if crate::config::selected(names, images.last()) {
            steps + image_stage(mode, images.last())
        } else {
            steps
        }
    }
}

/// The steps that introduce the device.
pub open spec fn greeting() -> Seq<StepView> {
    seq![
        StepView::Report("Start download"@),
        StepView::Report("Handshaking with the device"@),
        StepView::Handshake("romcode"@),
        StepView::Report("Downloading the flash downloaders"@),
    ]
}

/// The steps that send the partition table.
pub open spec fn table_stage() -> Seq<StepView> {
    seq![
        StepView::Report("Downloading the partition table"@),
        StepView::SetPartitionTable,
    ]
}

/// The steps that log what is left out.
pub open spec fn log_stage(
    names: Seq<Seq<char>>,
    images: Seq<ImageView>,
) -> Seq<StepView> {
    crate::config::skip_lines(names, images).map_values(|line: Seq<char>| StepView::Log(line))
}

/// The steps that follow once the project is known. A `Fail` step ends the download, so
/// that none of the steps behind it is taken.
pub open spec fn project_steps(
    mode: Mode,
    names: Seq<Seq<char>>,
    project: ProjectView,
) -> Seq<StepView> {
    greeting() + fdl_stages(mode, project) + table_stage() + log_stage(names, project.images)
        + image_stages(mode, names, project.images)
}

/// Adds one step.
fn add_step(steps: &mut Vec<Step>, step: Step)
    ensures
        step_views(final(steps)@) == step_views(old(steps)@).push(step@),
{
    steps.push(step);
    assert(step_views(steps@) =~= step_views(old(steps)@).push(step@));
}

fn add_report(steps: &mut Vec<Step>, text: &str)
    ensures
        step_views(final(steps)@) == step_views(old(steps)@).push(StepView::Report(text@)),
{
    add_step(steps, Step::Report(text.to_owned()));
}

fn add_fail(steps: &mut Vec<Step>, message: String)
    ensures
        step_views(final(steps)@) == step_views(old(steps)@).push(StepView::Fail(message@)),
{
    add_step(steps, Step::Fail(message));
}

fn add_entry(steps: &mut Vec<Step>, mode: Mode, file: &str, missing: String)
    ensures
        step_views(final(steps)@) == step_views(old(steps)@).push(
            entry_step(mode, file@, missing@),
        ),
{
    match mode {
        Mode::Blocking => add_step(steps, Step::OpenEntry { file: file.to_owned(), missing }),
        Mode::Async => add_step(steps, Step::SearchEntry { file: file.to_owned() }),
    }
}

fn add_transfer(
    steps: &mut Vec<Step>,
    target: WriteImagePartition,
    name: &str,
    chunk_size: usize,
    timeout_secs: Option<u64>,
)
    ensures
        step_views(final(steps)@) == step_views(old(steps)@) + transfer(
            target@,
            name@,
            chunk_size,
            timeout_secs,
        ),
{
    add_step(steps, Step::StartPartition(target));
    add_step(
        steps,
        Step::WriteImage { name: name.to_owned(), chunk_size, report_every: Some(REPORT_EVERY) },
    );
    add_step(steps, Step::EndPartition { timeout_secs });
    assert(step_views(steps@) =~= step_views(old(steps)@) + transfer(
        target@,
        name@,
        chunk_size,
        timeout_secs,
    ));
}

/// The steps up to the project.
pub fn opening_steps() -> (steps: Vec<Step>)
    ensures
        step_views(steps@) == opening(),
{
    let mut steps: Vec<Step> = Vec::new();
    add_step(&mut steps, Step::OpenArchive);
    add_report(&mut steps, "Loading the AXP image configuration");
    add_step(&mut steps, Step::FindConfig);
    add_step(&mut steps, Step::ReadConfig);
    add_step(&mut steps, Step::ParseConfig);
    assert(step_views(steps@) =~= opening());
    steps
}

fn add_fdl_stage(steps: &mut Vec<Step>, mode: Mode, project: &Project, name: &str, wide: bool)
    ensures
        step_views(final(steps)@) == step_views(old(steps)@) + fdl_stage(
            mode,
            project@.images,
            name@,
            wide,
        ),
{
    let ghost before = step_views(steps@);
    match project.find(name) {
        None => {
            add_fail(steps, join(name, " image not found"));
        },
        Some(image) => match image.file() {
            None => {
                add_fail(steps, join(name, " image file not specified in the project"));
            },
            Some(file) => {
                let missing = join(name, " image was not found in the image file: ");
                match image.block() {
                    Block::Absolute(address) => {
                        let target = if wide {
                            WriteImagePartition::Absolute64(*address)
                        } else {
                            WriteImagePartition::Absolute32(
                                #[verifier::truncate]
                                (*address as u32),
                            )
                        };
                        match mode {
                            Mode::Blocking => {
                                add_entry(steps, mode, file, missing);
                                add_step(steps, Step::StartRamDownload);
                            },
                            Mode::Async => {
                                add_step(steps, Step::StartRamDownload);
                                add_entry(steps, mode, file, missing);
                            },
                        }
                        add_transfer(steps, target, name, FDL_CHUNK_SIZE, None);
                        add_step(steps, Step::EndRamDownload);
                    },
                    _ => {
                        match mode {
                            Mode::Blocking => {
                                add_entry(steps, mode, file, missing);
                            },
                            Mode::Async => {},
                        }
                        add_fail(steps, join(name, " block is not absolute"));
                    },
                }
            },
        },
    }
    assert(step_views(steps@) =~= before + fdl_stage(mode, project@.images, name@, wide));
}

fn add_fdl_stages(steps: &mut Vec<Step>, mode: Mode, project: &Project)
    ensures
        step_views(final(steps)@) == step_views(old(steps)@) + fdl_stages(mode, project@),
{
    let ghost before = step_views(steps@);
    if mode == Mode::Async || project.is2_level_fdl() {
        add_fdl_stage(steps, mode, project, "FDL1", false);
        add_step(steps, Step::Handshake("fdl1".to_owned()));
        add_fdl_stage(steps, mode, project, "FDL2", true);
    } else {
        add_fdl_stage(steps, mode, project, "FDL", false);
        add_step(steps, Step::Handshake("fdl2".to_owned()));
    }
    assert(step_views(steps@) =~= before + fdl_stages(mode, project@));
}

fn add_image_stage(steps: &mut Vec<Step>, mode: Mode, image: &Image)
    ensures
        step_views(final(steps)@) == step_views(old(steps)@) + image_stage(mode, image@),
{
    let ghost before = step_views(steps@);
    let name = image.name();
    add_step(steps, Step::Report(join("Downloading image ", name)));
    add_step(steps, Step::CheckCancelled);
    match image.file() {
        None => {
            add_fail(steps, join3("image ", name, " file not specified in the project"));
        },
        Some(file) => {
            let missing = join3("image ", name, " was not found in the archive: ");
            match image.block() {
                Block::Partition(id) => {
                    let timeout_secs = match mode {
                        Mode::Blocking => Some(PARTITION_TIMEOUT_SECS),
                        Mode::Async => None,
                    };
                    add_entry(steps, mode, file, missing);
                    add_transfer(
                        steps,
                        WriteImagePartition::PartitionId(id.as_str().to_owned()),
                        name,
                        IMAGE_CHUNK_SIZE,
                        timeout_secs,
                    );
                },
                _ => {
                    match mode {
                        Mode::Blocking => {
                            add_entry(steps, mode, file, missing);
                        },
                        Mode::Async => {},
                    }
                    add_fail(steps, join3("image ", name, " block is not partition"));
                },
            }
        },
    }
    assert(step_views(steps@) =~= before + image_stage(mode, image@));
}

fn add_image_stages(
    steps: &mut Vec<Step>,
    mode: Mode,
    config: &DownloadConfig,
    images: &Vec<Image>,
)
    ensures
        step_views(final(steps)@) == step_views(old(steps)@) + image_stages(
            mode,
            config@,
            crate::partition::image_views(images@),
        ),
{
    let ghost before = step_views(steps@);
    let ghost views = crate::partition::image_views(images@);
    assert(step_views(steps@) =~= before + image_stages(mode, config@, views.take(0)));
    for i in 0..images.len()
        invariant
            views == crate::partition::image_views(images@),
            step_views(steps@) == before + image_stages(mode, config@, views.take(i as int)),
    {
        let image = &images[i];
        assert(views.take(i + 1).drop_last() =~= views.take(i as int));
        assert(views[i as int] == image@);
        if image.image_type() == ImageType::Code && !config.is_excluded(image.name()) {
            add_image_stage(steps, mode, image);
            assert(step_views(steps@) =~= before + image_stages(
                mode,
                config@,
                views.take(i + 1),
            ));
        }
    }
    assert(views.take(images.len() as int) =~= views);
}

fn add_log_stage(steps: &mut Vec<Step>, config: &DownloadConfig, images: &Vec<Image>)
    ensures
        step_views(final(steps)@) == step_views(old(steps)@) + log_stage(
            config@,
            crate::partition::image_views(images@),
        ),
{
    let ghost before = step_views(steps@);
    let lines = config.log_exclusions(images);
    let ghost wanted = log_stage(config@, crate::partition::image_views(images@));
    assert(wanted.len() == lines@.len());
    for i in 0..lines.len()
        invariant
            wanted.len() == lines@.len(),
            forall|j: int|
                0 <= j < lines@.len() ==> #[trigger] wanted[j] == StepView::Log(lines@[j]@),
            step_views(steps@) == before + wanted.take(i as int),
    {
        add_step(steps, Step::Log(lines[i].as_str().to_owned()));
        assert(step_views(steps@) =~= before + wanted.take(i + 1));
    }
    assert(wanted.take(lines.len() as int) =~= wanted);
}

/// Adds the steps that follow once the project is known.
pub fn add_project_steps(
    steps: &mut Vec<Step>,
    mode: Mode,
    config: &DownloadConfig,
    project: &Project,
)
    ensures
        step_views(final(steps)@) == step_views(old(steps)@) + project_steps(
            mode,
            config@,
            project@,
        ),
{
    let ghost before = step_views(steps@);
    add_report(steps, "Start download");
    add_report(steps, "Handshaking with the device");
    add_step(steps, Step::Handshake("romcode".to_owned()));
    add_report(steps, "Downloading the flash downloaders");
    assert(step_views(steps@) =~= before + greeting());
    add_fdl_stages(steps, mode, project);
    add_report(steps, "Downloading the partition table");
    add_step(steps, Step::SetPartitionTable);
    assert(step_views(steps@) =~= before + greeting() + fdl_stages(mode, project@)
        + table_stage());
    add_log_stage(steps, config, project.images());
    add_image_stages(steps, mode, config, project.images());
    assert(step_views(steps@) =~= before + project_steps(mode, config@, project@));
}

} // verus!
