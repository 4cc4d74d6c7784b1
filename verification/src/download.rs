//! A download as an exchange: the download says what is to be done next, and is told
//! what came of it.

use vstd::prelude::*;

use crate::config::DownloadConfig;
use crate::error::AxdlError;
use crate::error::AxdlErrorView;
use crate::error::Cause;
use crate::error::CauseView;
use crate::partition::Project;
use crate::partition::ProjectView;
use crate::plan::add_project_steps;
use crate::plan::opening_steps;
use crate::plan::Mode;
use crate::plan::Step;
use crate::plan::StepView;
use crate::plan::WriteImagePartition;
use crate::plan::WriteImagePartitionView;
use crate::progress::cancellation;
use crate::text::ends_with;
use crate::text::join;
use crate::text::same_text;

verus! {

/// What a download wants to be done next.
#[allow(inconsistent_fields)]
#[derive(Debug)]
pub enum Action {
    /// Open the archive of the image.
    OpenArchive,
    /// Tell the user what comes next.
    Report(String),
    /// Tell the name and the size of the archive's entry with this index.
    InspectEntry(usize),
    /// Read the archive's entry with this index as text.
    ReadEntry(usize),
    /// Turn this text into a project.
    ParseConfig(String),
    /// Wait until the device introduces itself under this name.
    Handshake(String),
    /// Tell the device that images for its memory follow.
    StartRamDownload,
    /// Tell the device that no more images for its memory follow.
    EndRamDownload,
    /// Open the archive's entry with this name.
    OpenEntry(String),
    /// Tell the device that `size` bytes for this address follow, in 32 bit fields.
    StartPartitionAbsolute32 { address: u32, size: u32 },
    /// Tell the device that `size` bytes for this address follow.
    StartPartitionAbsolute { address: u64, size: u64 },
    /// Tell the device that `size` bytes for this partition follow.
    StartPartitionId { id: String, size: u64 },
    /// Send the contents of the open entry, `size` bytes, in pieces of `chunk_size` bytes.
    WriteImage { name: String, chunk_size: usize, size: usize, report_every: Option<usize> },
    /// Tell the device that the contents are complete, and wait for its answer for this
    /// many seconds, or for the usual time.
    EndPartition { timeout_secs: Option<u64> },
    /// Send the partition table of the project.
    SetPartitionTable,
    /// Write a line to the log.
    Log(String),
    /// Tell whether the user wants to stop.
    CheckCancelled,
    /// Nothing more: this is what came of the download.
    Finished(Result<(), AxdlError>),
}

/// An [`Action`] with the texts that it holds.
#[allow(inconsistent_fields)]
pub enum ActionView {
    OpenArchive,
    Report(Seq<char>),
    InspectEntry(nat),
    ReadEntry(nat),
    ParseConfig(Seq<char>),
    Handshake(Seq<char>),
    StartRamDownload,
    EndRamDownload,
    OpenEntry(Seq<char>),
    StartPartitionAbsolute32 { address: u32, size: u32 },
    StartPartitionAbsolute { address: u64, size: u64 },
    StartPartitionId { id: Seq<char>, size: u64 },
    WriteImage { name: Seq<char>, chunk_size: usize, size: usize, report_every: Option<usize> },
    EndPartition { timeout_secs: Option<u64> },
    SetPartitionTable,
    Log(Seq<char>),
    CheckCancelled,
    Finished(Result<(), AxdlErrorView>),
}

impl View for Action {
    type V = ActionView;

    open spec fn view(&self) -> ActionView {
        match *self {
            Action::OpenArchive => ActionView::OpenArchive,
            Action::Report(text) => ActionView::Report(text@),
            Action::InspectEntry(index) => ActionView::InspectEntry(index as nat),
            Action::ReadEntry(index) => ActionView::ReadEntry(index as nat),
            Action::ParseConfig(text) => ActionView::ParseConfig(text@),
            Action::Handshake(name) => ActionView::Handshake(name@),
            Action::StartRamDownload => ActionView::StartRamDownload,
            Action::EndRamDownload => ActionView::EndRamDownload,
            Action::OpenEntry(file) => ActionView::OpenEntry(file@),
            Action::StartPartitionAbsolute32 { address, size } =>
                ActionView::StartPartitionAbsolute32 { address, size },
            Action::StartPartitionAbsolute { address, size } =>
                ActionView::StartPartitionAbsolute { address, size },
            Action::StartPartitionId { id, size } => ActionView::StartPartitionId { id: id@, size },
            Action::WriteImage { name, chunk_size, size, report_every } => ActionView::WriteImage {
                name: name@,
                chunk_size,
                size,
                report_every,
            },
            Action::EndPartition { timeout_secs } => ActionView::EndPartition { timeout_secs },
            Action::SetPartitionTable => ActionView::SetPartitionTable,
            Action::Log(line) => ActionView::Log(line@),
            Action::CheckCancelled => ActionView::CheckCancelled,
            Action::Finished(Ok(())) => ActionView::Finished(Ok(())),
            Action::Finished(Err(e)) => ActionView::Finished(Err(e@)),
        }
    }
}

/// What came of an action.
#[derive(Debug)]
pub enum Event {
    /// It was done, and there is nothing to tell of it.
    Done,
    /// The archive is open. One that is read with calls that block has this many entries.
    ArchiveOpened { entries: Option<usize> },
    /// The archive's entry has this name, if that is valid text, and this many bytes.
    Entry { name: Option<String>, size: u64 },
    /// The archive has no more entries.
    NoSuchEntry,
    /// The entry holds this text.
    Text(String),
    /// The text describes this project.
    Parsed(Project),
    /// The entry is open and has this many bytes.
    EntryOpened { size: u64 },
    /// Whether the user wants to stop.
    Cancelled(bool),
    /// The archive, or the parser of the project description, failed for this reason.
    Refused(Cause),
    /// The device, or the way to it, failed.
    Failed(AxdlError),
}

/// An [`Event`] with the texts that it holds.
pub enum EventView {
    Done,
    ArchiveOpened { entries: Option<usize> },
    Entry { name: Option<Seq<char>>, size: u64 },
    NoSuchEntry,
    Text(Seq<char>),
    Parsed(ProjectView),
    EntryOpened { size: u64 },
    Cancelled(bool),
    Refused(CauseView),
    Failed(AxdlErrorView),
}

impl View for Event {
    type V = EventView;

    open spec fn view(&self) -> EventView {
        match *self {
            Event::Done => EventView::Done,
            Event::ArchiveOpened { entries } => EventView::ArchiveOpened { entries },
            Event::Entry { name: Some(name), size } => EventView::Entry { name: Some(name@), size },
            Event::Entry { name: None, size } => EventView::Entry { name: None, size },
            Event::NoSuchEntry => EventView::NoSuchEntry,
            Event::Text(text) => EventView::Text(text@),
            Event::Parsed(project) => EventView::Parsed(project@),
            Event::EntryOpened { size } => EventView::EntryOpened { size },
            Event::Cancelled(cancelled) => EventView::Cancelled(cancelled),
            Event::Refused(reason) => EventView::Refused(reason@),
            Event::Failed(e) => EventView::Failed(e@),
        }
    }
}

/// What an event means for the step that it answers.
pub enum Verdict {
    /// The step goes on with the archive's next entry.
    Again,
    /// The step is done.
    Onward,
    /// The download has failed.
    Stop(AxdlErrorView),
}

/// The error for an archive that cannot be read.
pub open spec fn archive_error(mode: Mode, reason: CauseView) -> AxdlErrorView {
    match mode {
        Mode::Blocking => AxdlErrorView::ImageZipError(reason),
        Mode::Async => AxdlErrorView::ImageAsyncZipError(reason),
    }
}

/// The error for an image without a project description.
pub open spec fn no_config() -> AxdlErrorView {
    AxdlErrorView::ImageError("configuration file not found in the image"@)
}

/// The step goes through the archive's entries one by one.
pub open spec fn is_scan(step: StepView) -> bool {
    step is FindConfig || step is SearchEntry
}

/// The entry that ends the scan: the project description has a name that ends in `.xml`,
/// any other entry is found by its whole name.
pub open spec fn scan_hit(step: StepView, name: Option<Seq<char>>) -> bool {
    match (step, name) {
        (StepView::FindConfig, Some(name)) => crate::text::has_suffix(name, ".xml"@),
        (StepView::SearchEntry { file }, Some(name)) => name == file,
        _ => false,
    }
}

/// The state of a download.
pub struct DownloadView {
    pub mode: Mode,
    /// The partitions that the user wants to leave alone.
    pub names: Seq<Seq<char>>,
    /// The steps that are known so far.
    pub steps: Seq<StepView>,
    /// The step that is being taken.
    pub next: nat,
    /// The archive's entry that a scan looks at, or that it ended with.
    pub index: nat,
    /// How many entries the archive has, where it tells.
    pub entries: Option<usize>,
    /// The project description.
    pub text: Seq<char>,
    /// The size of the entry that was opened last.
    pub size: u64,
    /// Nothing is left to be done.
    pub ended: bool,
}

impl DownloadView {
    /// A download of which nothing has been done.
    pub open spec fn start(mode: Mode, names: Seq<Seq<char>>) -> Self {
        DownloadView {
            mode,
            names,
            steps: crate::plan::opening(),
            next: 0,
            index: 0,
            entries: None,
            text: Seq::empty(),
            size: 0,
            ended: false,
        }
    }

    /// What holds of every download.
    pub open spec fn wf(self) -> bool {
        &&& self.next <= self.steps.len()
        &&& self.index <= usize::MAX
        &&& !self.ended ==> !(self.request() is Finished)
    }

    /// The step that is being taken.
    pub open spec fn step(self) -> StepView {
        self.steps[self.next as int]
    }

    /// What is to be done in this state.
    pub open spec fn request(self) -> ActionView {
        if self.next >= self.steps.len() {
            ActionView::Finished(Ok(()))
        } else {
            match self.step() {
                StepView::OpenArchive => ActionView::OpenArchive,
                StepView::Report(text) => ActionView::Report(text),
                StepView::FindConfig => match self.entries {
                    Some(entries) if self.index >= entries => ActionView::Finished(
                        Err(no_config()),
                    ),
                    _ => ActionView::InspectEntry(self.index),
                },
                StepView::ReadConfig => ActionView::ReadEntry(self.index),
                StepView::ParseConfig => ActionView::ParseConfig(self.text),
                StepView::Handshake(name) => ActionView::Handshake(name),
                StepView::StartRamDownload => ActionView::StartRamDownload,
                StepView::EndRamDownload => ActionView::EndRamDownload,
                StepView::OpenEntry { file, missing } => ActionView::OpenEntry(file),
                StepView::SearchEntry { file } => ActionView::InspectEntry(self.index),
                StepView::StartPartition(
                    WriteImagePartitionView::Absolute32(address),
                ) => ActionView::StartPartitionAbsolute32 { address, size: self.size as u32 },
                StepView::StartPartition(
                    WriteImagePartitionView::Absolute64(address),
                ) => ActionView::StartPartitionAbsolute { address, size: self.size },
                StepView::StartPartition(
                    WriteImagePartitionView::PartitionId(id),
                ) => ActionView::StartPartitionId { id, size: self.size },
                StepView::WriteImage { name, chunk_size, report_every } =>
                    ActionView::WriteImage {
                    name,
                    chunk_size,
                    size: self.size as usize,
                    report_every,
                },
                StepView::EndPartition { timeout_secs } => ActionView::EndPartition {
                    timeout_secs,
                },
                StepView::SetPartitionTable => ActionView::SetPartitionTable,
                StepView::Log(line) => ActionView::Log(line),
                StepView::CheckCancelled => ActionView::CheckCancelled,
                StepView::Fail(message) => ActionView::Finished(
                    Err(AxdlErrorView::ImageError(message)),
                ),
            }
        }
    }

    /// The event answers what is to be done in this state.
    pub open spec fn accepts(self, event: EventView) -> bool {
        &&& !self.ended
        &&& self.next < self.steps.len()
        &&& match self.step() {
            StepView::OpenArchive => match event {
                EventView::ArchiveOpened { entries } => (entries is Some) == (self.mode
                    == Mode::Blocking),
                EventView::Refused(_) => true,
                _ => false,
            },
            StepView::FindConfig | StepView::SearchEntry { .. } =>
                match event {
                EventView::Entry { .. } => self.index < usize::MAX,
                EventView::NoSuchEntry => self.mode == Mode::Async,
                EventView::Refused(_) => true,
                _ => false,
            },
            StepView::ReadConfig => event is Text || event is Refused,
            StepView::ParseConfig => event is Parsed || event is Refused,
            StepView::OpenEntry { .. } => event is EntryOpened || event is Refused,
            StepView::Report(_) | StepView::Log(_) => event is Done,
            StepView::CheckCancelled => event is Cancelled,
            StepView::Fail(_) => false,
            _ => event is Done || event is Failed,
        }
    }

    /// What the event means for the step that is being taken.
    pub open spec fn verdict(self, event: EventView) -> Verdict {
        match (self.step(), event) {
            (step, EventView::Entry { name, size }) => if scan_hit(step, name) {
                Verdict::Onward
            } else {
                Verdict::Again
            },
            (StepView::SearchEntry { file }, EventView::NoSuchEntry) => Verdict::Stop(
                AxdlErrorView::ImageError(
                    "image was not found in the image file: "@ + file,
                ),
            ),
            (_, EventView::NoSuchEntry) => Verdict::Stop(no_config()),
            (StepView::ReadConfig, EventView::Refused(reason)) if self.mode
                == Mode::Blocking => Verdict::Stop(
                AxdlErrorView::ImageError(
                    "failed to read configuration file: "@ + reason.shown,
                ),
            ),
            (StepView::ParseConfig, EventView::Refused(reason)) => Verdict::Stop(
                AxdlErrorView::ImageError(
                    "failed to parse the configuration file: "@ + reason.shown,
                ),
            ),
            (
                StepView::OpenEntry { file, missing },
                EventView::Refused(reason),
            ) => Verdict::Stop(AxdlErrorView::ImageError(missing + reason.shown)),
            (_, EventView::Refused(reason)) => Verdict::Stop(archive_error(self.mode, reason)),
            (_, EventView::Cancelled(true)) => Verdict::Stop(
                AxdlErrorView::UserCancelled,
            ),
            (_, EventView::Failed(e)) => Verdict::Stop(e),
            _ => Verdict::Onward,
        }
    }

    /// The state once the step that is being taken is done.
    pub open spec fn onward(self, event: EventView) -> Self {
        let steps = match event {
            EventView::Parsed(project) => self.steps + crate::plan::project_steps(
                self.mode,
                self.names,
                project,
            ),
            _ => self.steps,
        };
        let next = self.next + 1;
        let moved = DownloadView {
            mode: self.mode,
            names: self.names,
            steps,
            next,
            index: if next < steps.len() && is_scan(steps[next as int]) {
                0
            } else {
                self.index
            },
            entries: match event {
                EventView::ArchiveOpened { entries } => entries,
                _ => self.entries,
            },
            text: match event {
                EventView::Text(text) => text,
                _ => self.text,
            },
            size: match event {
                EventView::Entry { name, size } => size,
                EventView::EntryOpened { size } => size,
                _ => self.size,
            },
            ended: false,
        };
        DownloadView { ended: moved.request() is Finished, ..moved }
    }

    /// The state while a scan goes on with the archive's next entry.
    pub open spec fn again(self) -> Self {
        let moved = DownloadView { index: self.index + 1, ..self };
        DownloadView { ended: moved.request() is Finished, ..moved }
    }

    /// The state after the event.
    pub open spec fn after(self, event: EventView) -> Self {
        match self.verdict(event) {
            Verdict::Again => self.again(),
            Verdict::Onward => self.onward(event),
            Verdict::Stop(_) => DownloadView { ended: true, ..self },
        }
    }

    /// What is to be done after the event.
    pub open spec fn answer(self, event: EventView) -> ActionView {
        match self.verdict(event) {
            Verdict::Stop(e) => ActionView::Finished(Err(e)),
            _ => self.after(event).request(),
        }
    }
}

/// A download that is under way.
#[derive(Debug)]
pub struct Download {
    mode: Mode,
    config: DownloadConfig,
    steps: Vec<Step>,
    next: usize,
    index: usize,
    entries: Option<usize>,
    text: String,
    size: u64,
    ended: bool,
}

impl View for Download {
    type V = DownloadView;

    closed spec fn view(&self) -> DownloadView {
        DownloadView {
            mode: self.mode,
            names: self.config@,
            steps: crate::plan::step_views(self.steps@),
            next: self.next as nat,
            index: self.index as nat,
            entries: self.entries,
            text: self.text@,
            size: self.size,
            ended: self.ended,
        }
    }
}

impl Download {
    fn new(mode: Mode, config: DownloadConfig) -> (r: Self)
        ensures
            r@ == DownloadView::start(mode, config@),
    {
        let r = Download {
            mode,
            config,
            steps: opening_steps(),
            next: 0,
            index: 0,
            entries: None,
            text: String::new(),
            size: 0,
            ended: false,
        };
        assert(r@.text =~= Seq::<char>::empty());
        r
    }

    /// Whether nothing is left to be done.
    pub fn ended(&self) -> (r: bool)
        ensures
            r == self@.ended,
    {
        self.ended
    }

    /// Whether the event answers what is to be done.
    pub fn accepts(&self, event: &Event) -> (r: bool)
        ensures
            r == self@.accepts(event@),
    {
        if self.ended || self.next >= self.steps.len() {
            return false;
        }
        let step = &self.steps[self.next];
        assert(step@ == self@.step());
        match step {
            Step::OpenArchive => match event {
                Event::ArchiveOpened { entries } => entries.is_some() == (self.mode
                    == Mode::Blocking),
                Event::Refused(_) => true,
                _ => false,
            },
            Step::FindConfig | Step::SearchEntry { .. } => match event {
                Event::Entry { .. } => self.index < usize::MAX,
                Event::NoSuchEntry => self.mode == Mode::Async,
                Event::Refused(_) => true,
                _ => false,
            },
            Step::ReadConfig => matches!(event, Event::Text(_) | Event::Refused(_)),
            Step::ParseConfig => matches!(event, Event::Parsed(_) | Event::Refused(_)),
            Step::OpenEntry { .. } => matches!(event, Event::EntryOpened { .. } | Event::Refused(_)),
            Step::Report(_) | Step::Log(_) => matches!(event, Event::Done),
            Step::CheckCancelled => matches!(event, Event::Cancelled(_)),
            Step::Fail(_) => false,
            _ => matches!(event, Event::Done | Event::Failed(_)),
        }
    }

    fn request(&self) -> (r: Action)
        ensures
            r@ == self@.request(),
    {
        if self.next >= self.steps.len() {
            return Action::Finished(Ok(()));
        }
        let step = &self.steps[self.next];
        assert(step@ == self@.step());
        match step {
            Step::OpenArchive => Action::OpenArchive,
            Step::Report(text) => Action::Report(text.clone()),
            Step::FindConfig => match self.entries {
                Some(entries) if self.index >= entries => Action::Finished(
                    Err(
                        AxdlError::ImageError(
                            "configuration file not found in the image".to_owned(),
                        ),
                    ),
                ),
                _ => Action::InspectEntry(self.index),
            },
            Step::ReadConfig => Action::ReadEntry(self.index),
            Step::ParseConfig => Action::ParseConfig(self.text.clone()),
            Step::Handshake(name) => Action::Handshake(name.clone()),
            Step::StartRamDownload => Action::StartRamDownload,
            Step::EndRamDownload => Action::EndRamDownload,
            Step::OpenEntry { file, .. } => Action::OpenEntry(file.clone()),
            Step::SearchEntry { .. } => Action::InspectEntry(self.index),
            Step::StartPartition(target) => match target {
                WriteImagePartition::Absolute32(address) => Action::StartPartitionAbsolute32 {
                    address: *address,
                    size: #[verifier::truncate]
                    (self.size as u32),
                },
                WriteImagePartition::Absolute64(address) => Action::StartPartitionAbsolute {
                    address: *address,
                    size: self.size,
                },
                WriteImagePartition::PartitionId(id) => Action::StartPartitionId {
                    id: id.clone(),
                    size: self.size,
                },
            },
            Step::WriteImage { name, chunk_size, report_every } => Action::WriteImage {
                name: name.clone(),
                chunk_size: *chunk_size,
                size: #[verifier::truncate]
                (self.size as usize),
                report_every: *report_every,
            },
            Step::EndPartition { timeout_secs } => Action::EndPartition {
                timeout_secs: *timeout_secs,
            },
            Step::SetPartitionTable => Action::SetPartitionTable,
            Step::Log(line) => Action::Log(line.clone()),
            Step::CheckCancelled => Action::CheckCancelled,
            Step::Fail(message) => Action::Finished(Err(AxdlError::ImageError(message.clone()))),
        }
    }

    fn ask(&mut self) -> (r: Action)
        ensures
            r@ == old(self)@.request(),
            final(self)@ == (DownloadView { ended: r@ is Finished, ..old(self)@ }),
    {
        let action = self.request();
        self.ended = matches!(action, Action::Finished(_));
        action
    }

    fn move_on(&mut self) -> (r: Action)
        requires
            old(self)@.next < old(self)@.steps.len(),
        ensures
            ({
                let next = old(self)@.next + 1;
                let moved = DownloadView {
                    next,
                    index: if next < old(self)@.steps.len() && is_scan(
                        old(self)@.steps[next as int],
                    ) {
                        0
                    } else {
                        old(self)@.index
                    },
                    ended: false,
                    ..old(self)@
                };
                &&& r@ == moved.request()
                &&& final(self)@ == (DownloadView { ended: r@ is Finished, ..moved })
            }),
    {
        assert(self.next < self.steps.len());
        self.next = self.next + 1;
        self.ended = false;
        if self.next < self.steps.len() {
            let step = &self.steps[self.next];
            assert(step@ == self@.step());
            if matches!(step, Step::FindConfig | Step::SearchEntry { .. }) {
                self.index = 0;
            }
        }
        self.ask()
    }

    fn stop(&mut self, e: AxdlError) -> (r: Action)
        ensures
            r@ == ActionView::Finished(Err(e@)),
            final(self)@ == (DownloadView { ended: true, ..old(self)@ }),
    {
        self.ended = true;
        Action::Finished(Err(e))
    }

    fn hits(&self, name: &Option<String>) -> (r: bool)
        requires
            self@.next < self@.steps.len(),
        ensures
            r == scan_hit(
                self@.step(),
                match *name {
                    Some(n) => Some(n@),
                    None => None,
                },
            ),
    {
        let step = &self.steps[self.next];
        assert(step@ == self@.step());
        match name {
            None => false,
            Some(name) => match step {
                Step::FindConfig => ends_with(name.as_str(), ".xml"),
                Step::SearchEntry { file } => same_text(name.as_str(), file.as_str()),
                _ => false,
            },
        }
    }

    fn refusal(&self, reason: Cause) -> (r: AxdlError)
        requires
            self@.next < self@.steps.len(),
        ensures
            self@.verdict(EventView::Refused(reason@)) == Verdict::Stop(r@),
    {
        let step = &self.steps[self.next];
        assert(step@ == self@.step());
        match (step, self.mode) {
            (Step::ReadConfig, Mode::Blocking) => AxdlError::ImageError(
                join("failed to read configuration file: ", reason.shown.as_str()),
            ),
            (Step::ParseConfig, _) => AxdlError::ImageError(
                join("failed to parse the configuration file: ", reason.shown.as_str()),
            ),
            (Step::OpenEntry { missing, .. }, _) => AxdlError::ImageError(
                join(missing.as_str(), reason.shown.as_str()),
            ),
            (_, Mode::Blocking) => AxdlError::ImageZipError(reason),
            (_, Mode::Async) => AxdlError::ImageAsyncZipError(reason),
        }
    }

    fn exhausted(&self) -> (r: AxdlError)
        requires
            self@.next < self@.steps.len(),
        ensures
            self@.verdict(EventView::NoSuchEntry) == Verdict::Stop(r@),
    {
        let step = &self.steps[self.next];
        assert(step@ == self@.step());
        match step {
            Step::SearchEntry { file } => AxdlError::ImageError(
                join("image was not found in the image file: ", file.as_str()),
            ),
            _ => AxdlError::ImageError("configuration file not found in the image".to_owned()),
        }
    }

    /// Takes what came of the action that was asked for last, and says what is to be done
    /// next.
    pub fn advance(&mut self, event: Event) -> (r: Action)
        requires
            old(self)@.wf(),
            old(self)@.accepts(event@),
        ensures
            r@ == old(self)@.answer(event@),
            final(self)@ == old(self)@.after(event@),
            final(self)@.wf(),
            final(self)@.ended == (r@ is Finished),
    {
        match event {
            Event::Failed(e) => self.stop(e),
            Event::Refused(reason) => {
                let e = self.refusal(reason);
                self.stop(e)
            },
            Event::NoSuchEntry => {
                let e = self.exhausted();
                self.stop(e)
            },
            Event::Cancelled(cancelled) => match cancellation(cancelled) {
                Err(e) => self.stop(e),
                Ok(()) => self.move_on(),
            },
            Event::Entry { name, size } => if self.hits(&name) {
                self.size = size;
                self.move_on()
            } else {
                self.index = self.index + 1;
                self.ask()
            },
            Event::ArchiveOpened { entries } => {
                self.entries = entries;
                self.move_on()
            },
            Event::Text(text) => {
                self.text = text;
                self.move_on()
            },
            Event::Parsed(project) => {
                add_project_steps(&mut self.steps, self.mode, &self.config, &project);
                self.move_on()
            },
            Event::EntryOpened { size } => {
                self.size = size;
                self.move_on()
            },
            Event::Done => self.move_on(),
        }
    }
}

/// Starts a download whose archive is read with calls that block, and says what is to be
/// done first.
pub fn download_image(config: DownloadConfig) -> (r: (Download, Action))
    ensures
        r.0@ == DownloadView::start(Mode::Blocking, config@),
        r.0@.wf(),
        r.1@ == ActionView::OpenArchive,
{
    let download = Download::new(Mode::Blocking, config);
    let action = download.request();
    (download, action)
}

/// Starts a download whose archive is read with calls that are awaited, and says what is
/// to be done first.
pub fn download_image_async(config: DownloadConfig) -> (r: (Download, Action))
    ensures
        r.0@ == DownloadView::start(Mode::Async, config@),
        r.0@.wf(),
        r.1@ == ActionView::OpenArchive,
{
    let download = Download::new(Mode::Async, config);
    let action = download.request();
    (download, action)
}

/// An action is seen as what it asks for: nothing of what it holds is changed or left out.
pub proof fn law_actions_are_seen_as_they_are(action: Action)
    ensures
        action is OpenArchive <==> action@ is OpenArchive,
        action is StartRamDownload <==> action@ is StartRamDownload,
        action is EndRamDownload <==> action@ is EndRamDownload,
        action is SetPartitionTable <==> action@ is SetPartitionTable,
        action is CheckCancelled <==> action@ is CheckCancelled,
        action matches Action::Report(text) ==> action@ == ActionView::Report(text@),
        action matches Action::ParseConfig(text) ==> action@ == ActionView::ParseConfig(text@),
        action matches Action::Handshake(text) ==> action@ == ActionView::Handshake(text@),
        action matches Action::OpenEntry(text) ==> action@ == ActionView::OpenEntry(text@),
        action matches Action::Log(text) ==> action@ == ActionView::Log(text@),
        action matches Action::InspectEntry(index) ==> action@ == ActionView::InspectEntry(index as nat),
        action matches Action::ReadEntry(index) ==> action@ == ActionView::ReadEntry(index as nat),
        action matches Action::StartPartitionAbsolute32 { address, size } ==> action@ == (
        ActionView::StartPartitionAbsolute32 { address, size }),
        action matches Action::StartPartitionAbsolute { address, size } ==> action@ == (
        ActionView::StartPartitionAbsolute { address, size }),
        action matches Action::StartPartitionId { id, size } ==> action@ == (
        ActionView::StartPartitionId { id: id@, size }),
        action matches Action::WriteImage { name, chunk_size, size, report_every } ==> action@
            == (ActionView::WriteImage { name: name@, chunk_size, size, report_every }),
        action matches Action::EndPartition { timeout_secs } ==> action@ == (
        ActionView::EndPartition { timeout_secs }),
        action matches Action::Finished(Ok(_)) ==> action@ == ActionView::Finished(Ok(())),
        action matches Action::Finished(Err(e)) ==> action@ == ActionView::Finished(Err(e@)),
{
}

/// An event is seen as what it tells: nothing of what it holds is changed or left out.
pub proof fn law_events_are_seen_as_they_are(event: Event)
    ensures
        event is Done <==> event@ is Done,
        event is NoSuchEntry <==> event@ is NoSuchEntry,
        event matches Event::ArchiveOpened { entries } ==> event@ == (EventView::ArchiveOpened {
            entries,
        }),
        event matches Event::Entry { name: Some(name), size } ==> event@ == (EventView::Entry {
            name: Some(name@),
            size,
        }),
        event matches Event::Entry { name: None, size } ==> event@ == (EventView::Entry {
            name: None,
            size,
        }),
        event matches Event::Text(text) ==> event@ == EventView::Text(text@),
        event matches Event::Parsed(project) ==> event@ == EventView::Parsed(project@),
        event matches Event::EntryOpened { size } ==> event@ == (EventView::EntryOpened { size }),
        event matches Event::Cancelled(cancelled) ==> event@ == EventView::Cancelled(cancelled),
        event matches Event::Refused(reason) ==> event@ == (EventView::Refused(
            CauseView { shown: reason.shown@, debug: reason.debug@ },
        )),
        event matches Event::Failed(e) ==> event@ == EventView::Failed(e@),
{
}

/// What may be told of each thing that is asked for. The device may do what it is asked for
/// or fail, the archive and the parser may give what they are asked for or refuse it, and the
/// user may want to stop or not.
pub proof fn law_every_outcome_can_be_told(
    d: DownloadView,
    e: AxdlErrorView,
    reason: CauseView,
    text: Seq<char>,
    name: Option<Seq<char>>,
    size: u64,
    project: ProjectView,
    entries: usize,
    cancelled: bool,
)
    requires
        d.wf(),
        !d.ended,
    ensures
        ({
            let asked = d.request();
            let device = asked is Handshake || asked is StartRamDownload || asked
                is EndRamDownload || asked is StartPartitionAbsolute32 || asked
                is StartPartitionAbsolute || asked is StartPartitionId || asked is WriteImage
                || asked is EndPartition || asked is SetPartitionTable;
            let archive = asked is OpenArchive || asked is InspectEntry || asked is ReadEntry
                || asked is ParseConfig || asked is OpenEntry;
            &&& device ==> d.accepts(EventView::Done) && d.accepts(EventView::Failed(e))
            &&& archive ==> d.accepts(EventView::Refused(reason))
            &&& asked is Report || asked is Log ==> d.accepts(EventView::Done)
            &&& asked is OpenArchive && d.mode == Mode::Blocking ==> d.accepts(
                EventView::ArchiveOpened { entries: Some(entries) },
            )
            &&& asked is OpenArchive && d.mode == Mode::Async ==> d.accepts(
                EventView::ArchiveOpened { entries: None },
            )
            &&& asked is InspectEntry && d.index < usize::MAX ==> d.accepts(
                EventView::Entry { name, size },
            )
            &&& asked is InspectEntry && d.mode == Mode::Async ==> d.accepts(
                EventView::NoSuchEntry,
            )
            &&& asked is ReadEntry ==> d.accepts(EventView::Text(text))
            &&& asked is ParseConfig ==> d.accepts(EventView::Parsed(project))
            &&& asked is OpenEntry ==> d.accepts(EventView::EntryOpened { size })
            &&& asked is CheckCancelled ==> d.accepts(EventView::Cancelled(cancelled))
        }),
{
}

/// What comes of a refusal. Where the archive cannot be opened, or one of its entries cannot
/// be looked at, the download fails with what the archive gave, and so does one that is
/// awaited where the project description cannot be read. In the other cases it says what could
/// not be done, followed by the reason.
pub proof fn law_refusals(d: DownloadView, reason: CauseView)
    requires
        d.wf(),
        !d.ended,
    ensures
        ({
            let asked = d.request();
            let answer = d.answer(EventView::Refused(reason));
            let blocking = d.mode == Mode::Blocking;
            &&& (asked is OpenArchive || asked is InspectEntry) && blocking ==> answer
                == ActionView::Finished(Err(AxdlErrorView::ImageZipError(reason)))
            &&& (asked is OpenArchive || asked is InspectEntry || asked is ReadEntry) && !blocking
                ==> answer == ActionView::Finished(
                Err(AxdlErrorView::ImageAsyncZipError(reason)),
            )
            &&& asked is ReadEntry && blocking ==> answer == ActionView::Finished(
                Err(
                    AxdlErrorView::ImageError(
                        "failed to read configuration file: "@ + reason.shown,
                    ),
                ),
            )
            &&& asked is ParseConfig ==> answer == ActionView::Finished(
                Err(
                    AxdlErrorView::ImageError(
                        "failed to parse the configuration file: "@ + reason.shown,
                    ),
                ),
            )
            &&& d.accepts(EventView::Refused(reason)) ==> d.after(
                EventView::Refused(reason),
            ).ended
        }),
{
}

} // verus!
