//! Telling the user how far a download is, and asking whether it is to be stopped.

use vstd::prelude::*;

use crate::error::AxdlError;
use crate::error::AxdlErrorView;

verus! {

/// How much of a whole is done.
#[derive(Debug, Clone, Copy, PartialEq, Eq, Structural)]
pub struct Fraction {
    pub part: u64,
    pub whole: u64,
}

/// What comes of asking whether a download is to be stopped.
pub fn cancellation(cancelled: bool) -> (r: Result<(), AxdlError>)
    ensures
        cancelled ==> r is Err && r->Err_0@ == AxdlErrorView::UserCancelled,
        !cancelled ==> r is Ok,
{
    if cancelled {
        Err(AxdlError::UserCancelled)
    } else {
        Ok(())
    }
}

/// The user, as a download sees them. A front end implements this.
pub trait DownloadProgress {
    /// Whether the user wants to stop.
    fn is_cancelled(&self) -> bool;

    /// Tells what is being done, and how much of it is done where that is known.
    fn report_progress(&mut self, description: &str, progress: Option<Fraction>);

    /// Asks whether the user wants to stop, and gives an error exactly if the answer is that
    /// they do.
    fn check_is_cancelled(&self) -> (r: Result<(), AxdlError>)
        ensures
            exists|cancelled: bool| #[trigger]
                call_ensures(Self::is_cancelled, (self,), cancelled) && (r is Err) == cancelled,
            r matches Err(e) ==> e@ == AxdlErrorView::UserCancelled,
    {
        cancellation(self.is_cancelled())
    }
}

/// What is to be done on the terminal.
#[derive(Debug)]
pub enum BarUpdate {
    /// Move the progress bar, and put a new one on the terminal first if `create` is set.
    Move { create: bool, to: Fraction },
    /// Write the description to the log, and complete the progress bar first if `finish`
    /// is set.
    Log { finish: bool, text: String },
}

/// A [`BarUpdate`] with the text that it holds.
pub enum BarUpdateView {
    Move { create: bool, to: Fraction },
    Log { finish: bool, text: Seq<char> },
}

impl View for BarUpdate {
    type V = BarUpdateView;

    open spec fn view(&self) -> BarUpdateView {
        match *self {
            BarUpdate::Move { create, to } => BarUpdateView::Move { create, to },
            BarUpdate::Log { finish, text } => BarUpdateView::Log { finish, text: text@ },
        }
    }
}

/// The progress of a download on a terminal: a progress bar while it is known how much is
/// done, and lines of the log otherwise. It cannot be stopped.
#[derive(Debug)]
pub struct CliProgress {
    bar: bool,
    last_description: String,
    update: Option<BarUpdate>,
}

/// A [`CliProgress`] with the texts that it holds.
pub struct CliProgressView {
    /// There is a progress bar on the terminal.
    pub bar: bool,
    /// What was told last.
    pub last_description: Seq<char>,
    /// What is still to be done on the terminal.
    pub update: Option<BarUpdateView>,
}

impl View for CliProgress {
    type V = CliProgressView;

    closed spec fn view(&self) -> CliProgressView {
        CliProgressView {
            bar: self.bar,
            last_description: self.last_description@,
            update: match self.update {
                Some(update) => Some(update@),
                None => None,
            },
        }
    }
}

impl CliProgressView {
    /// The state after a report: there is a progress bar exactly if it is known how much is
    /// done, and the one that is there is moved on, created or completed accordingly.
    pub open spec fn reported(self, description: Seq<char>, progress: Option<Fraction>) -> Self {
        CliProgressView {
            bar: progress is Some,
            last_description: description,
            update: Some(
                match progress {
                    Some(to) => BarUpdateView::Move { create: !self.bar, to },
                    None => BarUpdateView::Log { finish: self.bar, text: description },
                },
            ),
        }
    }
}

impl CliProgress {
    /// A terminal on which nothing was told.
    pub fn new() -> (r: Self)
        ensures
            r@ == (CliProgressView { bar: false, last_description: Seq::empty(), update: None }),
    {
        CliProgress { bar: false, last_description: String::new(), update: None }
    }

    /// What was told last.
    pub fn last_description(&self) -> (r: &str)
        ensures
            r@ == self@.last_description,
    {
        self.last_description.as_str()
    }

    /// Takes what is to be done on the terminal since the last report.
    pub fn take_update(&mut self) -> (r: Option<BarUpdate>)
        ensures
            match r {
                Some(update) => old(self)@.update == Some(update@),
                None => old(self)@.update is None,
            },
            final(self)@ == (CliProgressView { update: None, ..old(self)@ }),
    {
        self.update.take()
    }
}

impl DownloadProgress for CliProgress {
    fn is_cancelled(&self) -> (r: bool)
        ensures
            !r,
    {
        false
    }

    fn report_progress(&mut self, description: &str, progress: Option<Fraction>)
        ensures
            final(self)@ == old(self)@.reported(description@, progress),
    {
        match progress {
            Some(to) => {
                self.update = Some(BarUpdate::Move { create: !self.bar, to });
                self.bar = true;
            },
            None => {
                self.update = Some(
                    BarUpdate::Log { finish: self.bar, text: description.to_owned() },
                );
                self.bar = false;
            },
        }
        self.last_description = description.to_owned();
    }
}

/// The progress of a download in a window, which has a button to stop it.
#[derive(Debug)]
pub struct GuiProgress {
    cancelled: bool,
    description: String,
    progress: Option<Fraction>,
}

/// A [`GuiProgress`] with the text that it holds.
pub struct GuiProgressView {
    /// The user wants to stop.
    pub cancelled: bool,
    /// What the window shows as being done.
    pub description: Seq<char>,
    /// How much of it the window shows as done.
    pub progress: Option<Fraction>,
}

impl View for GuiProgress {
    type V = GuiProgressView;

    closed spec fn view(&self) -> GuiProgressView {
        GuiProgressView {
            cancelled: self.cancelled,
            description: self.description@,
            progress: self.progress,
        }
    }
}

impl GuiProgress {
    /// A window that shows nothing, and a user who does not want to stop.
    pub fn new() -> (r: Self)
        ensures
            r@ == (GuiProgressView {
                cancelled: false,
                description: Seq::empty(),
                progress: None,
            }),
    {
        GuiProgress { cancelled: false, description: String::new(), progress: None }
    }

    /// Whether the user wants to stop from now on.
    pub fn set_cancelled(&mut self, cancelled: bool)
        ensures
            final(self)@ == (GuiProgressView { cancelled, ..old(self)@ }),
    {
        self.cancelled = cancelled;
    }

    /// What the window shows as being done.
    pub fn description(&self) -> (r: &str)
        ensures
            r@ == self@.description,
    {
        self.description.as_str()
    }

    /// How much of it the window shows as done.
    pub fn progress(&self) -> (r: Option<Fraction>)
        ensures
            r == self@.progress,
    {
        self.progress
    }
}

impl DownloadProgress for GuiProgress {
    fn is_cancelled(&self) -> (r: bool)
        ensures
            r == self@.cancelled,
    {
        self.cancelled
    }

    fn report_progress(&mut self, description: &str, progress: Option<Fraction>)
        ensures
            final(self)@ == (GuiProgressView {
                description: description@,
                progress,
                ..old(self)@
            }),
    {
        self.description = description.to_owned();
        self.progress = progress;
    }
}

/// A progress bar is created only when there is none, and completed only when there is
/// one: of two reports in a row, the second one creates a bar exactly if the first one left
/// none behind and it is known how much is done.
pub proof fn law_one_progress_bar(
    before: CliProgressView,
    first: Seq<char>,
    first_progress: Option<Fraction>,
    second: Seq<char>,
    second_progress: Option<Fraction>,
)
    ensures
        before.reported(first, first_progress).reported(second, second_progress).update == Some(
            match second_progress {
                Some(to) => BarUpdateView::Move { create: first_progress is None, to },
                None => BarUpdateView::Log { finish: first_progress is Some, text: second },
            },
        ),
{
}

/// What a report does on the terminal. Where it is known how much is done there is a progress
/// bar afterwards, which stands there, and it is new exactly if there was none. Otherwise the
/// description is logged, and a bar that was there is completed and gone.
pub proof fn law_report(before: CliProgressView, text: Seq<char>, to: Fraction)
    ensures
        before.reported(text, Some(to)).bar,
        before.reported(text, Some(to)).update == Some(
            BarUpdateView::Move { create: !before.bar, to },
        ),
        before.reported(text, Some(to)).last_description == text,
        !before.reported(text, None).bar,
        before.reported(text, None).update == Some(
            BarUpdateView::Log { finish: before.bar, text },
        ),
        before.reported(text, None).last_description == text,
{
}

} // verus!
