//! The window of the graphical front end: what its buttons do, and what it shows.

use vstd::prelude::*;

use crate::config::DownloadConfig;
use crate::download::ActionView;
use crate::download::DownloadView;
use crate::download::EventView;
use crate::error::AxdlError;
use crate::partition::ImageView;
use crate::plan::Mode;
use crate::progress::Fraction;
use crate::text::join;
use crate::transport::Transport;

verus! {

/// The partition that holds the root file system.
pub const ROOTFS: &'static str = "ROOTFS";

/// The window.
#[derive(Debug)]
pub struct Window {
    device: Option<Transport>,
    device_opened: bool,
    image: bool,
    image_file_opened: bool,
    image_file: String,
    exclude_rootfs: bool,
    downloading: bool,
    description: String,
    progress: Option<Fraction>,
}

/// A [`Window`] with the texts that it holds.
pub struct WindowView {
    /// The device to download to, by the kind of its connection, if there is one.
    pub device: Option<Transport>,
    /// The window shows that the device is open.
    pub device_opened: bool,
    /// There is an image to download.
    pub image: bool,
    /// The window shows that an image was picked.
    pub image_file_opened: bool,
    /// The name of the image that the window shows.
    pub image_file: Seq<char>,
    /// The root file system is to be left alone.
    pub exclude_rootfs: bool,
    /// The window shows that a download is under way.
    pub downloading: bool,
    /// What the window shows as being done.
    pub description: Seq<char>,
    /// How much of it the window shows as done.
    pub progress: Option<Fraction>,
}

impl View for Window {
    type V = WindowView;

    closed spec fn view(&self) -> WindowView {
        WindowView {
            device: self.device,
            device_opened: self.device_opened,
            image: self.image,
            image_file_opened: self.image_file_opened,
            image_file: self.image_file@,
            exclude_rootfs: self.exclude_rootfs,
            downloading: self.downloading,
            description: self.description@,
            progress: self.progress,
        }
    }
}

impl WindowView {
    /// The window after the user has chosen a device with this kind of connection, which
    /// could be opened or not. A device that could be opened takes the place of the one
    /// before; where the new one could not, the one before is kept.
    pub open spec fn chose_device(self, kind: Transport, opened: bool) -> Self {
        WindowView {
            device: if opened {
                Some(kind)
            } else {
                self.device
            },
            device_opened: opened,
            ..self
        }
    }

    /// The window after the user has picked an image, or none.
    pub open spec fn picked_image(self, name: Option<Seq<char>>) -> Self {
        WindowView {
            image: name is Some,
            image_file_opened: name is Some,
            image_file: match name {
                Some(name) => name,
                None => Seq::empty(),
            },
            ..self
        }
    }

    /// A download can be started.
    pub open spec fn ready(self) -> bool {
        self.device is Some && self.image
    }

    /// The partitions that a download leaves alone: those of the comma separated list, and
    /// the one with the root file system where the user has said so.
    pub open spec fn exclusions(self, list: Seq<char>) -> Seq<Seq<char>> {
        crate::text::comma_list(list) + (if self.exclude_rootfs {
            seq![ROOTFS@]
        } else {
            Seq::empty()
        })
    }

    /// The window after the user has asked for a download.
    pub open spec fn asked_for_download(self) -> Self {
        WindowView { downloading: self.downloading || self.ready(), ..self }
    }

    /// The window after a download, and the reason for which it failed if it did.
    pub open spec fn finished(self, failure: Option<Seq<char>>) -> Self {
        WindowView {
            downloading: false,
            description: match failure {
                Some(reason) => "Failed to download image file: "@ + reason,
                None => "Done"@,
            },
            progress: None,
            ..self
        }
    }
}

impl Window {
    /// A window in which nothing was done.
    pub fn new() -> (r: Self)
        ensures
            r@ == (WindowView {
                device: None,
                device_opened: false,
                image: false,
                image_file_opened: false,
                image_file: Seq::empty(),
                exclude_rootfs: false,
                downloading: false,
                description: Seq::empty(),
                progress: None,
            }),
    {
        Window {
            device: None,
            device_opened: false,
            image: false,
            image_file_opened: false,
            image_file: String::new(),
            exclude_rootfs: false,
            downloading: false,
            description: String::new(),
            progress: None,
        }
    }

    /// The user has chosen a device with this kind of connection, which could be opened or
    /// not.
    pub fn open_device(&mut self, kind: Transport, opened: bool)
        ensures
            final(self)@ == old(self)@.chose_device(kind, opened),
    {
        if opened {
            self.device = Some(kind);
        }
        self.device_opened = opened;
    }

    /// The user has picked the image with this name, or none.
    pub fn open_image(&mut self, name: Option<String>)
        ensures
            final(self)@ == old(self)@.picked_image(
                match name {
                    Some(n) => Some(n@),
                    None => None,
                },
            ),
    {
        match name {
            Some(name) => {
                self.image = true;
                self.image_file_opened = true;
                self.image_file = name;
            },
            None => {
                self.image = false;
                self.image_file_opened = false;
                self.image_file = String::new();
            },
        }
    }

    /// The user has said whether the root file system is to be left alone.
    pub fn set_exclude_rootfs(&mut self, on: bool)
        ensures
            final(self)@ == (WindowView { exclude_rootfs: on, ..old(self)@ }),
    {
        self.exclude_rootfs = on;
    }

    /// The user has asked for a download that leaves the partitions of a comma separated
    /// list alone, and the root file system too where they have said so. Gives out how it is
    /// to be done, or nothing where there is no device or no image.
    pub fn download(&mut self, exclude_partitions: &str) -> (r: Option<DownloadConfig>)
        ensures
            final(self)@ == old(self)@.asked_for_download(),
            r is Some <==> old(self)@.device is Some && old(self)@.image,
            r is None ==> final(self)@ == old(self)@,
            r is Some ==> final(self)@ == (WindowView { downloading: true, ..old(self)@ }),
            match r {
                Some(config) => old(self)@.ready() && config@ == old(self)@.exclusions(
                    exclude_partitions@,
                ),
                None => !old(self)@.ready(),
            },
    {
        if self.device.is_none() || !self.image {
            return None;
        }
        self.downloading = true;
        let mut config = DownloadConfig::from_comma_list(exclude_partitions);
        let ghost listed = config@;
        if self.exclude_rootfs {
            config.exclude_partitions.push(ROOTFS.to_owned());
        }
        assert(config@ =~= listed + (if self.exclude_rootfs {
            seq![ROOTFS@]
        } else {
            Seq::empty()
        }));
        Some(config)
    }

    /// What is being done, and how much of it is done.
    pub fn set_progress(&mut self, description: &str, progress: Option<Fraction>)
        ensures
            final(self)@ == (WindowView {
                description: description@,
                progress,
                ..old(self)@
            }),
    {
        self.description = description.to_owned();
        self.progress = progress;
    }

    /// The download has ended, with this failure if it failed.
    pub fn finish(&mut self, failure: Option<String>)
        ensures
            final(self)@ == old(self)@.finished(
                match failure {
                    Some(reason) => Some(reason@),
                    None => None,
                },
            ),
    {
        self.downloading = false;
        self.description =
        match failure {
            Some(reason) => join("Failed to download image file: ", reason.as_str()),
            None => "Done".to_owned(),
        };
        self.progress = None;
    }

    /// The download has ended with this result. A failure is shown in its debug form.
    pub fn download_ended(&mut self, result: Result<(), AxdlError>)
        ensures
            final(self)@ == old(self)@.finished(
                match result {
                    Ok(()) => None,
                    Err(e) => Some(e@.debug_text()),
                },
            ),
    {
        match result {
            Ok(()) => self.finish(None),
            Err(e) => self.finish(Some(e.debug_text())),
        }
    }

    /// The device to download to, by the kind of its connection, if there is one.
    pub fn device(&self) -> (r: Option<Transport>)
        ensures
            r == self@.device,
    {
        self.device
    }

    /// Whether the window shows that the device is open.
    pub fn device_opened(&self) -> (r: bool)
        ensures
            r == self@.device_opened,
    {
        self.device_opened
    }

    /// Whether the window shows that an image was picked.
    pub fn image_file_opened(&self) -> (r: bool)
        ensures
            r == self@.image_file_opened,
    {
        self.image_file_opened
    }

    /// The name of the image that the window shows.
    pub fn image_file(&self) -> (r: &str)
        ensures
            r@ == self@.image_file,
    {
        self.image_file.as_str()
    }

    /// Whether the root file system is to be left alone.
    pub fn exclude_rootfs(&self) -> (r: bool)
        ensures
            r == self@.exclude_rootfs,
    {
        self.exclude_rootfs
    }

    /// Whether the window shows that a download is under way.
    pub fn downloading(&self) -> (r: bool)
        ensures
            r == self@.downloading,
    {
        self.downloading
    }

    /// What the window shows as being done.
    pub fn description(&self) -> (r: &str)
        ensures
            r@ == self@.description,
    {
        self.description.as_str()
    }

    /// How much of it the window shows as done.
    pub fn progress(&self) -> (r: Option<Fraction>)
        ensures
            r == self@.progress,
    {
        self.progress
    }
}

/// A download that was started shows until it has ended, whatever comes of it, and leaves
/// the device and the image in place, so that it can be started again.
pub proof fn law_download_can_be_repeated(w: WindowView, failure: Option<Seq<char>>)
    requires
        w.ready(),
    ensures
        w.asked_for_download().downloading,
        !w.asked_for_download().finished(failure).downloading,
        w.asked_for_download().finished(failure).ready(),
{
}

/// Where the user has said that the root file system is to be left alone, no image of that
/// name is selected, whatever the case of its letters and whatever else is left alone.
pub proof fn law_rootfs_is_left_alone(w: WindowView, list: Seq<char>, image: ImageView)
    requires
        w.exclude_rootfs,
        crate::text::same_ignoring_ascii_case(image.name, ROOTFS@),
    ensures
        crate::config::excluded(w.exclusions(list), image.name),
        !crate::config::selected(w.exclusions(list), image),
{
    let names = w.exclusions(list);
    crate::text::law_same_ignoring_case_is_an_equivalence(image.name, ROOTFS@, image.name);
    assert(names[names.len() - 1] == ROOTFS@);
    assert(crate::text::same_ignoring_ascii_case(names[names.len() - 1], image.name));
}

/// Where the user has said that the root file system is to be left alone, the download that
/// the window gives out never asks to send its contents, whatever is answered.
pub proof fn law_rootfs_is_not_sent(w: WindowView, list: Seq<char>, events: Seq<EventView>)
    requires
        w.exclude_rootfs,
        crate::laws::course::answers(
            DownloadView::start(Mode::Async, w.exclusions(list)),
            events,
        ),
    ensures
        crate::laws::course::run(
            DownloadView::start(Mode::Async, w.exclusions(list)),
            events,
        ).request() matches ActionView::WriteImage { name, .. }
            ==> !crate::text::same_ignoring_ascii_case(name, ROOTFS@),
{
    let names = w.exclusions(list);
    crate::laws::contents::law_excluded_images_are_not_sent(Mode::Async, names, events);
    let request = crate::laws::course::run(
        DownloadView::start(Mode::Async, names),
        events,
    ).request();
    if let ActionView::WriteImage { name, .. } = request {
        reveal_strlit("ROOTFS");
        reveal_strlit("FDL");
        reveal_strlit("FDL1");
        reveal_strlit("FDL2");
        law_rootfs_is_all_that_is_added(w, list, name);
        crate::text::law_same_ignoring_case_is_an_equivalence(name, ROOTFS@, name);
    }
}

/// To leave the root file system alone adds its name to those of the list, and changes
/// nothing of what is left alone otherwise.
pub proof fn law_rootfs_is_all_that_is_added(w: WindowView, list: Seq<char>, name: Seq<char>)
    ensures
        crate::config::excluded(w.exclusions(list), name) == (crate::config::excluded(
            crate::text::comma_list(list),
            name,
        ) || (w.exclude_rootfs && crate::text::same_ignoring_ascii_case(ROOTFS@, name))),
{
    let names = w.exclusions(list);
    let listed = crate::text::comma_list(list);
    if crate::config::excluded_by_user(listed, name) {
        let i = choose|i: int|
            0 <= i < listed.len() && crate::text::same_ignoring_ascii_case(
                #[trigger] listed[i],
                name,
            );
        assert(names[i] == listed[i]);
    }
    if w.exclude_rootfs {
        assert(names[names.len() - 1] == ROOTFS@);
    }
}

/// To pick no image takes the image away. To fail to open a device does not take away the
/// one that was there, and to open one puts it in its place, whatever kind either is of.
pub proof fn law_what_a_window_keeps(w: WindowView, kind: Transport)
    ensures
        !w.picked_image(None).ready(),
        w.chose_device(kind, false).device == w.device,
        w.chose_device(kind, false).ready() == w.ready(),
        !w.chose_device(kind, false).device_opened,
        w.chose_device(kind, true).device == Some(kind),
        w.chose_device(kind, true).device_opened,
        w.image ==> w.chose_device(kind, true).ready(),
{
}

/// Only a choice of a device changes which device a window works with.
pub proof fn law_device_stays(
    w: WindowView,
    name: Option<Seq<char>>,
    failure: Option<Seq<char>>,
)
    ensures
        w.picked_image(name).device == w.device,
        w.asked_for_download().device == w.device,
        w.finished(failure).device == w.device,
{
}

/// A window without a device, or without an image, has nothing to download: asked for a
/// download it stays as it is. With both it shows a download, and nothing else changes.
pub proof fn law_download_needs_a_device_and_an_image(w: WindowView)
    ensures
        w.device is None ==> !w.ready() && w.asked_for_download() == w,
        !w.image ==> !w.ready() && w.asked_for_download() == w,
        w.device is Some && w.image ==> w.ready() && w.asked_for_download() == (WindowView {
            downloading: true,
            ..w
        }),
{
}

/// The user's choices change what they are about and nothing else.
pub proof fn law_choices(w: WindowView, kind: Transport, opened: bool, name: Seq<char>)
    ensures
        w.chose_device(kind, opened) == (WindowView {
            device: w.chose_device(kind, opened).device,
            device_opened: opened,
            ..w
        }),
        opened ==> w.chose_device(kind, opened).device == Some(kind),
        !opened ==> w.chose_device(kind, opened).device == w.device,
        w.picked_image(Some(name)) == (WindowView {
            image: true,
            image_file_opened: true,
            image_file: name,
            ..w
        }),
        w.picked_image(None) == (WindowView {
            image: false,
            image_file_opened: false,
            image_file: Seq::empty(),
            ..w
        }),
{
}

/// At the end of a download the window shows no download and no progress any more, but what
/// came of it: that it is done, or that it failed and why. Nothing else changes.
pub proof fn law_what_an_ended_download_shows(w: WindowView, reason: Seq<char>)
    ensures
        w.finished(None) == (WindowView {
            downloading: false,
            description: "Done"@,
            progress: None,
            ..w
        }),
        w.finished(Some(reason)) == (WindowView {
            downloading: false,
            description: "Failed to download image file: "@ + reason,
            progress: None,
            ..w
        }),
{
}

/// The partitions that a download leaves alone are those of the list, in their order, and
/// behind them `ROOTFS` exactly if the user has said so.
pub proof fn law_exclusions(w: WindowView, list: Seq<char>)
    ensures
        w.exclude_rootfs ==> w.exclusions(list) == crate::text::comma_list(list).push("ROOTFS"@),
        !w.exclude_rootfs ==> w.exclusions(list) == crate::text::comma_list(list),
{
    assert(w.exclude_rootfs ==> w.exclusions(list) =~= crate::text::comma_list(list).push(
        "ROOTFS"@,
    ));
    assert(!w.exclude_rootfs ==> w.exclusions(list) =~= crate::text::comma_list(list));
}

} // verus!
