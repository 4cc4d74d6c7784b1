//! What the device expects, and that the steps of a download keep to it.

use vstd::prelude::*;

use crate::partition::BlockView;
use crate::partition::ImageView;
use crate::partition::ProjectView;
use crate::plan::Mode;
use crate::plan::StepView;
use crate::plan::WriteImagePartitionView;

verus! {

/// What the device and the archive are in the middle of.
pub enum Link {
    /// A step was taken that the device does not expect.
    Broken,
    /// The download has given up.
    Stopped,
    /// The download goes on.
    Up {
        /// The device has introduced itself.
        greeted: bool,
        /// Images for the device's memory are being sent.
        ram: bool,
        /// An entry of the archive has been opened for the next transfer.
        entry: bool,
        /// Where the contents that are being sent go.
        target: Option<WriteImagePartitionView>,
        /// The contents have been sent.
        written: bool,
        /// The user has been asked since the last transfer.
        asked: bool,
        /// The device has the partition table.
        table: bool,
    },
}

impl Link {
    /// Before anything was sent.
    pub open spec fn fresh() -> Self {
        Link::Up {
            greeted: false,
            ram: false,
            entry: false,
            target: None,
            written: false,
            asked: false,
            table: false,
        }
    }

    /// Nothing was begun that has not been brought to its end.
    pub open spec fn at_rest(self) -> bool {
        match self {
            Link::Up { greeted, ram, entry, target, .. } => greeted && !ram && !entry
                && target is None,
            _ => false,
        }
    }

    /// The link after a step.
    pub open spec fn take(self, step: StepView) -> Self {
        match self {
            Link::Broken => Link::Broken,
            Link::Stopped => Link::Stopped,
            Link::Up { greeted, ram, entry, target, written, asked, table } => match step {
                StepView::Fail(_) => Link::Stopped,
                StepView::Report(_) | StepView::Log(_) => self,
                StepView::CheckCancelled => if target is None {
                    Link::Up { greeted, ram, entry, target, written, asked: true, table }
                } else {
                    Link::Broken
                },
                StepView::Handshake(_) => if !ram && target is None {
                    Link::Up { greeted: true, ram, entry, target, written, asked, table }
                } else {
                    Link::Broken
                },
                StepView::StartRamDownload => if greeted && !ram && target is None {
                    Link::Up { greeted, ram: true, entry, target, written, asked, table }
                } else {
                    Link::Broken
                },
                StepView::EndRamDownload => if ram && target is None {
                    Link::Up { greeted, ram: false, entry, target, written, asked, table }
                } else {
                    Link::Broken
                },
                StepView::OpenEntry { .. } | StepView::SearchEntry { .. } => if !entry
                    && target is None {
                    Link::Up { greeted, ram, entry: true, target, written, asked, table }
                } else {
                    Link::Broken
                },
                StepView::StartPartition(t) => if greeted && entry && target is None && (if t
                    is PartitionId {
                    !ram && table && asked
                } else {
                    ram
                }) {
                    Link::Up {
                        greeted,
                        ram,
                        entry,
                        target: Some(t),
                        written: false,
                        asked,
                        table,
                    }
                } else {
                    Link::Broken
                },
                StepView::WriteImage { .. } => if entry && target is Some && !written {
                    Link::Up { greeted, ram, entry, target, written: true, asked, table }
                } else {
                    Link::Broken
                },
                StepView::EndPartition { .. } => if target is Some && written {
                    Link::Up {
                        greeted,
                        ram,
                        entry: false,
                        target: None,
                        written,
                        asked: false,
                        table,
                    }
                } else {
                    Link::Broken
                },
                StepView::SetPartitionTable => if greeted && !ram && target is None {
                    Link::Up { greeted, ram, entry, target, written, asked, table: true }
                } else {
                    Link::Broken
                },
                _ => Link::Broken,
            },
        }
    }

    /// The link after a number of steps.
    pub open spec fn take_all(self, steps: Seq<StepView>) -> Self
        decreases steps.len(),
    {
        if steps.len() == 0 {
            self
        } else {
            self.take_all(steps.drop_last()).take(steps.last())
        }
    }
}

pub(crate) proof fn lemma_take_push(link: Link, steps: Seq<StepView>, step: StepView)
    ensures
        link.take_all(steps.push(step)) == link.take_all(steps).take(step),
{
    assert(steps.push(step).drop_last() =~= steps);
}

proof fn lemma_take_concat(link: Link, a: Seq<StepView>, b: Seq<StepView>)
    ensures
        link.take_all(a + b) == link.take_all(a).take_all(b),
    decreases b.len(),
{
    if b.len() == 0 {
        assert(a + b =~= a);
    } else {
        lemma_take_concat(link, a, b.drop_last());
        assert((a + b).drop_last() =~= a + b.drop_last());
        assert((a + b).last() == b.last());
    }
}

proof fn lemma_stuck(steps: Seq<StepView>)
    ensures
        Link::Stopped.take_all(steps) == Link::Stopped,
        Link::Broken.take_all(steps) == Link::Broken,
    decreases steps.len(),
{
    if steps.len() > 0 {
        lemma_stuck(steps.drop_last());
    }
}

proof fn lemma_take_1(link: Link, a: StepView)
    ensures
        link.take_all(seq![a]) == link.take(a),
{
    assert(seq![a].drop_last() =~= Seq::<StepView>::empty());
    assert(link.take_all(Seq::<StepView>::empty()) == link);
}

proof fn lemma_take_2(link: Link, a: StepView, b: StepView)
    ensures
        link.take_all(seq![a, b]) == link.take(a).take(b),
{
    lemma_take_1(link, a);
    assert(seq![a, b].drop_last() =~= seq![a]);
}

proof fn lemma_take_3(link: Link, a: StepView, b: StepView, c: StepView)
    ensures
        link.take_all(seq![a, b, c]) == link.take(a).take(b).take(c),
{
    lemma_take_2(link, a, b);
    assert(seq![a, b, c].drop_last() =~= seq![a, b]);
}

/// A link that rests, has no entry open and has sent the partition table or not.
spec fn resting(link: Link, table: bool) -> bool {
    link.at_rest() && link->table == table
}

proof fn lemma_fdl_stage(link: Link, mode: Mode, images: Seq<ImageView>, name: Seq<char>, wide: bool)
    requires
        resting(link, false),
    ensures
        ({
            let end = link.take_all(crate::plan::fdl_stage(mode, images, name, wide));
            end == Link::Stopped || resting(end, false)
        }),
{
    let steps = crate::plan::fdl_stage(mode, images, name, wide);
    match crate::partition::find_image(images, name) {
        None => {
            lemma_take_1(link, steps[0]);
            assert(steps =~= seq![steps[0]]);
        },
        Some(image) => match image.file {
            None => {
                lemma_take_1(link, steps[0]);
                assert(steps =~= seq![steps[0]]);
            },
            Some(file) => match image.block {
                BlockView::Absolute(address) => {
                    let first = seq![steps[0], steps[1]];
                    let middle = crate::plan::transfer(
                        crate::plan::fdl_target(wide, address),
                        name,
                        crate::plan::FDL_CHUNK_SIZE,
                        None,
                    );
                    let last = seq![StepView::EndRamDownload];
                    assert(steps =~= first + middle + last);
                    lemma_take_concat(link, first + middle, last);
                    lemma_take_concat(link, first, middle);
                    lemma_take_2(link, steps[0], steps[1]);
                    let a = link.take_all(first);
                    lemma_take_3(a, middle[0], middle[1], middle[2]);
                    assert(middle =~= seq![middle[0], middle[1], middle[2]]);
                    lemma_take_1(a.take_all(middle), last[0]);
                },
                _ => match mode {
                    Mode::Blocking => {
                        lemma_take_2(link, steps[0], steps[1]);
                        assert(steps =~= seq![steps[0], steps[1]]);
                    },
                    Mode::Async => {
                        lemma_take_1(link, steps[0]);
                        assert(steps =~= seq![steps[0]]);
                    },
                },
            },
        },
    }
}

proof fn lemma_fdl_stages(link: Link, mode: Mode, project: ProjectView)
    requires
        resting(link, false),
    ensures
        ({
            let end = link.take_all(crate::plan::fdl_stages(mode, project));
            end == Link::Stopped || resting(end, false)
        }),
{
    if mode == Mode::Async || project.two_level_fdl {
        let a = crate::plan::fdl_stage(mode, project.images, "FDL1"@, false);
        let b = seq![StepView::Handshake("fdl1"@)];
        let c = crate::plan::fdl_stage(mode, project.images, "FDL2"@, true);
        lemma_take_concat(link, a + b, c);
        lemma_take_concat(link, a, b);
        lemma_fdl_stage(link, mode, project.images, "FDL1"@, false);
        lemma_take_1(link.take_all(a), b[0]);
        if link.take_all(a) == Link::Stopped {
            lemma_stuck(c);
        } else {
            lemma_fdl_stage(link.take_all(a + b), mode, project.images, "FDL2"@, true);
        }
    } else {
        let a = crate::plan::fdl_stage(mode, project.images, "FDL"@, false);
        let b = seq![StepView::Handshake("fdl2"@)];
        lemma_take_concat(link, a, b);
        lemma_fdl_stage(link, mode, project.images, "FDL"@, false);
        lemma_take_1(link.take_all(a), b[0]);
    }
}

proof fn lemma_image_stage(link: Link, mode: Mode, image: ImageView)
    requires
        resting(link, true),
    ensures
        ({
            let end = link.take_all(crate::plan::image_stage(mode, image));
            end == Link::Stopped || resting(end, true)
        }),
{
    let steps = crate::plan::image_stage(mode, image);
    let head = seq![steps[0], steps[1]];
    let rest = steps.skip(2);
    assert(steps =~= head + rest);
    lemma_take_concat(link, head, rest);
    lemma_take_2(link, steps[0], steps[1]);
    let a = link.take_all(head);
    match image.file {
        None => {
            assert(rest =~= seq![rest[0]]);
            lemma_take_1(a, rest[0]);
        },
        Some(file) => match image.block {
            BlockView::Partition(id) => {
                let entry = seq![rest[0]];
                let tail = rest.skip(1);
                assert(rest =~= entry + tail);
                assert(tail =~= seq![tail[0], tail[1], tail[2]]);
                lemma_take_concat(a, entry, tail);
                lemma_take_1(a, rest[0]);
                lemma_take_3(a.take_all(entry), tail[0], tail[1], tail[2]);
            },
            _ => match mode {
                Mode::Blocking => {
                    assert(rest =~= seq![rest[0], rest[1]]);
                    lemma_take_2(a, rest[0], rest[1]);
                },
                Mode::Async => {
                    assert(rest =~= seq![rest[0]]);
                    lemma_take_1(a, rest[0]);
                },
            },
        },
    }
}

proof fn lemma_image_stages(
    link: Link,
    mode: Mode,
    names: Seq<Seq<char>>,
    images: Seq<ImageView>,
)
    requires
        resting(link, true),
    ensures
        ({
            let end = link.take_all(crate::plan::image_stages(mode, names, images));
            end == Link::Stopped || resting(end, true)
        }),
    decreases images.len(),
{
    if images.len() > 0 {
        let before = crate::plan::image_stages(mode, names, images.drop_last());
        lemma_image_stages(link, mode, names, images.drop_last());
        if crate::config::selected(names, images.last()) {
            let stage = crate::plan::image_stage(mode, images.last());
            lemma_take_concat(link, before, stage);
            if link.take_all(before) == Link::Stopped {
                lemma_stuck(stage);
            } else {
                lemma_image_stage(link.take_all(before), mode, images.last());
            }
        }
    } else {
        assert(crate::plan::image_stages(mode, names, images) =~= Seq::<StepView>::empty());
    }
}

proof fn lemma_logs(link: Link, steps: Seq<StepView>)
    requires
        forall|i: int| 0 <= i < steps.len() ==> #[trigger] steps[i] is Log,
    ensures
        link.take_all(steps) == link,
    decreases steps.len(),
{
    if steps.len() > 0 {
        lemma_logs(link, steps.drop_last());
        assert(steps.last() is Log);
    }
}

proof fn lemma_greeting()
    ensures
        resting(Link::fresh().take_all(crate::plan::greeting()), false),
{
    let steps = crate::plan::greeting();
    let a = seq![steps[0], steps[1], steps[2]];
    lemma_take_3(Link::fresh(), steps[0], steps[1], steps[2]);
    lemma_take_push(Link::fresh(), a, steps[3]);
    assert(steps =~= a.push(steps[3]));
}

/// The device is never sent what it does not expect. It introduces itself before anything
/// is sent to it. What is begun is brought to its end before something else is begun: a
/// transfer to its memory lies between the start and the end of a memory download, a
/// transfer to a partition lies outside of one, behind the partition table, and the user
/// is asked before it. Each transfer has an entry of the archive of its own. A download
/// that does not give up leaves nothing open.
pub proof fn law_protocol(mode: Mode, names: Seq<Seq<char>>, project: ProjectView)
    ensures
        ({
            let end = Link::fresh().take_all(
                crate::plan::project_steps(mode, names, project),
            );
            end == Link::Stopped || end.at_rest()
        }),
{
    let g = crate::plan::greeting();
    let f = crate::plan::fdl_stages(mode, project);
    let t = crate::plan::table_stage();
    let l = crate::plan::log_stage(names, project.images);
    let s = crate::plan::image_stages(mode, names, project.images);
    let fresh = Link::fresh();
    lemma_take_concat(fresh, g + f + t + l, s);
    lemma_take_concat(fresh, g + f + t, l);
    lemma_take_concat(fresh, g + f, t);
    lemma_take_concat(fresh, g, f);
    lemma_greeting();
    let a = fresh.take_all(g);
    lemma_fdl_stages(a, mode, project);
    let b = a.take_all(f);
    lemma_take_2(b, t[0], t[1]);
    assert(t =~= seq![t[0], t[1]]);
    let c = b.take_all(t);
    lemma_logs(c, l);
    if b == Link::Stopped {
        lemma_stuck(s);
    } else {
        lemma_image_stages(c, mode, names, project.images);
    }
}

/// The same of a download that has come part of the way.
pub proof fn law_protocol_so_far(
    mode: Mode,
    names: Seq<Seq<char>>,
    project: ProjectView,
    taken: int,
)
    requires
        0 <= taken <= crate::plan::project_steps(mode, names, project).len(),
    ensures
        Link::fresh().take_all(
            crate::plan::project_steps(mode, names, project).take(taken),
        ) != Link::Broken,
{
    let steps = crate::plan::project_steps(mode, names, project);
    law_protocol(mode, names, project);
    lemma_take_concat(Link::fresh(), steps.take(taken), steps.skip(taken));
    assert(steps =~= steps.take(taken) + steps.skip(taken));
    lemma_stuck(steps.skip(taken));
}

pub(crate) proof fn lemma_stopped_has_fail(steps: Seq<StepView>)
    requires
        forall|i: int| 0 <= i < steps.len() ==> !(#[trigger] steps[i] is Fail),
    ensures
        Link::fresh().take_all(steps) != Link::Stopped,
    decreases steps.len(),
{
    if steps.len() > 0 {
        assert forall|i: int| 0 <= i < steps.drop_last().len() implies !(
        #[trigger] steps.drop_last()[i] is Fail) by {
            assert(!(steps[i] is Fail));
        }
        lemma_stopped_has_fail(steps.drop_last());
        assert(!(steps[steps.len() - 1] is Fail));
    }
}

/// The step gets hold of an entry of the archive for a transfer.
pub open spec fn is_entry_step(step: StepView) -> bool {
    step is OpenEntry || step is SearchEntry
}

/// The entry that the step is to get hold of.
pub open spec fn wanted_file(step: StepView) -> Seq<char> {
    match step {
        StepView::OpenEntry { file, missing } => file,
        StepView::SearchEntry { file } => file,
        _ => Seq::empty(),
    }
}

pub(crate) proof fn lemma_entry_open(steps: Seq<StepView>)
    requires
        Link::fresh().take_all(steps) is Up,
        Link::fresh().take_all(steps)->entry,
    ensures
        exists|i: int|
            0 <= i < steps.len() && #[trigger] is_entry_step(steps[i]) && forall|j: int|
                i < j < steps.len() ==> !(#[trigger] steps[j] is EndPartition),
    decreases steps.len(),
{
    if steps.len() > 0 {
        let before = steps.drop_last();
        if is_entry_step(steps.last()) {
            assert(is_entry_step(steps[steps.len() - 1]));
        } else {
            lemma_entry_open(before);
            let i = choose|i: int|
                0 <= i < before.len() && #[trigger] is_entry_step(before[i]) && forall|j: int|
                    i < j < before.len() ==> !(#[trigger] before[j] is EndPartition);
            assert(is_entry_step(steps[i]));
            assert forall|j: int| i < j < steps.len() implies !(
            #[trigger] steps[j] is EndPartition) by {
                if j < before.len() {
                    assert(!(before[j] is EndPartition));
                }
            }
        }
    }
}

pub(crate) proof fn lemma_entry_needed(link: Link, step: StepView)
    requires
        link is Up,
        link.take(step) != Link::Broken,
        step is StartPartition || step is WriteImage,
    ensures
        link->entry,
{
}

} // verus!
