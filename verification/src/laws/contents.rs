//! What is written, and where to: exclusions, order and contents.

use vstd::prelude::*;

use crate::config::DEFAULT_EXCLUDE;
use crate::download::ActionView;
use crate::download::DownloadView;
use crate::download::EventView;
use crate::partition::BlockView;
use crate::partition::ImageView;
use crate::partition::ProjectView;
use crate::plan::Mode;
use crate::plan::StepView;
use crate::plan::WriteImagePartitionView;

verus! {

/// The entry of the archive that a transfer which starts with the step `at` sends: the one
/// that the step before got hold of, or the step before that one.
pub open spec fn fetched(steps: Seq<StepView>, at: int) -> Seq<char> {
    if super::protocol::is_entry_step(steps[at - 1]) {
        super::protocol::wanted_file(steps[at - 1])
    } else {
        super::protocol::wanted_file(steps[at - 2])
    }
}

/// The step `at` starts a transfer of the entry `file` to `target`, and the steps behind it
/// complete it.
pub open spec fn transfers(
    steps: Seq<StepView>,
    at: int,
    target: WriteImagePartitionView,
    file: Option<Seq<char>>,
    name: Seq<char>,
    chunk_size: usize,
) -> bool {
    &&& 2 <= at
    &&& at + 2 < steps.len()
    &&& super::protocol::is_entry_step(steps[at - 1]) || super::protocol::is_entry_step(steps[at - 2])
    &&& file == Some(fetched(steps, at))
    &&& steps[at] == StepView::StartPartition(target)
    &&& steps[at + 1] == (StepView::WriteImage {
        name,
        chunk_size,
        report_every: Some(100),
    })
    &&& steps[at + 2] is EndPartition
}

/// The step `at` starts the transfer for the image with the index `i`: one that holds the
/// contents of a partition and is not excluded. The entry that the image names is sent, and
/// it goes to the partition that the image names.
pub open spec fn written_for(
    names: Seq<Seq<char>>,
    images: Seq<ImageView>,
    steps: Seq<StepView>,
    at: int,
    id: Seq<char>,
    i: int,
) -> bool {
    &&& 0 <= i < images.len()
    &&& crate::config::selected(names, images[i])
    &&& images[i].block == BlockView::Partition(id)
    &&& transfers(
        steps,
        at,
        WriteImagePartitionView::PartitionId(id),
        images[i].file,
        images[i].name,
        48000,
    )
}

proof fn lemma_transfers_inside(
    before: Seq<StepView>,
    steps: Seq<StepView>,
    after: Seq<StepView>,
    at: int,
    target: WriteImagePartitionView,
    file: Option<Seq<char>>,
    name: Seq<char>,
    chunk_size: usize,
)
    requires
        transfers(steps, at, target, file, name, chunk_size),
    ensures
        transfers(
            before + steps + after,
            before.len() + at,
            target,
            file,
            name,
            chunk_size,
        ),
{
    let all = before + steps + after;
    let n = before.len() + at;
    assert(all[n - 2] == steps[at - 2]);
    assert(all[n - 1] == steps[at - 1]);
    assert(all[n] == steps[at]);
    assert(all[n + 1] == steps[at + 1]);
    assert(all[n + 2] == steps[at + 2]);
}

proof fn lemma_image_stages_targets(
    mode: Mode,
    names: Seq<Seq<char>>,
    images: Seq<ImageView>,
    at: int,
)
    requires
        0 <= at < crate::plan::image_stages(mode, names, images).len(),
    ensures
        crate::plan::image_stages(mode, names, images)[at] matches StepView::StartPartition(
            target,
        ) ==> target matches WriteImagePartitionView::PartitionId(id) && exists|i: int|
            written_for(
                names,
                images,
                crate::plan::image_stages(mode, names, images),
                at,
                id,
                i,
            ),
    decreases images.len(),
{
    let steps = crate::plan::image_stages(mode, names, images);
    if images.len() > 0 {
        let before = crate::plan::image_stages(mode, names, images.drop_last());
        let none = Seq::<StepView>::empty();
        let last = images.last();
        if let StepView::StartPartition(target) = steps[at] {
            if at < before.len() {
                lemma_image_stages_targets(mode, names, images.drop_last(), at);
                let id = target->PartitionId_0;
                let i = choose|i: int|
                    written_for(names, images.drop_last(), before, at, id, i);
                let rest = steps.skip(before.len() as int);
                assert(steps =~= none + before + rest);
                lemma_transfers_inside(
                    none,
                    before,
                    rest,
                    at,
                    target,
                    images[i].file,
                    images[i].name,
                    crate::plan::IMAGE_CHUNK_SIZE,
                );
                assert(written_for(names, images, steps, at, id, i));
            } else {
                let stage = crate::plan::image_stage(mode, last);
                let id = target->PartitionId_0;
                assert(steps =~= before + stage + none);
                assert(stage[at - before.len()] == steps[at]);
                assert(at - before.len() == 3);
                assert(transfers(
                    stage,
                    3,
                    target,
                    last.file,
                    last.name,
                    crate::plan::IMAGE_CHUNK_SIZE,
                ));
                lemma_transfers_inside(
                    before,
                    stage,
                    none,
                    3,
                    target,
                    last.file,
                    last.name,
                    crate::plan::IMAGE_CHUNK_SIZE,
                );
                assert(written_for(names, images, steps, at, id, images.len() - 1));
            }
        }
    }
}

/// No step of a project writes a partition but for an image that is selected, and what is
/// written is what that image names.
pub proof fn law_only_selected_images_are_written(
    mode: Mode,
    names: Seq<Seq<char>>,
    project: ProjectView,
    at: int,
)
    requires
        0 <= at < crate::plan::project_steps(mode, names, project).len(),
    ensures
        crate::plan::project_steps(mode, names, project)[at] matches StepView::StartPartition(
            WriteImagePartitionView::PartitionId(id),
        ) ==> exists|i: int|
            written_for(
                names,
                project.images,
                crate::plan::project_steps(mode, names, project),
                at,
                id,
                i,
            ),
{
    let steps = crate::plan::project_steps(mode, names, project);
    let stages = crate::plan::image_stages(mode, names, project.images);
    let n = steps.len() - stages.len();
    if let StepView::StartPartition(target) = steps[at] {
        if let WriteImagePartitionView::PartitionId(id) = target {
            assert(at >= n);
            assert(steps[at] == stages[at - n]);
            lemma_image_stages_targets(mode, names, project.images, at - n);
            let m = at - n;
            let i = choose|i: int| written_for(names, project.images, stages, m, id, i);
            let none = Seq::<StepView>::empty();
            assert(steps =~= steps.take(n) + stages + none);
            lemma_transfers_inside(
                steps.take(n),
                stages,
                none,
                at - n,
                target,
                project.images[i].file,
                project.images[i].name,
                crate::plan::IMAGE_CHUNK_SIZE,
            );
            assert(written_for(names, project.images, steps, at, id, i));
        }
    }
}

/// Whatever is answered, a download asks to write a partition only for an image of the
/// project that was told, and only for one that is selected. It is the entry which that
/// image names that was opened for it, and that is sent next.
pub proof fn law_only_selected_partitions_are_started(
    mode: Mode,
    names: Seq<Seq<char>>,
    events: Seq<EventView>,
    id: Seq<char>,
    size: u64,
)
    requires
        super::course::answers(DownloadView::start(mode, names), events),
        super::course::run(DownloadView::start(mode, names), events).request() == (
        ActionView::StartPartitionId { id, size }),
    ensures
        ({
            let d = super::course::run(DownloadView::start(mode, names), events);
            exists|k: int, i: int|
                0 <= k < events.len() && #[trigger] events[k] is Parsed && #[trigger] written_for(
                    names,
                    super::course::told_project(events[k]).images,
                    d.steps,
                    d.next as int,
                    id,
                    i,
                )
        }),
{
    super::course::law_course(mode, names, events);
    let d = super::course::run(DownloadView::start(mode, names), events);
    let k = choose|k: int| super::course::planned(mode, names, events, k);
    assert(super::course::planned(mode, names, events, k));
    let project = super::course::told_project(events[k]);
    let plan = crate::plan::project_steps(mode, names, project);
    let at = d.next - super::course::opening_len();
    assert(d.step() == plan[at]);
    law_only_selected_images_are_written(mode, names, project, at);
    let i = choose|i: int| written_for(names, project.images, plan, at, id, i);
    let none = Seq::<StepView>::empty();
    assert(d.steps =~= crate::plan::opening() + plan + none);
    lemma_transfers_inside(
        crate::plan::opening(),
        plan,
        none,
        at,
        WriteImagePartitionView::PartitionId(id),
        project.images[i].file,
        project.images[i].name,
        crate::plan::IMAGE_CHUNK_SIZE,
    );
    assert(events[k] is Parsed && written_for(
        names,
        super::course::told_project(events[k]).images,
        d.steps,
        d.next as int,
        id,
        i,
    ));
}

/// The step `at` starts the transfer of the flash downloader called `name` into the memory
/// of the device: the entry that the first image with this name names is sent, and it goes
/// to the address that this image names.
pub open spec fn loaded_for(
    images: Seq<ImageView>,
    steps: Seq<StepView>,
    at: int,
    target: WriteImagePartitionView,
    name: Seq<char>,
    wide: bool,
) -> bool {
    &&& crate::partition::find_image(images, name) is Some
    &&& ({
        let image = crate::partition::find_image(images, name)->0;
        &&& image.block is Absolute
        &&& target == (if wide {
            WriteImagePartitionView::Absolute64(image.block->Absolute_0)
        } else {
            WriteImagePartitionView::Absolute32(image.block->Absolute_0 as u32)
        })
        &&& transfers(steps, at, target, image.file, name, 1000)
    })
}

proof fn lemma_fdl_stage_target(
    mode: Mode,
    images: Seq<ImageView>,
    name: Seq<char>,
    wide: bool,
    at: int,
)
    requires
        0 <= at < crate::plan::fdl_stage(mode, images, name, wide).len(),
        crate::plan::fdl_stage(mode, images, name, wide)[at] is StartPartition,
    ensures
        ({
            let steps = crate::plan::fdl_stage(mode, images, name, wide);
            loaded_for(images, steps, at, steps[at]->StartPartition_0, name, wide)
        }),
{
    assert(at == 2);
}

proof fn lemma_loaded_inside(
    before: Seq<StepView>,
    after: Seq<StepView>,
    mode: Mode,
    images: Seq<ImageView>,
    name: Seq<char>,
    wide: bool,
    at: int,
)
    requires
        0 <= at < crate::plan::fdl_stage(mode, images, name, wide).len(),
        crate::plan::fdl_stage(mode, images, name, wide)[at] is StartPartition,
    ensures
        ({
            let stage = crate::plan::fdl_stage(mode, images, name, wide);
            let all = before + stage + after;
            let n = before.len() + at;
            loaded_for(images, all, n, all[n]->StartPartition_0, name, wide)
        }),
{
    let stage = crate::plan::fdl_stage(mode, images, name, wide);
    lemma_fdl_stage_target(mode, images, name, wide, at);
    let image = crate::partition::find_image(images, name)->0;
    lemma_transfers_inside(
        before,
        stage,
        after,
        at,
        stage[at]->StartPartition_0,
        image.file,
        name,
        crate::plan::FDL_CHUNK_SIZE,
    );
}

/// Nothing but the flash downloader is loaded into the memory of the device: its one stage,
/// or its first stage at an address of 32 bits and its second one at an address of 64 bits.
#[verifier::rlimit(40)]
pub proof fn law_only_flash_downloaders_are_loaded(
    mode: Mode,
    names: Seq<Seq<char>>,
    project: ProjectView,
    at: int,
)
    requires
        0 <= at < crate::plan::project_steps(mode, names, project).len(),
    ensures
        ({
            let steps = crate::plan::project_steps(mode, names, project);
            steps[at] matches StepView::StartPartition(target) ==> target is PartitionId || (if mode
                == Mode::Async || project.two_level_fdl {
                ||| loaded_for(project.images, steps, at, target, "FDL1"@, false)
                ||| loaded_for(project.images, steps, at, target, "FDL2"@, true)
            } else {
                loaded_for(project.images, steps, at, target, "FDL"@, false)
            })
        }),
{
    let steps = crate::plan::project_steps(mode, names, project);
    let images = project.images;
    let g = crate::plan::greeting();
    let f = crate::plan::fdl_stages(mode, project);
    let stages = crate::plan::image_stages(mode, names, images);
    let tail = crate::plan::table_stage() + crate::plan::log_stage(names, images) + stages;
    assert(steps =~= g + f + tail);
    if let StepView::StartPartition(target) = steps[at] {
        if !(target is PartitionId) {
            let n = steps.len() - stages.len();
            if at >= n {
                assert(steps[at] == stages[at - n]);
                lemma_image_stages_targets(mode, names, images, at - n);
            }
            let m = at - g.len();
            assert(0 <= m < f.len());
            assert(f[m] == steps[at]);
            if mode == Mode::Async || project.two_level_fdl {
                let a = crate::plan::fdl_stage(mode, images, "FDL1"@, false);
                let h = seq![StepView::Handshake("fdl1"@)];
                let c = crate::plan::fdl_stage(mode, images, "FDL2"@, true);
                if m < a.len() {
                    lemma_loaded_inside(g, h + c + tail, mode, images, "FDL1"@, false, m);
                    assert(steps =~= g + a + (h + c + tail));
                } else {
                    let k = m - a.len() - 1;
                    assert(m != a.len());
                    assert(c[k] == steps[at]);
                    lemma_loaded_inside(g + a + h, tail, mode, images, "FDL2"@, true, k);
                    assert(steps =~= (g + a + h) + c + tail);
                }
            } else {
                let a = crate::plan::fdl_stage(mode, images, "FDL"@, false);
                let h = seq![StepView::Handshake("fdl2"@)];
                assert(m < a.len());
                lemma_loaded_inside(g, h + tail, mode, images, "FDL"@, false, m);
                assert(steps =~= g + a + (h + tail));
            }
        }
    }
}

/// The images are written in their order, and none of the selected ones is left out: the
/// steps for two lists of images, one behind the other, are those for the first list and
/// then those for the second one.
pub proof fn law_images_in_order(
    mode: Mode,
    names: Seq<Seq<char>>,
    first: Seq<ImageView>,
    second: Seq<ImageView>,
)
    ensures
        crate::plan::image_stages(mode, names, first + second) == crate::plan::image_stages(
            mode,
            names,
            first,
        ) + crate::plan::image_stages(mode, names, second),
    decreases second.len(),
{
    if second.len() == 0 {
        assert(first + second =~= first);
        assert(crate::plan::image_stages(mode, names, second) =~= Seq::<StepView>::empty());
        assert(crate::plan::image_stages(mode, names, first) =~= crate::plan::image_stages(
            mode,
            names,
            first,
        ) + Seq::<StepView>::empty());
    } else {
        law_images_in_order(mode, names, first, second.drop_last());
        assert((first + second).drop_last() =~= first + second.drop_last());
        assert((first + second).last() == second.last());
        assert(crate::plan::image_stages(mode, names, first + second)
            =~= crate::plan::image_stages(mode, names, first) + crate::plan::image_stages(
            mode,
            names,
            second,
        ));
    }
}

/// Each selected image is written: its steps stand in the steps of the project, behind
/// those of the images before it.
pub proof fn law_selected_images_are_written(
    mode: Mode,
    names: Seq<Seq<char>>,
    images: Seq<ImageView>,
    i: int,
)
    requires
        0 <= i < images.len(),
        crate::config::selected(names, images[i]),
    ensures
        ({
            let from = crate::plan::image_stages(mode, names, images.take(i)).len() as int;
            let stage = crate::plan::image_stage(mode, images[i]);
            let all = crate::plan::image_stages(mode, names, images);
            &&& from + stage.len() <= all.len()
            &&& all.subrange(from, from + stage.len()) == stage
        }),
{
    let before = images.take(i);
    let one = seq![images[i]];
    let after = images.skip(i + 1);
    assert(images =~= before + one + after);
    law_images_in_order(mode, names, before + one, after);
    law_images_in_order(mode, names, before, one);
    assert(one.drop_last() =~= Seq::<ImageView>::empty());
    assert(one.last() == images[i]);
    let stage = crate::plan::image_stage(mode, images[i]);
    assert(crate::plan::image_stages(mode, names, Seq::<ImageView>::empty()) =~= Seq::<
        StepView,
    >::empty());
    assert(crate::plan::image_stages(mode, names, one) =~= stage);
    let from = crate::plan::image_stages(mode, names, before).len() as int;
    assert(crate::plan::image_stages(mode, names, images).subrange(from, from + stage.len())
        =~= stage);
}

/// The name is that of a flash downloader.
pub open spec fn is_fdl(name: Seq<char>) -> bool {
    name == "FDL"@ || name == "FDL1"@ || name == "FDL2"@
}

/// The contents that the step sends, if it sends any, are those of a flash downloader or of
/// an image that is not excluded.
spec fn sends_no_excluded(names: Seq<Seq<char>>, step: StepView) -> bool {
    step matches StepView::WriteImage { name, .. } ==> is_fdl(name) || !crate::config::excluded(
        names,
        name,
    )
}

spec fn send_no_excluded(names: Seq<Seq<char>>, steps: Seq<StepView>) -> bool {
    forall|i: int| 0 <= i < steps.len() ==> sends_no_excluded(names, #[trigger] steps[i])
}

proof fn lemma_image_stages_send_no_excluded(
    mode: Mode,
    names: Seq<Seq<char>>,
    images: Seq<ImageView>,
)
    ensures
        send_no_excluded(names, crate::plan::image_stages(mode, names, images)),
    decreases images.len(),
{
    if images.len() > 0 {
        lemma_image_stages_send_no_excluded(mode, names, images.drop_last());
        let image = images.last();
        if crate::config::selected(names, image) {
            let stage = crate::plan::image_stage(mode, image);
            assert forall|i: int| 0 <= i < stage.len() implies sends_no_excluded(
                names,
                #[trigger] stage[i],
            ) by {
                if let StepView::WriteImage { name, .. } = stage[i] {
                    assert(name == image.name);
                }
            }
        }
    }
}

proof fn lemma_fdl_stages_send_no_excluded(
    mode: Mode,
    names: Seq<Seq<char>>,
    project: ProjectView,
)
    ensures
        send_no_excluded(names, crate::plan::fdl_stages(mode, project)),
{
    let steps = crate::plan::fdl_stages(mode, project);
    assert forall|i: int| 0 <= i < steps.len() implies sends_no_excluded(
        names,
        #[trigger] steps[i],
    ) by {
        if let StepView::WriteImage { name, .. } = steps[i] {
            assert(is_fdl(name));
        }
    }
}

proof fn lemma_send_no_excluded_concat(
    names: Seq<Seq<char>>,
    a: Seq<StepView>,
    b: Seq<StepView>,
)
    requires
        send_no_excluded(names, a),
        send_no_excluded(names, b),
    ensures
        send_no_excluded(names, a + b),
{
}

proof fn lemma_plan_sends_no_excluded(mode: Mode, names: Seq<Seq<char>>, project: ProjectView)
    ensures
        send_no_excluded(names, crate::plan::project_steps(mode, names, project)),
{
    let g = crate::plan::greeting();
    let f = crate::plan::fdl_stages(mode, project);
    let t = crate::plan::table_stage();
    let l = crate::plan::log_stage(names, project.images);
    let s = crate::plan::image_stages(mode, names, project.images);
    lemma_image_stages_send_no_excluded(mode, names, project.images);
    lemma_fdl_stages_send_no_excluded(mode, names, project);
    assert(send_no_excluded(names, g));
    assert(send_no_excluded(names, t));
    assert(send_no_excluded(names, l));
    lemma_send_no_excluded_concat(names, g, f);
    lemma_send_no_excluded_concat(names, g + f, t);
    lemma_send_no_excluded_concat(names, g + f + t, l);
    lemma_send_no_excluded_concat(names, g + f + t + l, s);
}

/// Whatever is answered, a download never asks to send the contents of an image that is
/// excluded; a flash downloader is no such image.
pub proof fn law_excluded_images_are_not_sent(
    mode: Mode,
    names: Seq<Seq<char>>,
    events: Seq<EventView>,
)
    requires
        super::course::answers(DownloadView::start(mode, names), events),
    ensures
        super::course::run(DownloadView::start(mode, names), events).request() matches
            ActionView::WriteImage { name, .. } ==> is_fdl(name) || !crate::config::excluded(
            names,
            name,
        ),
{
    super::course::law_course(mode, names, events);
    let d = super::course::run(DownloadView::start(mode, names), events);
    if d.request() is WriteImage {
        let k = choose|k: int| super::course::planned(mode, names, events, k);
        assert(super::course::planned(mode, names, events, k));
        let project = super::course::told_project(events[k]);
        let plan = crate::plan::project_steps(mode, names, project);
        let at = d.next - super::course::opening_len();
        assert(d.step() == plan[at]);
        lemma_plan_sends_no_excluded(mode, names, project);
        assert(sends_no_excluded(names, plan[at]));
    }
}

/// The first image called `name` is to be loaded at this address.
pub open spec fn to_be_loaded_at(images: Seq<ImageView>, name: Seq<char>, address: u64) -> bool {
    exists|i: int|
        {
            &&& 0 <= i < images.len()
            &&& (#[trigger] images[i]).name == name
            &&& images[i].block == BlockView::Absolute(address)
            &&& forall|j: int| 0 <= j < i ==> (#[trigger] images[j]).name != name
        }
}

/// The first stage of the flash downloader, or the only one, is to be loaded at this address.
pub open spec fn to_be_loaded_first_at(mode: Mode, project: ProjectView, address: u64) -> bool {
    to_be_loaded_at(
        project.images,
        if mode == Mode::Async || project.two_level_fdl {
            "FDL1"@
        } else {
            "FDL"@
        },
        address,
    )
}

proof fn lemma_to_be_loaded_at(images: Seq<ImageView>, name: Seq<char>)
    requires
        crate::partition::find_image(images, name) is Some,
        crate::partition::find_image(images, name)->0.block is Absolute,
    ensures
        to_be_loaded_at(
            images,
            name,
            crate::partition::find_image(images, name)->0.block->Absolute_0,
        ),
{
    crate::partition::law_found_image_is_the_first(images, name);
}

/// The second stage of the flash downloader is loaded at the address that the project names,
/// as it stands there, and so is the first one, or the only one, in the 32 bits that the boot
/// ROM takes: whatever is answered, no other address is ever asked for.
#[verifier::rlimit(40)]
pub proof fn law_loaded_at_the_address_of_the_project(
    mode: Mode,
    names: Seq<Seq<char>>,
    events: Seq<EventView>,
)
    requires
        super::course::answers(DownloadView::start(mode, names), events),
    ensures
        ({
            let asked = super::course::run(DownloadView::start(mode, names), events).request();
            &&& (asked matches ActionView::StartPartitionAbsolute { address, .. } ==> exists|k: int|
                0 <= k < events.len() && #[trigger] events[k] is Parsed && to_be_loaded_at(
                    super::course::told_project(events[k]).images,
                    "FDL2"@,
                    address,
                ))
            &&& (asked matches ActionView::StartPartitionAbsolute32 { address, .. } ==> exists|
                k: int,
                whole: u64,
            |
                {
                    &&& 0 <= k < events.len()
                    &&& events[k] is Parsed
                    &&& #[trigger] to_be_loaded_first_at(
                        mode,
                        super::course::told_project(events[k]),
                        whole,
                    )
                    &&& address == whole as u32
                })
        }),
{
    super::course::law_course(mode, names, events);
    let d = super::course::run(DownloadView::start(mode, names), events);
    let asked = d.request();
    if asked is StartPartitionAbsolute || asked is StartPartitionAbsolute32 {
        let k = choose|k: int| super::course::planned(mode, names, events, k);
        assert(super::course::planned(mode, names, events, k));
        let project = super::course::told_project(events[k]);
        let plan = crate::plan::project_steps(mode, names, project);
        let at = d.next - super::course::opening_len();
        assert(d.step() == plan[at]);
        law_only_flash_downloaders_are_loaded(mode, names, project, at);
        let target = plan[at]->StartPartition_0;
        let name = if mode == Mode::Async || project.two_level_fdl {
            if target is Absolute64 {
                "FDL2"@
            } else {
                "FDL1"@
            }
        } else {
            "FDL"@
        };
        lemma_to_be_loaded_at(project.images, name);
        let whole = crate::partition::find_image(project.images, name)->0.block->Absolute_0;
        assert(to_be_loaded_at(project.images, name, whole));
        assert(events[k] is Parsed);
        assert(asked is StartPartitionAbsolute32 ==> to_be_loaded_first_at(mode, project, whole));
    }
}

/// The step `at` is the end of a transfer that was started two steps before, and the device gets
/// one minute for it where a partition was written and the calls block, and the usual time
/// otherwise.
spec fn ends_in_time(mode: Mode, steps: Seq<StepView>, at: int) -> bool {
    steps[at] matches StepView::EndPartition { timeout_secs } ==> {
        &&& at >= 2
        &&& steps[at - 1] is WriteImage
        &&& steps[at - 2] matches StepView::StartPartition(target)
        &&& timeout_secs == (if mode == Mode::Blocking && target is PartitionId {
            Some(60u64)
        } else {
            None
        })
    }
}

spec fn all_end_in_time(mode: Mode, steps: Seq<StepView>) -> bool {
    forall|at: int| 0 <= at < steps.len() ==> #[trigger] ends_in_time(mode, steps, at)
}

proof fn lemma_end_in_time_concat(mode: Mode, a: Seq<StepView>, b: Seq<StepView>)
    requires
        all_end_in_time(mode, a),
        all_end_in_time(mode, b),
    ensures
        all_end_in_time(mode, a + b),
{
    assert forall|at: int| 0 <= at < (a + b).len() implies #[trigger] ends_in_time(
        mode,
        a + b,
        at,
    ) by {
        if at < a.len() {
            assert(ends_in_time(mode, a, at));
        } else {
            assert(ends_in_time(mode, b, at - a.len()));
        }
    }
}

proof fn lemma_images_end_in_time(mode: Mode, names: Seq<Seq<char>>, images: Seq<ImageView>)
    ensures
        all_end_in_time(mode, crate::plan::image_stages(mode, names, images)),
    decreases images.len(),
{
    if images.len() > 0 {
        lemma_images_end_in_time(mode, names, images.drop_last());
        if crate::config::selected(names, images.last()) {
            let stage = crate::plan::image_stage(mode, images.last());
            assert(all_end_in_time(mode, stage));
            lemma_end_in_time_concat(
                mode,
                crate::plan::image_stages(mode, names, images.drop_last()),
                stage,
            );
        }
    }
}

proof fn lemma_plan_ends_in_time(mode: Mode, names: Seq<Seq<char>>, project: ProjectView)
    ensures
        all_end_in_time(mode, crate::plan::project_steps(mode, names, project)),
{
    let images = project.images;
    let g = crate::plan::greeting();
    let f = crate::plan::fdl_stages(mode, project);
    let t = crate::plan::table_stage();
    let l = crate::plan::log_stage(names, images);
    let s = crate::plan::image_stages(mode, names, images);
    let first = if mode == Mode::Async || project.two_level_fdl {
        "FDL1"@
    } else {
        "FDL"@
    };
    let a = crate::plan::fdl_stage(mode, images, first, false);
    let c = crate::plan::fdl_stage(mode, images, "FDL2"@, true);
    assert(all_end_in_time(mode, a));
    assert(all_end_in_time(mode, c));
    let h = seq![StepView::Handshake("fdl1"@)];
    let h2 = seq![StepView::Handshake("fdl2"@)];
    assert(all_end_in_time(mode, h));
    assert(all_end_in_time(mode, h2));
    lemma_end_in_time_concat(mode, a, h);
    lemma_end_in_time_concat(mode, a + h, c);
    lemma_end_in_time_concat(mode, a, h2);
    assert(all_end_in_time(mode, f));
    assert(all_end_in_time(mode, g));
    assert(all_end_in_time(mode, t));
    assert(all_end_in_time(mode, l));
    lemma_images_end_in_time(mode, names, images);
    lemma_end_in_time_concat(mode, g, f);
    lemma_end_in_time_concat(mode, g + f, t);
    lemma_end_in_time_concat(mode, g + f + t, l);
    lemma_end_in_time_concat(mode, g + f + t + l, s);
}

/// How long the device may take to complete a transfer, whatever was answered. Where a partition
/// was written with calls that block it gets sixty seconds, and otherwise the usual time. The end
/// of a transfer is asked for once its contents were sent, and these once it was announced.
pub proof fn law_time_to_complete_a_transfer(
    mode: Mode,
    names: Seq<Seq<char>>,
    events: Seq<EventView>,
    timeout_secs: Option<u64>,
)
    requires
        super::course::answers(DownloadView::start(mode, names), events),
        !super::course::run(DownloadView::start(mode, names), events).ended,
        super::course::run(DownloadView::start(mode, names), events).request() == (
        ActionView::EndPartition { timeout_secs }),
    ensures
        ({
            let start = DownloadView::start(mode, names);
            let sent = super::course::run(start, events.drop_last()).request();
            let announced = super::course::run(
                start,
                events.drop_last().drop_last(),
            ).request();
            &&& events.len() >= 2
            &&& sent is WriteImage
            &&& announced is StartPartitionId || announced is StartPartitionAbsolute || announced
                is StartPartitionAbsolute32
            &&& timeout_secs == (if mode == Mode::Blocking && announced is StartPartitionId {
                Some(60u64)
            } else {
                None
            })
        }),
{
    let start = DownloadView::start(mode, names);
    let d = super::course::run(start, events);
    lemma_run_ends_in_time(mode, names, events);
    lemma_one_step_back(mode, names, events);
    lemma_one_step_back(mode, names, events.drop_last());
}

/// What holds of the end of a transfer in a plan holds of it in a download.
proof fn lemma_run_ends_in_time(mode: Mode, names: Seq<Seq<char>>, events: Seq<EventView>)
    requires
        super::course::answers(DownloadView::start(mode, names), events),
        ({
            let d = super::course::run(DownloadView::start(mode, names), events);
            d.next < d.steps.len() && d.step() is EndPartition
        }),
    ensures
        ({
            let d = super::course::run(DownloadView::start(mode, names), events);
            &&& ends_in_time(mode, d.steps, d.next as int)
            &&& d.next >= super::course::opening_len() + 2
        }),
{
    let d = super::course::run(DownloadView::start(mode, names), events);
    super::course::law_course(mode, names, events);
    let k = choose|k: int| super::course::planned(mode, names, events, k);
    assert(super::course::planned(mode, names, events, k));
    let project = super::course::told_project(events[k]);
    lemma_plan_ends_in_time(mode, names, project);
    lemma_ends_in_time_behind(
        mode,
        crate::plan::opening(),
        crate::plan::project_steps(mode, names, project),
        d.next as int,
    );
}

proof fn lemma_ends_in_time_behind(
    mode: Mode,
    before: Seq<StepView>,
    plan: Seq<StepView>,
    at: int,
)
    requires
        all_end_in_time(mode, plan),
        before.len() <= at < before.len() + plan.len(),
        (before + plan)[at] is EndPartition,
    ensures
        ends_in_time(mode, before + plan, at),
        at >= before.len() + 2,
{
    assert(ends_in_time(mode, plan, at - before.len()));
}

/// A step that is no search was come to with the last event.
proof fn lemma_one_step_back(mode: Mode, names: Seq<Seq<char>>, events: Seq<EventView>)
    requires
        super::course::answers(DownloadView::start(mode, names), events),
        ({
            let d = super::course::run(DownloadView::start(mode, names), events);
            !d.ended && super::course::opening_len() < d.next < d.steps.len()
                && !crate::download::is_scan(d.step())
        }),
    ensures
        ({
            let d = super::course::run(DownloadView::start(mode, names), events);
            let b = super::course::run(DownloadView::start(mode, names), events.drop_last());
            &&& events.len() > 0
            &&& super::course::answers(DownloadView::start(mode, names), events.drop_last())
            &&& !b.ended
            &&& b.next == d.next - 1
            &&& b.steps == d.steps
            &&& b.next < b.steps.len()
            &&& b.step() == d.steps[d.next - 1]
        }),
{
    let start = DownloadView::start(mode, names);
    let d = super::course::run(start, events);
    let before = events.drop_last();
    let b = super::course::run(start, before);
    assert(d == b.after(events.last()));
    super::course::law_course(mode, names, before);
    super::course::law_course(mode, names, events);
    super::course::law_one_step_at_a_time(b, events.last());
    if events.last() is Parsed {
        assert(b.step() is ParseConfig);
        if !(b.steps == crate::plan::opening() && b.next < super::course::opening_len()) {
            let j = choose|j: int| super::course::planned(mode, names, before, j);
            assert(super::course::planned(mode, names, before, j));
            let told = super::course::told_project(before[j]);
            super::course::lemma_project_steps_kinds(mode, names, told);
            assert(super::course::later(
                crate::plan::project_steps(mode, names, told)[b.next - super::course::opening_len()],
            ));
        }
        assert(false);
    }
}

/// `factory`, in whatever case it is written, is never written, whatever the user excludes.
pub proof fn law_factory_is_never_written(names: Seq<Seq<char>>, image: ImageView)
    requires
        crate::text::same_ignoring_ascii_case(image.name, DEFAULT_EXCLUDE@),
    ensures
        !crate::config::selected(names, image),
{
}

/// The case of the ASCII letters in a partition's name does not matter.
pub proof fn law_exclusion_ignores_case(names: Seq<Seq<char>>, a: Seq<char>, b: Seq<char>)
    requires
        crate::text::same_ignoring_ascii_case(a, b),
    ensures
        crate::config::excluded(names, a) == crate::config::excluded(names, b),
{
    crate::text::law_same_ignoring_case_is_an_equivalence(a, b, DEFAULT_EXCLUDE@);
    assert forall|i: int| 0 <= i < names.len() implies crate::text::same_ignoring_ascii_case(
        #[trigger] names[i],
        a,
    ) == crate::text::same_ignoring_ascii_case(names[i], b) by {
        crate::text::law_same_ignoring_case_is_an_equivalence(a, b, names[i]);
    }
}

/// To exclude more partitions never makes a download write one that it left alone.
pub proof fn law_exclusion_is_monotone(
    names: Seq<Seq<char>>,
    more: Seq<Seq<char>>,
    name: Seq<char>,
)
    requires
        crate::config::excluded(names, name),
    ensures
        crate::config::excluded(names + more, name),
        crate::config::excluded(more + names, name),
{
    if crate::config::excluded_by_user(names, name) {
        let i = choose|i: int|
            0 <= i < names.len() && crate::text::same_ignoring_ascii_case(
                #[trigger] names[i],
                name,
            );
        assert((names + more)[i] == names[i]);
        assert((more + names)[more.len() + i] == names[i]);
    }
}

/// An image that holds the contents of a partition is either logged as skipped or written.
pub proof fn law_skipped_or_selected(names: Seq<Seq<char>>, image: ImageView)
    requires
        image.image_type == crate::partition::ImageType::Code,
    ensures
        crate::config::skipped(names, image) != crate::config::selected(names, image),
{
}

} // verus!
