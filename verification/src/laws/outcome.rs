//! What comes of the two kinds of download when they meet the same archive.

use vstd::prelude::*;

use crate::download::ActionView;
use crate::download::DownloadView;
use crate::download::EventView;
use crate::download::Verdict;
use crate::error::AxdlErrorView;
use crate::error::CauseView;
use crate::partition::BlockView;
use crate::partition::ImageView;
use crate::partition::ProjectView;
use crate::plan::Mode;
use crate::plan::StepView;

verus! {

/// An entry of an archive: its name, its size, and the text that it holds if it holds text.
pub struct ArchiveEntry {
    pub name: Seq<char>,
    pub size: u64,
    pub text: Option<Seq<char>>,
}

/// What a download meets when nothing outside of the image fails: an archive whose entries
/// can be opened, a parser, a user who lets the download go on, and a device that does what
/// it is told.
pub struct Scene {
    /// The entries of the archive, in their order.
    pub entries: Seq<ArchiveEntry>,
    /// The project that a text describes, if it describes one.
    pub parser: spec_fn(Seq<char>) -> Option<ProjectView>,
    /// The reason that the archive and the parser give when they refuse something.
    pub reason: CauseView,
}

impl Scene {
    /// What holds of every archive whose entries can be told apart and counted.
    pub open spec fn wf(self) -> bool {
        &&& self.entries.len() <= usize::MAX
        &&& forall|i: int, j: int|
            0 <= i < j < self.entries.len() ==> (#[trigger] self.entries[i]).name != (
            #[trigger] self.entries[j]).name
    }

    /// The entry with the index `i` is called `file`.
    pub open spec fn is_called(self, i: int, file: Seq<char>) -> bool {
        0 <= i < self.entries.len() && self.entries[i].name == file
    }

    /// There is an entry called `file`.
    pub open spec fn has(self, file: Seq<char>) -> bool {
        exists|i: int| self.is_called(i, file)
    }

    /// The index of the entry called `file`.
    pub open spec fn index_of(self, file: Seq<char>) -> int {
        choose|i: int| self.is_called(i, file)
    }

    /// The name of the entry with the index `i` is that of a project description.
    pub open spec fn is_xml(self, i: int) -> bool {
        crate::text::has_suffix(self.entries[i].name, ".xml"@)
    }

    /// The entry with the index `i` is the first one with the name of a project description.
    pub open spec fn is_description(self, i: int) -> bool {
        &&& 0 <= i < self.entries.len()
        &&& self.is_xml(i)
        &&& forall|j: int| 0 <= j < i ==> !#[trigger] self.is_xml(j)
    }

    /// The index of the project description.
    pub open spec fn description(self) -> int {
        choose|i: int| self.is_description(i)
    }

    /// The project that the archive describes is `project`.
    pub open spec fn describes(self, project: ProjectView) -> bool {
        &&& self.is_description(self.description())
        &&& self.entries[self.description()].text is Some
        &&& (self.parser)(self.entries[self.description()].text->0) == Some(project)
    }

    /// The size of the entry that a download has got hold of, or zero where there is none.
    pub open spec fn size_of(self, held: Option<int>) -> u64 {
        match held {
            Some(i) => self.entries[i].size,
            None => 0,
        }
    }

    /// What comes of an action.
    pub open spec fn reply(self, mode: Mode, action: ActionView) -> EventView {
        match action {
            ActionView::OpenArchive => EventView::ArchiveOpened {
                entries: match mode {
                    Mode::Blocking => Some(self.entries.len() as usize),
                    Mode::Async => None,
                },
            },
            ActionView::InspectEntry(index) => if index < self.entries.len() {
                EventView::Entry {
                    name: Some(self.entries[index as int].name),
                    size: self.entries[index as int].size,
                }
            } else {
                EventView::NoSuchEntry
            },
            ActionView::ReadEntry(index) => match self.entries[index as int].text {
                Some(text) => EventView::Text(text),
                None => EventView::Refused(self.reason),
            },
            ActionView::ParseConfig(text) => match (self.parser)(text) {
                Some(project) => EventView::Parsed(project),
                None => EventView::Refused(self.reason),
            },
            ActionView::OpenEntry(file) => if self.has(file) {
                EventView::EntryOpened { size: self.entries[self.index_of(file)].size }
            } else {
                EventView::Refused(self.reason)
            },
            ActionView::CheckCancelled => EventView::Cancelled(false),
            _ => EventView::Done,
        }
    }

    /// The events are what the scene answers, each to what was asked for when it came, and
    /// nothing was answered once the download had ended.
    pub open spec fn tells(
        self,
        mode: Mode,
        names: Seq<Seq<char>>,
        events: Seq<EventView>,
    ) -> bool
        decreases events.len(),
    {
        events.len() == 0 || ({
            let b = super::course::run(DownloadView::start(mode, names), events.drop_last());
            &&& self.tells(mode, names, events.drop_last())
            &&& !b.ended
            &&& events.last() == self.reply(mode, b.request())
        })
    }

    /// The entry that a download in the state `b` holds after an event, where it held `held`
    /// before.
    pub open spec fn held_after(
        self,
        b: DownloadView,
        event: EventView,
        held: Option<int>,
    ) -> Option<int> {
        match (b.request(), event) {
            (ActionView::OpenEntry(file), EventView::EntryOpened { .. }) => Some(
                self.index_of(file),
            ),
            (
                ActionView::InspectEntry(index),
                EventView::Entry { name, .. },
            ) if crate::download::scan_hit(b.step(), name) => Some(index as int),
            _ => held,
        }
    }

    /// The entry that a download has got hold of last: it was opened by its name, or a search
    /// ended with it.
    pub open spec fn held(
        self,
        mode: Mode,
        names: Seq<Seq<char>>,
        events: Seq<EventView>,
    ) -> Option<int>
        decreases events.len(),
    {
        if events.len() == 0 {
            None
        } else {
            self.held_after(
                super::course::run(DownloadView::start(mode, names), events.drop_last()),
                events.last(),
                self.held(mode, names, events.drop_last()),
            )
        }
    }

    /// What the device and the user were told, in its order.
    pub open spec fn sent(
        self,
        mode: Mode,
        names: Seq<Seq<char>>,
        events: Seq<EventView>,
    ) -> Seq<Sent>
        decreases events.len(),
    {
        if events.len() == 0 {
            Seq::empty()
        } else {
            let b = super::course::run(DownloadView::start(mode, names), events.drop_last());
            let before = self.sent(mode, names, events.drop_last());
            match sending(b.request(), self.held(mode, names, events.drop_last())) {
                Some(s) => before.push(s),
                None => before,
            }
        }
    }
}

/// What the device and the user are told: what is asked for, and where the device is to take
/// the contents of an entry, which entry that is. How long its answer is waited for does not
/// count.
pub struct Sent {
    pub request: ActionView,
    pub entry: Option<int>,
}

/// What the device or the user is told by an action while a download has got hold of an entry,
/// if the action is for one of them.
pub open spec fn sending(action: ActionView, held: Option<int>) -> Option<Sent> {
    match action {
        ActionView::Handshake(_)
        | ActionView::StartRamDownload
        | ActionView::EndRamDownload
        | ActionView::StartPartitionAbsolute32 { .. }
        | ActionView::StartPartitionAbsolute { .. }
        | ActionView::StartPartitionId { .. }
        | ActionView::SetPartitionTable
        | ActionView::Report(_)
        | ActionView::Log(_)
        | ActionView::CheckCancelled => Some(Sent { request: action, entry: None }),
        ActionView::WriteImage { .. } => Some(Sent { request: action, entry: held }),
        ActionView::EndPartition { .. } => Some(
            Sent { request: ActionView::EndPartition { timeout_secs: None }, entry: None },
        ),
        _ => None,
    }
}

/// The last event ended the download, and it has succeeded.
pub open spec fn succeeded(mode: Mode, names: Seq<Seq<char>>, events: Seq<EventView>) -> bool {
    events.len() > 0 && super::course::run(
        DownloadView::start(mode, names),
        events.drop_last(),
    ).answer(events.last()) == ActionView::Finished(Ok(()))
}

// What a plan comes to, step by step.

/// What a step asks for while the entry that was got hold of has `size` bytes.
pub open spec fn asked(step: StepView, size: u64) -> ActionView {
    DownloadView {
        steps: seq![step],
        size,
        ..DownloadView::start(Mode::Async, Seq::empty())
    }.request()
}

/// The step can be completed: it does not give up, and the entry that it wants is there.
pub open spec fn can_take(scene: Scene, step: StepView) -> bool {
    match step {
        StepView::Fail(_) => false,
        StepView::OpenEntry { file, .. } => scene.has(file),
        StepView::SearchEntry { file } => scene.has(file),
        _ => true,
    }
}

/// Each of the steps can be completed.
pub open spec fn can_take_all(scene: Scene, steps: Seq<StepView>) -> bool {
    forall|i: int| 0 <= i < steps.len() ==> can_take(scene, #[trigger] steps[i])
}

/// The entry that is held after the step.
pub open spec fn hold(scene: Scene, from: Option<int>, step: StepView) -> Option<int> {
    match step {
        StepView::OpenEntry { file, .. } => Some(scene.index_of(file)),
        StepView::SearchEntry { file } => Some(scene.index_of(file)),
        _ => from,
    }
}

pub open spec fn hold_all(scene: Scene, from: Option<int>, steps: Seq<StepView>) -> Option<int>
    decreases steps.len(),
{
    if steps.len() == 0 {
        from
    } else {
        hold(scene, hold_all(scene, from, steps.drop_last()), steps.last())
    }
}

/// What the steps tell the device and the user.
pub open spec fn trace(scene: Scene, from: Option<int>, steps: Seq<StepView>) -> Seq<Sent>
    decreases steps.len(),
{
    if steps.len() == 0 {
        Seq::empty()
    } else {
        let before = trace(scene, from, steps.drop_last());
        let held = hold_all(scene, from, steps.drop_last());
        match sending(asked(steps.last(), scene.size_of(held)), held) {
            Some(s) => before.push(s),
            None => before,
        }
    }
}

proof fn lemma_trace_push(scene: Scene, from: Option<int>, steps: Seq<StepView>, step: StepView)
    ensures
        hold_all(scene, from, steps.push(step)) == hold(
            scene,
            hold_all(scene, from, steps),
            step,
        ),
        trace(scene, from, steps.push(step)) == ({
            let held = hold_all(scene, from, steps);
            match sending(asked(step, scene.size_of(held)), held) {
                Some(s) => trace(scene, from, steps).push(s),
                None => trace(scene, from, steps),
            }
        }),
{
    assert(steps.push(step).drop_last() =~= steps);
}

pub(crate) proof fn lemma_trace_concat(scene: Scene, from: Option<int>, a: Seq<StepView>, b: Seq<StepView>)
    ensures
        hold_all(scene, from, a + b) == hold_all(scene, hold_all(scene, from, a), b),
        trace(scene, from, a + b) == trace(scene, from, a) + trace(
            scene,
            hold_all(scene, from, a),
            b,
        ),
    decreases b.len(),
{
    if b.len() == 0 {
        assert(a + b =~= a);
        assert(trace(scene, from, a + b) =~= trace(scene, from, a) + trace(
            scene,
            hold_all(scene, from, a),
            b,
        ));
    } else {
        lemma_trace_concat(scene, from, a, b.drop_last());
        assert((a + b).drop_last() =~= a + b.drop_last());
        assert((a + b).last() == b.last());
        assert(trace(scene, from, a + b) =~= trace(scene, from, a) + trace(
            scene,
            hold_all(scene, from, a),
            b,
        ));
    }
}

/// Where the first steps can be taken so can the second ones, and they tell the device the
/// same and end with the same entry.
spec fn agrees(scene: Scene, a: Seq<StepView>, b: Seq<StepView>) -> bool {
    can_take_all(scene, a) ==> can_take_all(scene, b) && forall|from: Option<int>|
        #![trigger trace(scene, from, a)]
        #![trigger trace(scene, from, b)]
        #![trigger hold_all(scene, from, a)]
        #![trigger hold_all(scene, from, b)]
        trace(scene, from, a) == trace(scene, from, b) && hold_all(scene, from, a) == hold_all(
            scene,
            from,
            b,
        )
}

proof fn lemma_agrees_concat(
    scene: Scene,
    a: Seq<StepView>,
    b: Seq<StepView>,
    c: Seq<StepView>,
    d: Seq<StepView>,
)
    requires
        agrees(scene, a, b),
        agrees(scene, c, d),
    ensures
        agrees(scene, a + c, b + d),
{
    if can_take_all(scene, a + c) {
        assert forall|i: int| 0 <= i < a.len() implies can_take(scene, #[trigger] a[i]) by {
            assert(a[i] == (a + c)[i]);
        }
        assert forall|i: int| 0 <= i < c.len() implies can_take(scene, #[trigger] c[i]) by {
            assert(c[i] == (a + c)[a.len() + i]);
        }
        assert(can_take_all(scene, b + d));
        assert forall|from: Option<int>| trace(scene, from, a + c) == trace(scene, from, b + d)
            && hold_all(scene, from, a + c) == hold_all(scene, from, b + d) by {
            lemma_trace_concat(scene, from, a, c);
            lemma_trace_concat(scene, from, b, d);
            assert(trace(scene, from, a) == trace(scene, from, b));
        }
    }
}

proof fn lemma_agrees_with_itself(scene: Scene, a: Seq<StepView>)
    ensures
        agrees(scene, a, a),
{
}

/// An entry may be got hold of before the device is told of the download to its memory, or
/// after it.
proof fn lemma_entry_and_ram(scene: Scene, file: Seq<char>, missing: Seq<char>)
    ensures
        agrees(
            scene,
            seq![StepView::OpenEntry { file, missing }, StepView::StartRamDownload],
            seq![StepView::StartRamDownload, StepView::SearchEntry { file }],
        ),
{
    let none = Seq::<StepView>::empty();
    let open = StepView::OpenEntry { file, missing };
    let search = StepView::SearchEntry { file };
    let ram = StepView::StartRamDownload;
    let a = seq![open, ram];
    let b = seq![ram, search];
    assert(a =~= none.push(open).push(ram));
    assert(b =~= none.push(ram).push(search));
    if can_take_all(scene, a) {
        assert(can_take(scene, a[0]));
        assert forall|from: Option<int>| trace(scene, from, a) == trace(scene, from, b)
            && hold_all(scene, from, a) == hold_all(scene, from, b) by {
            lemma_trace_push(scene, from, none, open);
            lemma_trace_push(scene, from, none.push(open), ram);
            lemma_trace_push(scene, from, none, ram);
            lemma_trace_push(scene, from, none.push(ram), search);
        }
    }
}

proof fn lemma_entry_alone(scene: Scene, file: Seq<char>, missing: Seq<char>)
    ensures
        agrees(
            scene,
            seq![StepView::OpenEntry { file, missing }],
            seq![StepView::SearchEntry { file }],
        ),
{
    let none = Seq::<StepView>::empty();
    let open = StepView::OpenEntry { file, missing };
    let search = StepView::SearchEntry { file };
    let a = seq![open];
    let b = seq![search];
    assert(a =~= none.push(open));
    assert(b =~= none.push(search));
    if can_take_all(scene, a) {
        assert(can_take(scene, a[0]));
        assert forall|from: Option<int>| trace(scene, from, a) == trace(scene, from, b)
            && hold_all(scene, from, a) == hold_all(scene, from, b) by {
            lemma_trace_push(scene, from, none, open);
            lemma_trace_push(scene, from, none, search);
        }
    }
}

proof fn lemma_end_of_a_partition(scene: Scene, x: Option<u64>, y: Option<u64>)
    ensures
        agrees(
            scene,
            seq![StepView::EndPartition { timeout_secs: x }],
            seq![StepView::EndPartition { timeout_secs: y }],
        ),
{
    let none = Seq::<StepView>::empty();
    let a = seq![StepView::EndPartition { timeout_secs: x }];
    let b = seq![StepView::EndPartition { timeout_secs: y }];
    assert(a =~= none.push(a[0]));
    assert(b =~= none.push(b[0]));
    assert forall|from: Option<int>| trace(scene, from, a) == trace(scene, from, b) && hold_all(
        scene,
        from,
        a,
    ) == hold_all(scene, from, b) by {
        lemma_trace_push(scene, from, none, a[0]);
        lemma_trace_push(scene, from, none, b[0]);
    }
}

/// Steps that give up agree with any others.
proof fn lemma_giving_up_agrees(scene: Scene, a: Seq<StepView>, b: Seq<StepView>, i: int)
    requires
        0 <= i < a.len(),
        a[i] is Fail,
    ensures
        agrees(scene, a, b),
{
    assert(!can_take(scene, a[i]));
}

proof fn lemma_fdl_stages_agree(
    scene: Scene,
    images: Seq<ImageView>,
    name: Seq<char>,
    wide: bool,
)
    ensures
        agrees(
            scene,
            crate::plan::fdl_stage(Mode::Blocking, images, name, wide),
            crate::plan::fdl_stage(Mode::Async, images, name, wide),
        ),
{
    let a = crate::plan::fdl_stage(Mode::Blocking, images, name, wide);
    let b = crate::plan::fdl_stage(Mode::Async, images, name, wide);
    if let Some(image) = crate::partition::find_image(images, name) {
        if let Some(file) = image.file {
            if let BlockView::Absolute(address) = image.block {
                let missing = name + " image was not found in the image file: "@;
                let first = seq![
                    StepView::OpenEntry { file, missing },
                    StepView::StartRamDownload,
                ];
                let second = seq![StepView::StartRamDownload, StepView::SearchEntry { file }];
                let middle = crate::plan::transfer(
                    crate::plan::fdl_target(wide, address),
                    name,
                    crate::plan::FDL_CHUNK_SIZE,
                    None,
                );
                let last = seq![StepView::EndRamDownload];
                lemma_entry_and_ram(scene, file, missing);
                lemma_agrees_with_itself(scene, middle);
                lemma_agrees_with_itself(scene, last);
                lemma_agrees_concat(scene, first, second, middle, middle);
                lemma_agrees_concat(scene, first + middle, second + middle, last, last);
                assert(a =~= first + middle + last);
                assert(b =~= second + middle + last);
            } else {
                lemma_giving_up_agrees(scene, a, b, 1);
            }
        } else {
            lemma_giving_up_agrees(scene, a, b, 0);
        }
    } else {
        lemma_giving_up_agrees(scene, a, b, 0);
    }
}

proof fn lemma_image_stage_agrees(scene: Scene, image: ImageView)
    ensures
        agrees(
            scene,
            crate::plan::image_stage(Mode::Blocking, image),
            crate::plan::image_stage(Mode::Async, image),
        ),
{
    let a = crate::plan::image_stage(Mode::Blocking, image);
    let b = crate::plan::image_stage(Mode::Async, image);
    if let Some(file) = image.file {
        if let BlockView::Partition(id) = image.block {
            let missing = "image "@ + image.name + " was not found in the archive: "@;
            let head = seq![a[0], a[1]];
            let first = seq![StepView::OpenEntry { file, missing }];
            let second = seq![StepView::SearchEntry { file }];
            let middle = seq![a[3], a[4]];
            let last = seq![a[5]];
            let last2 = seq![b[5]];
            lemma_agrees_with_itself(scene, head);
            lemma_agrees_with_itself(scene, middle);
            lemma_entry_alone(scene, file, missing);
            lemma_end_of_a_partition(scene, a[5]->timeout_secs, b[5]->timeout_secs);
            lemma_agrees_concat(scene, head, head, first, second);
            lemma_agrees_concat(scene, head + first, head + second, middle, middle);
            lemma_agrees_concat(
                scene,
                head + first + middle,
                head + second + middle,
                last,
                last2,
            );
            assert(a =~= head + first + middle + last);
            assert(b =~= head + second + middle + last2);
        } else {
            lemma_giving_up_agrees(scene, a, b, 3);
        }
    } else {
        lemma_giving_up_agrees(scene, a, b, 2);
    }
}

proof fn lemma_image_stages_agree(scene: Scene, names: Seq<Seq<char>>, images: Seq<ImageView>)
    ensures
        agrees(
            scene,
            crate::plan::image_stages(Mode::Blocking, names, images),
            crate::plan::image_stages(Mode::Async, names, images),
        ),
    decreases images.len(),
{
    if images.len() > 0 {
        lemma_image_stages_agree(scene, names, images.drop_last());
        if crate::config::selected(names, images.last()) {
            lemma_image_stage_agrees(scene, images.last());
            lemma_agrees_concat(
                scene,
                crate::plan::image_stages(Mode::Blocking, names, images.drop_last()),
                crate::plan::image_stages(Mode::Async, names, images.drop_last()),
                crate::plan::image_stage(Mode::Blocking, images.last()),
                crate::plan::image_stage(Mode::Async, images.last()),
            );
        }
    } else {
        lemma_agrees_with_itself(
            scene,
            crate::plan::image_stages(Mode::Blocking, names, images),
        );
    }
}

proof fn lemma_plans_agree(scene: Scene, names: Seq<Seq<char>>, project: ProjectView)
    requires
        project.two_level_fdl,
    ensures
        agrees(
            scene,
            crate::plan::project_steps(Mode::Blocking, names, project),
            crate::plan::project_steps(Mode::Async, names, project),
        ),
{
    let images = project.images;
    let g = crate::plan::greeting();
    let t = crate::plan::table_stage();
    let l = crate::plan::log_stage(names, images);
    let h = seq![StepView::Handshake("fdl1"@)];
    let f = crate::plan::fdl_stages(Mode::Blocking, project);
    let f2 = crate::plan::fdl_stages(Mode::Async, project);
    let s = crate::plan::image_stages(Mode::Blocking, names, images);
    let s2 = crate::plan::image_stages(Mode::Async, names, images);
    let a = crate::plan::fdl_stage(Mode::Blocking, images, "FDL1"@, false);
    let a2 = crate::plan::fdl_stage(Mode::Async, images, "FDL1"@, false);
    let c = crate::plan::fdl_stage(Mode::Blocking, images, "FDL2"@, true);
    let c2 = crate::plan::fdl_stage(Mode::Async, images, "FDL2"@, true);
    lemma_fdl_stages_agree(scene, images, "FDL1"@, false);
    lemma_fdl_stages_agree(scene, images, "FDL2"@, true);
    lemma_image_stages_agree(scene, names, images);
    lemma_agrees_with_itself(scene, g);
    lemma_agrees_with_itself(scene, t);
    lemma_agrees_with_itself(scene, l);
    lemma_agrees_with_itself(scene, h);
    lemma_agrees_concat(scene, a, a2, h, h);
    lemma_agrees_concat(scene, a + h, a2 + h, c, c2);
    lemma_agrees_concat(scene, g, g, f, f2);
    lemma_agrees_concat(scene, g + f, g + f2, t, t);
    lemma_agrees_concat(scene, g + f + t, g + f2 + t, l, l);
    lemma_agrees_concat(scene, g + f + t + l, g + f2 + t + l, s, s2);
}

// What a run comes to, event by event.

/// What holds of a download that has not come to the steps of a project yet.
spec fn opening_so_far(scene: Scene, d: DownloadView, held: Option<int>) -> bool {
    &&& d.steps == crate::plan::opening()
    &&& d.next < 2 ==> d.index == 0
    &&& d.next == 2 ==> d.index <= scene.entries.len() && forall|j: int|
        0 <= j < d.index ==> !#[trigger] scene.is_xml(j)
    &&& d.next >= 3 ==> scene.is_description(d.index as int) && held == Some(d.index as int)
    &&& d.next == 4 ==> scene.entries[d.index as int].text == Some(d.text)
}

/// What holds of a download that has come to the steps of a project.
spec fn project_so_far(scene: Scene, d: DownloadView, project: ProjectView) -> bool {
    &&& scene.describes(project)
    &&& d.steps == crate::plan::opening() + crate::plan::project_steps(d.mode, d.names, project)
    &&& scene.entries[scene.description()].text == Some(d.text)
    &&& can_take_all(scene, super::course::steps_taken(d))
    &&& d.next < d.steps.len() ==> searched(scene, d)
}

/// What the user is told before the project description is looked for.
pub open spec fn loading() -> Sent {
    Sent { request: ActionView::Report("Loading the AXP image configuration"@), entry: None }
}

/// What holds of a download whatever it has come to.
spec fn so_far(
    scene: Scene,
    mode: Mode,
    names: Seq<Seq<char>>,
    events: Seq<EventView>,
) -> bool {
    let d = super::course::run(DownloadView::start(mode, names), events);
    let held = scene.held(mode, names, events);
    let sent = scene.sent(mode, names, events);
    let from = Some(scene.description());
    &&& d.wf()
    &&& d.mode == mode
    &&& d.names == names
    &&& d.size == scene.size_of(held)
    &&& d.entries == (if mode == Mode::Blocking && d.next > 0 {
        Some(scene.entries.len() as usize)
    } else {
        None
    })
    &&& d.next < super::course::opening_len() ==> opening_so_far(scene, d, held) && sent == (
    if d.next < 2 {
        Seq::<Sent>::empty()
    } else {
        seq![loading()]
    })
    &&& d.next >= super::course::opening_len() ==> exists|project: ProjectView| #[trigger]
        project_so_far(scene, d, project)
    &&& d.next >= super::course::opening_len() ==> {
        &&& sent == seq![loading()] + trace(scene, from, super::course::steps_taken(d))
        &&& held == hold_all(scene, from, super::course::steps_taken(d))
    }
}

/// A step that asks the device for something asks for the same in any download.
proof fn lemma_asked(d: DownloadView)
    requires
        d.next < d.steps.len(),
    ensures
        sending(d.request(), None) is Some ==> d.request() == asked(d.step(), d.size),
        sending(asked(d.step(), d.size), None) is Some ==> d.request() == asked(
            d.step(),
            d.size,
        ),
{
}

proof fn lemma_description(scene: Scene, i: int)
    requires
        scene.is_description(i),
    ensures
        scene.description() == i,
{
    let d = scene.description();
    assert(scene.is_description(d));
    if d < i {
        assert(!scene.is_xml(d));
    } else if i < d {
        assert(!scene.is_xml(i));
    }
}

proof fn lemma_index_of(scene: Scene, i: int, file: Seq<char>)
    requires
        scene.wf(),
        scene.is_called(i, file),
    ensures
        scene.has(file),
        scene.index_of(file) == i,
{
    let j = scene.index_of(file);
    assert(scene.is_called(j, file));
    if i < j {
        assert(scene.entries[i].name != scene.entries[j].name);
    } else if j < i {
        assert(scene.entries[j].name != scene.entries[i].name);
    }
}

proof fn lemma_so_far_opening(
    scene: Scene,
    mode: Mode,
    names: Seq<Seq<char>>,
    events: Seq<EventView>,
)
    requires
        scene.wf(),
        scene.tells(mode, names, events),
        events.len() > 0,
        so_far(scene, mode, names, events.drop_last()),
        super::course::run(DownloadView::start(mode, names), events.drop_last()).next
            < super::course::opening_len(),
    ensures
        so_far(scene, mode, names, events),
        super::course::run(DownloadView::start(mode, names), events.drop_last()).accepts(
            events.last(),
        ),
{
    let before = events.drop_last();
    let b = super::course::run(DownloadView::start(mode, names), before);
    let d = super::course::run(DownloadView::start(mode, names), events);
    let event = events.last();
    assert(d == b.after(event));
    let held = scene.held(mode, names, events);
    assert(scene.sent(mode, names, events) =~= (if d.next < 2 {
        Seq::<Sent>::empty()
    } else {
        seq![loading()]
    }));
    if b.next == 4 {
        lemma_description(scene, b.index as int);
        if let Some(project) = (scene.parser)(b.text) {
            let plan = crate::plan::project_steps(mode, names, project);
            assert(plan[0] == crate::plan::greeting()[0]);
            assert(d.steps[5] == plan[0]);
            assert(super::course::steps_taken(d) =~= Seq::<StepView>::empty());
            assert(trace(scene, Some(scene.description()), super::course::steps_taken(d))
                =~= Seq::<Sent>::empty());
            assert(scene.sent(mode, names, events) =~= seq![loading()] + trace(
                scene,
                Some(scene.description()),
                super::course::steps_taken(d),
            ));
            assert(project_so_far(scene, d, project));
        }
    } else if b.next == 2 {
        assert(b.step() is FindConfig);
        if b.index < scene.entries.len() {
            assert(scene.is_xml(b.index as int) == crate::download::scan_hit(
                b.step(),
                Some(scene.entries[b.index as int].name),
            ));
        }
    }
}

/// The entries before the one that a search looks at are not the one that it looks for.
spec fn searched(scene: Scene, d: DownloadView) -> bool {
    d.step() matches StepView::SearchEntry { file } ==> d.index <= scene.entries.len()
        && forall|j: int| 0 <= j < d.index ==> !#[trigger] scene.is_called(j, file)
}

proof fn lemma_one_event(scene: Scene, b: DownloadView, held: Option<int>)
    requires
        scene.wf(),
        b.wf(),
        !b.ended,
        b.next < b.steps.len(),
        super::course::later(b.step()),
        b.step() is SearchEntry ==> b.mode == Mode::Async,
        b.size == scene.size_of(held),
        searched(scene, b),
    ensures
        ({
            let event = scene.reply(b.mode, b.request());
            let d = b.after(event);
            let now = scene.held_after(b, event, held);
            &&& b.accepts(event)
            &&& d == (DownloadView {
                next: d.next,
                index: d.index,
                size: d.size,
                ended: d.ended,
                ..b
            })
            &&& d.wf()
            &&& d.size == scene.size_of(now)
            &&& d.next == b.next || d.next == b.next + 1
            &&& d.next == b.next ==> {
                &&& now == held
                &&& searched(scene, d)
                &&& super::protocol::is_entry_step(b.step())
                &&& d.ended ==> !can_take(scene, b.step())
            }
            &&& d.next == b.next + 1 ==> {
                &&& now == hold(scene, held, b.step())
                &&& can_take(scene, b.step())
                &&& d.next < d.steps.len() ==> searched(scene, d)
                &&& d.ended ==> d.next == d.steps.len() || d.step() is Fail || d.step() is FindConfig
            }
        }),
{
    let event = scene.reply(b.mode, b.request());
    let d = b.after(event);
    match b.step() {
        StepView::SearchEntry { file } => {
            if b.index < scene.entries.len() {
                assert(scene.is_called(b.index as int, file) == (scene.entries[b.index as int].name
                    == file));
                if scene.entries[b.index as int].name == file {
                    lemma_index_of(scene, b.index as int, file);
                } else {
                    assert(d == b.again());
                }
            } else {
                if scene.has(file) {
                    let i = choose|i: int| scene.is_called(i, file);
                    assert(!scene.is_called(i, file));
                }
            }
        },
        StepView::OpenEntry { file, missing } => {
            if scene.has(file) {
                assert(scene.is_called(scene.index_of(file), file));
            }
        },
        _ => {
            assert(d == b.onward(event));
        },
    }
}

proof fn lemma_so_far_project(
    scene: Scene,
    mode: Mode,
    names: Seq<Seq<char>>,
    events: Seq<EventView>,
)
    requires
        scene.wf(),
        scene.tells(mode, names, events),
        events.len() > 0,
        so_far(scene, mode, names, events.drop_last()),
        super::course::run(DownloadView::start(mode, names), events.drop_last()).next
            >= super::course::opening_len(),
    ensures
        so_far(scene, mode, names, events),
        super::course::run(DownloadView::start(mode, names), events.drop_last()).accepts(
            events.last(),
        ),
{
    let before = events.drop_last();
    let b = super::course::run(DownloadView::start(mode, names), before);
    let d = super::course::run(DownloadView::start(mode, names), events);
    let event = events.last();
    let held = scene.held(mode, names, before);
    assert(d == b.after(event));
    let project = choose|project: ProjectView| #[trigger] project_so_far(scene, b, project);
    lemma_project_step(scene, b, project);
    lemma_one_event(scene, b, held);
    let taken = super::course::steps_taken(b);
    lemma_trace_push(scene, Some(scene.description()), taken, b.step());
    lemma_asked(b);
    if d.next == b.next + 1 {
        assert(super::course::steps_taken(d) =~= taken.push(b.step()));
    } else {
        assert(super::course::steps_taken(d) =~= taken);
    }
    assert(scene.sent(mode, names, events) =~= seq![loading()] + trace(
        scene,
        Some(scene.description()),
        super::course::steps_taken(d),
    ));
    assert(project_so_far(scene, d, project));
}

/// The step of a project that is being taken is one of its plan.
proof fn lemma_project_step(scene: Scene, b: DownloadView, project: ProjectView)
    requires
        project_so_far(scene, b, project),
        super::course::opening_len() <= b.next < b.steps.len(),
    ensures
        super::course::later(b.step()),
        b.step() is SearchEntry ==> b.mode == Mode::Async,
{
    let plan = crate::plan::project_steps(b.mode, b.names, project);
    let i = b.next - super::course::opening_len();
    super::course::lemma_project_steps_kinds(b.mode, b.names, project);
    assert(b.step() == plan[i]);
    assert(super::course::later(plan[i]));
    if b.mode == Mode::Blocking {
        super::course::lemma_no_search(b.names, project);
        assert(!(plan[i] is SearchEntry));
    }
}

proof fn lemma_so_far(scene: Scene, mode: Mode, names: Seq<Seq<char>>, events: Seq<EventView>)
    requires
        scene.wf(),
        scene.tells(mode, names, events),
    ensures
        so_far(scene, mode, names, events),
        super::course::answers(DownloadView::start(mode, names), events),
    decreases events.len(),
{
    if events.len() > 0 {
        let before = events.drop_last();
        lemma_so_far(scene, mode, names, before);
        if super::course::run(DownloadView::start(mode, names), before).next
            < super::course::opening_len() {
            lemma_so_far_opening(scene, mode, names, events);
        } else {
            lemma_so_far_project(scene, mode, names, events);
        }
    }
}

/// How many of the steps up to the project are left.
spec fn opening_left(d: DownloadView) -> int {
    if d.next < super::course::opening_len() {
        super::course::opening_len() - d.next
    } else {
        0
    }
}

/// How many entries are left to a search.
spec fn entries_left(scene: Scene, d: DownloadView) -> int {
    if d.index < scene.entries.len() {
        scene.entries.len() - d.index
    } else {
        0
    }
}

/// A download that has not ended gets one event further.
proof fn lemma_goes_on(
    scene: Scene,
    mode: Mode,
    names: Seq<Seq<char>>,
    events: Seq<EventView>,
)
    requires
        scene.wf(),
        scene.tells(mode, names, events),
        !super::course::run(DownloadView::start(mode, names), events).ended,
    ensures
        ({
            let start = DownloadView::start(mode, names);
            let d = super::course::run(start, events);
            let event = scene.reply(mode, d.request());
            let a = super::course::run(start, events.push(event));
            &&& scene.tells(mode, names, events.push(event))
            &&& !a.ended ==> decreases_to!(
                opening_left(d), d.steps.len() - d.next, entries_left(scene, d) =>
                opening_left(a), a.steps.len() - a.next, entries_left(scene, a))
        }),
{
    let start = DownloadView::start(mode, names);
    let d = super::course::run(start, events);
    let event = scene.reply(mode, d.request());
    let all = events.push(event);
    assert(all.drop_last() =~= events);
    lemma_so_far(scene, mode, names, events);
    assert(scene.tells(mode, names, all));
    lemma_so_far(scene, mode, names, all);
    let a = super::course::run(start, all);
    assert(a == d.after(event));
    super::course::law_one_step_at_a_time(d, event);
    if d.next >= super::course::opening_len() {
        let told = choose|told: ProjectView| #[trigger] project_so_far(scene, d, told);
        lemma_project_step(scene, d, told);
        lemma_one_event(scene, d, scene.held(mode, names, events));
    }
}

/// A download comes to its end.
proof fn lemma_comes_to_its_end(
    scene: Scene,
    mode: Mode,
    names: Seq<Seq<char>>,
    events: Seq<EventView>,
) -> (all: Seq<EventView>)
    requires
        scene.wf(),
        scene.tells(mode, names, events),
        !super::course::run(DownloadView::start(mode, names), events).ended,
    ensures
        scene.tells(mode, names, all),
        super::course::run(DownloadView::start(mode, names), all).ended,
    decreases
            opening_left(super::course::run(DownloadView::start(mode, names), events)),
            super::course::run(DownloadView::start(mode, names), events).steps.len()
                - super::course::run(DownloadView::start(mode, names), events).next,
            entries_left(
                scene,
                super::course::run(DownloadView::start(mode, names), events),
            ),
{
    let start = DownloadView::start(mode, names);
    let event = scene.reply(mode, super::course::run(start, events).request());
    let more = events.push(event);
    lemma_goes_on(scene, mode, names, events);
    if super::course::run(start, more).ended {
        more
    } else {
        lemma_comes_to_its_end(scene, mode, names, more)
    }
}

/// What a download is told in a scene is determined: of two courses the shorter one is the
/// beginning of the longer one.
proof fn lemma_told_the_same(
    scene: Scene,
    mode: Mode,
    names: Seq<Seq<char>>,
    a: Seq<EventView>,
    b: Seq<EventView>,
)
    requires
        scene.tells(mode, names, a),
        scene.tells(mode, names, b),
        a.len() <= b.len(),
    ensures
        b.take(a.len() as int) == a,
        a.len() < b.len() ==> !super::course::run(DownloadView::start(mode, names), a).ended,
    decreases b.len(),
{
    if a.len() < b.len() {
        let before = b.drop_last();
        lemma_told_the_same(scene, mode, names, a, before);
        assert(b.take(a.len() as int) =~= before.take(a.len() as int));
        if a.len() == before.len() {
            assert(before.take(a.len() as int) =~= before);
        }
    } else if a.len() > 0 {
        let x = a.drop_last();
        let y = b.drop_last();
        lemma_told_the_same(scene, mode, names, x, y);
        assert(y.take(x.len() as int) =~= y);
        assert(a =~= x.push(a.last()));
        assert(b =~= y.push(b.last()));
        assert(b.take(a.len() as int) =~= b);
    } else {
        assert(b.take(0) =~= a);
    }
}

/// In a scene there is one way for a download to end.
proof fn lemma_one_end(scene: Scene, mode: Mode, names: Seq<Seq<char>>, events: Seq<EventView>)
    requires
        scene.tells(mode, names, events),
        super::course::run(DownloadView::start(mode, names), events).ended,
    ensures
        forall|other: Seq<EventView>| #[trigger]
            scene.tells(mode, names, other) && super::course::run(
                DownloadView::start(mode, names),
                other,
            ).ended ==> other == events,
{
    assert forall|other: Seq<EventView>| #[trigger]
        scene.tells(mode, names, other) && super::course::run(
            DownloadView::start(mode, names),
            other,
        ).ended implies other == events by {
        if other.len() <= events.len() {
            lemma_told_the_same(scene, mode, names, other, events);
            assert(events.take(events.len() as int) =~= events);
        } else {
            lemma_told_the_same(scene, mode, names, events, other);
        }
    }
}

/// A download that succeeds has come to the end of its steps.
proof fn lemma_last_event(b: DownloadView, event: EventView)
    requires
        b.wf(),
        b.accepts(event),
        b.answer(event) == ActionView::Finished(Ok(())),
    ensures
        b.after(event).ended,
        b.after(event).next == b.after(event).steps.len(),
{
    super::course::law_one_step_at_a_time(b, event);
}

/// A download that has succeeded has taken each step of the project that the archive
/// describes.
#[verifier::rlimit(40)]
proof fn lemma_success(scene: Scene, mode: Mode, names: Seq<Seq<char>>, events: Seq<EventView>)
    requires
        scene.wf(),
        scene.tells(mode, names, events),
        succeeded(mode, names, events),
    ensures
        exists|project: ProjectView|
            {
                let plan = crate::plan::project_steps(mode, names, project);
                &&& #[trigger] scene.describes(project)
                &&& can_take_all(scene, plan)
                &&& super::course::steps_taken(
                    super::course::run(DownloadView::start(mode, names), events),
                ) == plan
                &&& scene.sent(mode, names, events) == seq![loading()] + trace(
                    scene,
                    Some(scene.description()),
                    plan,
                )
            },
        super::course::run(DownloadView::start(mode, names), events).ended,
        scene.entries[scene.description()].text == Some(
            super::course::run(DownloadView::start(mode, names), events).text,
        ),
{
    lemma_so_far(scene, mode, names, events);
    lemma_so_far(scene, mode, names, events.drop_last());
    let b = super::course::run(DownloadView::start(mode, names), events.drop_last());
    let d = super::course::run(DownloadView::start(mode, names), events);
    lemma_last_event(b, events.last());
    let project = choose|project: ProjectView| #[trigger] project_so_far(scene, d, project);
    let plan = crate::plan::project_steps(mode, names, project);
    assert(super::course::steps_taken(d) =~= plan);
    assert(scene.describes(project));
}

/// Why a step that cannot be taken ends the download.
pub open spec fn step_defect(scene: Scene, step: StepView) -> Seq<char> {
    match step {
        StepView::Fail(message) => message,
        StepView::OpenEntry { missing, .. } => missing + scene.reason.shown,
        StepView::SearchEntry { file } => "image was not found in the image file: "@ + file,
        _ => Seq::empty(),
    }
}

/// The archive has an entry with the name of a project description.
pub open spec fn has_description(scene: Scene) -> bool {
    exists|i: int| 0 <= i < scene.entries.len() && #[trigger] scene.is_xml(i)
}

/// How a download that has not come to the steps of a project ends.
#[verifier::rlimit(40)]
pub(crate) proof fn lemma_early_ending(
    scene: Scene,
    mode: Mode,
    names: Seq<Seq<char>>,
    events: Seq<EventView>,
)
    requires
        scene.wf(),
        scene.tells(mode, names, events),
        super::course::run(DownloadView::start(mode, names), events).ended,
        super::course::run(DownloadView::start(mode, names), events).next
            < super::course::opening_len(),
    ensures
        ({
            let b = super::course::run(DownloadView::start(mode, names), events.drop_last());
            let d = super::course::run(DownloadView::start(mode, names), events);
            let answer = b.answer(events.last());
            let text = scene.entries[scene.description()].text;
            &&& events.len() > 0
            &&& 2 <= d.next <= 4
            &&& scene.sent(mode, names, events) == seq![loading()]
            &&& d.next == 2 ==> !has_description(scene) && answer == ActionView::Finished(
                Err(AxdlErrorView::ImageError("configuration file not found in the image"@)),
            )
            &&& d.next > 2 ==> has_description(scene) && scene.is_description(
                scene.description(),
            )
            &&& d.next == 3 ==> text is None && answer == ActionView::Finished(
                Err(
                    match mode {
                        Mode::Blocking => AxdlErrorView::ImageError(
                            "failed to read configuration file: "@ + scene.reason.shown,
                        ),
                        Mode::Async => AxdlErrorView::ImageAsyncZipError(scene.reason),
                    },
                ),
            )
            &&& d.next == 4 ==> text is Some && (scene.parser)(text->0) is None && answer
                == ActionView::Finished(
                Err(
                    AxdlErrorView::ImageError(
                        "failed to parse the configuration file: "@ + scene.reason.shown,
                    ),
                ),
            )
        }),
{
    let before = events.drop_last();
    let b = super::course::run(DownloadView::start(mode, names), before);
    let d = super::course::run(DownloadView::start(mode, names), events);
    lemma_so_far(scene, mode, names, events);
    lemma_so_far(scene, mode, names, before);
    assert(d == b.after(events.last()));
    super::course::law_one_step_at_a_time(b, events.last());
    assert(b.next <= d.next);
    if d.next == 2 {
        if has_description(scene) {
            let i = choose|i: int| 0 <= i < scene.entries.len() && #[trigger] scene.is_xml(i);
            assert(d.index == scene.entries.len());
            assert(!scene.is_xml(i));
        }
    } else if d.next > 2 {
        lemma_description(scene, d.index as int);
        assert(scene.is_xml(d.index as int));
    }
}

/// How a download that has come to the steps of a project ends.
pub(crate) proof fn lemma_ending(
    scene: Scene,
    mode: Mode,
    names: Seq<Seq<char>>,
    events: Seq<EventView>,
) -> (r: (ProjectView, int))
    requires
        scene.wf(),
        scene.tells(mode, names, events),
        super::course::run(DownloadView::start(mode, names), events).ended,
        super::course::run(DownloadView::start(mode, names), events).next
            >= super::course::opening_len(),
    ensures
        ({
            let b = super::course::run(DownloadView::start(mode, names), events.drop_last());
            let (project, k) = r;
            let plan = crate::plan::project_steps(mode, names, project);
            &&& events.len() > 0
            &&& scene.describes(project)
            &&& 0 <= k <= plan.len()
            &&& can_take_all(scene, plan.take(k))
            &&& scene.sent(mode, names, events) == seq![loading()] + trace(
                scene,
                Some(scene.description()),
                plan.take(k),
            )
            &&& k < plan.len() ==> !can_take(scene, plan[k]) && b.answer(events.last())
                == ActionView::Finished(
                Err(AxdlErrorView::ImageError(step_defect(scene, plan[k]))),
            )
            &&& k == plan.len() ==> b.answer(events.last()) == ActionView::Finished(Ok(()))
        }),
{
    lemma_so_far(scene, mode, names, events);
    let d = super::course::run(DownloadView::start(mode, names), events);
    let n = super::course::opening_len() as int;
    let project = choose|project: ProjectView| #[trigger] project_so_far(scene, d, project);
    let plan = crate::plan::project_steps(mode, names, project);
    let k = d.next - n;
    assert(super::course::steps_taken(d) =~= plan.take(k));
    if k < plan.len() {
        assert(d.step() == plan[k]);
    }
    lemma_how_it_ends(scene, mode, names, events, project);
    (project, k)
}

#[verifier::rlimit(40)]
proof fn lemma_how_it_ends(
    scene: Scene,
    mode: Mode,
    names: Seq<Seq<char>>,
    events: Seq<EventView>,
    project: ProjectView,
)
    requires
        scene.wf(),
        scene.tells(mode, names, events),
        so_far(scene, mode, names, events),
        super::course::run(DownloadView::start(mode, names), events).ended,
        super::course::run(DownloadView::start(mode, names), events).next
            >= super::course::opening_len(),
        project_so_far(
            scene,
            super::course::run(DownloadView::start(mode, names), events),
            project,
        ),
    ensures
        events.len() > 0,
        ({
            let b = super::course::run(DownloadView::start(mode, names), events.drop_last());
            let d = super::course::run(DownloadView::start(mode, names), events);
            &&& d.next < d.steps.len() ==> !can_take(scene, d.step()) && b.answer(events.last())
                == ActionView::Finished(
                Err(AxdlErrorView::ImageError(step_defect(scene, d.step()))),
            )
            &&& d.next == d.steps.len() ==> b.answer(events.last()) == ActionView::Finished(
                Ok(()),
            )
        }),
{
    let before = events.drop_last();
    let b = super::course::run(DownloadView::start(mode, names), before);
    let d = super::course::run(DownloadView::start(mode, names), events);
    lemma_so_far(scene, mode, names, before);
    assert(d == b.after(events.last()));
    super::course::lemma_project_steps_kinds(mode, names, project);
    let n = super::course::opening_len() as int;
    let plan = crate::plan::project_steps(mode, names, project);
    if d.next < d.steps.len() {
        assert(d.step() == plan[d.next - n]);
        assert(super::course::later(plan[d.next - n]));
    }
    if b.next < n {
        assert(d.next == n);
        assert(plan[0] == crate::plan::greeting()[0]);
        assert(d.steps[n] == plan[0]);
        assert(false);
    } else {
        let told = choose|told: ProjectView| #[trigger] project_so_far(scene, b, told);
        lemma_project_step(scene, b, told);
        lemma_one_event(scene, b, scene.held(mode, names, before));
        lemma_one_ending(scene, b, scene.held(mode, names, before));
    }
}

proof fn lemma_one_ending(scene: Scene, b: DownloadView, held: Option<int>)
    requires
        scene.wf(),
        b.wf(),
        !b.ended,
        b.next < b.steps.len(),
        super::course::later(b.step()),
        b.step() is SearchEntry ==> b.mode == Mode::Async,
        b.size == scene.size_of(held),
        searched(scene, b),
        b.after(scene.reply(b.mode, b.request())).ended,
    ensures
        ({
            let event = scene.reply(b.mode, b.request());
            let d = b.after(event);
            &&& d.next == b.next ==> d.step() == b.step() && !can_take(scene, b.step())
                && b.answer(event) == ActionView::Finished(
                Err(AxdlErrorView::ImageError(step_defect(scene, b.step()))),
            )
            &&& d.next == b.next + 1 && d.next == d.steps.len() ==> b.answer(event)
                == ActionView::Finished(Ok(()))
            &&& d.next == b.next + 1 && d.next < d.steps.len() && super::course::later(d.step())
                ==> d.step() is Fail && b.answer(event) == ActionView::Finished(
                Err(AxdlErrorView::ImageError(step_defect(scene, d.step()))),
            )
        }),
{
    let event = scene.reply(b.mode, b.request());
    let d = b.after(event);
    lemma_one_event(scene, b, held);
    if d.next == b.next {
        assert(b.step() is OpenEntry || b.step() is SearchEntry);
    } else {
        assert(!(b.verdict(event) is Stop));
    }
}

/// Each download comes to its end, whatever the archive holds, and there is one way for it to
/// end.
pub proof fn law_every_download_ends(scene: Scene, mode: Mode, names: Seq<Seq<char>>) -> (events:
    Seq<EventView>)
    requires
        scene.wf(),
    ensures
        scene.tells(mode, names, events),
        super::course::answers(DownloadView::start(mode, names), events),
        super::course::run(DownloadView::start(mode, names), events).ended,
        forall|other: Seq<EventView>| #[trigger]
            scene.tells(mode, names, other) && super::course::run(
                DownloadView::start(mode, names),
                other,
            ).ended ==> other == events,
{
    let events = lemma_comes_to_its_end(scene, mode, names, Seq::empty());
    lemma_so_far(scene, mode, names, events);
    lemma_one_end(scene, mode, names, events);
    events
}

proof fn lemma_sound_image_succeeds(
    scene: Scene,
    mode: Mode,
    names: Seq<Seq<char>>,
    project: ProjectView,
    events: Seq<EventView>,
)
    requires
        scene.wf(),
        scene.describes(project),
        can_take_all(scene, crate::plan::project_steps(mode, names, project)),
        scene.tells(mode, names, events),
        super::course::run(DownloadView::start(mode, names), events).ended,
    ensures
        succeeded(mode, names, events),
{
    let d = super::course::run(DownloadView::start(mode, names), events);
    if d.next < super::course::opening_len() {
        lemma_early_ending(scene, mode, names, events);
        assert(scene.is_xml(scene.description()));
        assert(false);
    } else {
        let (told, k) = lemma_ending(scene, mode, names, events);
        let plan = crate::plan::project_steps(mode, names, project);
        assert(told == project);
        if k < plan.len() {
            assert(can_take(scene, plan[k]));
        }
    }
}

/// A sound image is downloaded, by either kind of download: where the archive describes a
/// project, each entry that the download needs is there, the user does not stop and the
/// device does what it is told, the download comes to its end and succeeds. It has then
/// taken each step of the project, and there is no other way for it to end.
pub proof fn law_sound_image_is_downloaded(
    scene: Scene,
    mode: Mode,
    names: Seq<Seq<char>>,
    project: ProjectView,
) -> (events: Seq<EventView>)
    requires
        scene.wf(),
        scene.describes(project),
        can_take_all(scene, crate::plan::project_steps(mode, names, project)),
    ensures
        scene.tells(mode, names, events),
        super::course::answers(DownloadView::start(mode, names), events),
        succeeded(mode, names, events),
        super::course::steps_taken(
            super::course::run(DownloadView::start(mode, names), events),
        ) == crate::plan::project_steps(mode, names, project),
        forall|other: Seq<EventView>| #[trigger]
            scene.tells(mode, names, other) && super::course::run(
                DownloadView::start(mode, names),
                other,
            ).ended ==> other == events,
{
    let events = law_every_download_ends(scene, mode, names);
    lemma_sound_image_succeeds(scene, mode, names, project, events);
    lemma_success(scene, mode, names, events);
    events
}

/// A download succeeds only with a sound image: the archive describes a project, and each
/// entry that the download needs is there.
pub proof fn law_only_a_sound_image_is_downloaded(
    scene: Scene,
    mode: Mode,
    names: Seq<Seq<char>>,
    events: Seq<EventView>,
)
    requires
        scene.wf(),
        scene.tells(mode, names, events),
        succeeded(mode, names, events),
    ensures
        exists|project: ProjectView| #[trigger]
            scene.describes(project) && can_take_all(
                scene,
                crate::plan::project_steps(mode, names, project),
            ),
{
    lemma_success(scene, mode, names, events);
}

/// Where a blocking download succeeds, the awaited one succeeds too, and the device and the user
/// are told the same in the same order: the same reports, the same handshakes, the same addresses and partitions with
/// the same sizes, the contents of the same entries in pieces of the same size, and the
/// partition table of the same project description. The archive is the same for both, its
/// entries have names that differ, the flash downloader has two stages, the user does not
/// stop, and the device does what it is told. There is no other way for the awaited download
/// to end.
pub proof fn law_awaited_download_succeeds_too(
    scene: Scene,
    names: Seq<Seq<char>>,
    blocking: Seq<EventView>,
) -> (awaited: Seq<EventView>)
    requires
        scene.wf(),
        forall|project: ProjectView| #[trigger]
            scene.describes(project) ==> project.two_level_fdl,
        scene.tells(Mode::Blocking, names, blocking),
        succeeded(Mode::Blocking, names, blocking),
    ensures
        scene.tells(Mode::Async, names, awaited),
        succeeded(Mode::Async, names, awaited),
        scene.sent(Mode::Async, names, awaited) == scene.sent(Mode::Blocking, names, blocking),
        super::course::run(DownloadView::start(Mode::Async, names), awaited).text
            == super::course::run(DownloadView::start(Mode::Blocking, names), blocking).text,
        super::course::answers(DownloadView::start(Mode::Blocking, names), blocking),
        super::course::answers(DownloadView::start(Mode::Async, names), awaited),
        forall|other: Seq<EventView>| #[trigger]
            scene.tells(Mode::Async, names, other) && super::course::run(
                DownloadView::start(Mode::Async, names),
                other,
            ).ended ==> other == awaited,
{
    lemma_so_far(scene, Mode::Blocking, names, blocking);
    lemma_success(scene, Mode::Blocking, names, blocking);
    let project = choose|project: ProjectView|
        {
            let plan = crate::plan::project_steps(Mode::Blocking, names, project);
            &&& #[trigger] scene.describes(project)
            &&& can_take_all(scene, plan)
            &&& scene.sent(Mode::Blocking, names, blocking) == seq![loading()] + trace(
                scene,
                Some(scene.description()),
                plan,
            )
        };
    lemma_plans_agree(scene, names, project);
    let awaited = law_sound_image_is_downloaded(scene, Mode::Async, names, project);
    lemma_so_far(scene, Mode::Async, names, awaited);
    lemma_success(scene, Mode::Async, names, awaited);
    lemma_one_end(scene, Mode::Async, names, awaited);
    awaited
}

} // verus!
