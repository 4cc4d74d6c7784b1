//! The course of a download: what holds whatever the archive, the parser, the user and the
//! device answer.

use vstd::prelude::*;

use crate::download::ActionView;
use crate::download::DownloadView;
use crate::download::EventView;
use crate::download::Verdict;
use crate::error::AxdlErrorView;
use crate::laws::protocol::Link;
use crate::partition::ImageView;
use crate::partition::ProjectView;
use crate::plan::Mode;
use crate::plan::StepView;

verus! {

/// The state after the events, told one after the other.
pub open spec fn run(d: DownloadView, events: Seq<EventView>) -> DownloadView
    decreases events.len(),
{
    if events.len() == 0 {
        d
    } else {
        run(d, events.drop_last()).after(events.last())
    }
}

/// Each event answers what was to be done when it came.
pub open spec fn answers(d: DownloadView, events: Seq<EventView>) -> bool
    decreases events.len(),
{
    events.len() == 0 || (answers(d, events.drop_last()) && run(d, events.drop_last()).accepts(
        events.last(),
    ))
}

/// The number of steps up to the project.
pub open spec fn opening_len() -> nat {
    crate::plan::opening().len()
}

/// The project that an event tells.
pub open spec fn told_project(event: EventView) -> ProjectView {
    event->Parsed_0
}

/// The download knows the project that the event with the index `k` told, and its steps
/// are those of that project.
pub open spec fn planned(
    mode: Mode,
    names: Seq<Seq<char>>,
    events: Seq<EventView>,
    k: int,
) -> bool {
    let d = run(DownloadView::start(mode, names), events);
    &&& 0 <= k < events.len()
    &&& events[k] is Parsed
    &&& d.next >= opening_len()
    &&& d.steps == crate::plan::opening() + crate::plan::project_steps(
        mode,
        names,
        told_project(events[k]),
    )
}

/// Whatever the archive, the parser, the user and the device answer, a download keeps to
/// its steps: those up to the project, and once that is known those of the project that
/// was told. Each step that lies behind it was taken, and none of them was to give up.
pub proof fn law_course(mode: Mode, names: Seq<Seq<char>>, events: Seq<EventView>)
    requires
        answers(DownloadView::start(mode, names), events),
    ensures
        ({
            let d = run(DownloadView::start(mode, names), events);
            &&& d.wf()
            &&& d.mode == mode
            &&& d.names == names
            &&& (d.steps == crate::plan::opening() && d.next < opening_len()) || exists|k: int|
                planned(mode, names, events, k)
            &&& forall|i: int| 0 <= i < d.next ==> !(#[trigger] d.steps[i] is Fail)
        }),
    decreases events.len(),
{
    let start = DownloadView::start(mode, names);
    if events.len() > 0 {
        let before = events.drop_last();
        law_course(mode, names, before);
        let b = run(start, before);
        let event = events.last();
        let d = run(start, events);
        assert(d == b.after(event));
        if b.steps == crate::plan::opening() && b.next < opening_len() {
            if event is Parsed {
                assert(b.step() is ParseConfig);
                assert(b.next == opening_len() - 1);
                assert(events[events.len() - 1] == event);
                assert(planned(mode, names, events, events.len() - 1));
            } else if d.next == b.next + 1 {
                assert(!(b.step() is ParseConfig));
            }
        } else {
            let k = choose|k: int| planned(mode, names, before, k);
            assert(planned(mode, names, before, k));
            assert(events[k] == before[k]);
            lemma_project_steps_kinds(mode, names, told_project(before[k]));
            assert(!(event is Parsed)) by {
                let plan = crate::plan::project_steps(mode, names, told_project(before[k]));
                assert(b.steps[b.next as int] == plan[b.next - opening_len()]);
                assert(later(plan[b.next - opening_len()]));
            }
            assert(planned(mode, names, events, k));
        }
        assert(!(b.step() is Fail));
    }
}

/// The step can only follow once the project is known.
pub open spec fn later(step: StepView) -> bool {
    !(step is OpenArchive || step is FindConfig || step is ReadConfig || step is ParseConfig)
}

/// None of the steps stands before the project is known.
pub open spec fn all_later(steps: Seq<StepView>) -> bool {
    forall|i: int| 0 <= i < steps.len() ==> later(#[trigger] steps[i])
}

proof fn lemma_image_stages_kinds(mode: Mode, names: Seq<Seq<char>>, images: Seq<ImageView>)
    ensures
        all_later(crate::plan::image_stages(mode, names, images)),
    decreases images.len(),
{
    if images.len() > 0 {
        lemma_image_stages_kinds(mode, names, images.drop_last());
    }
}

pub(crate) proof fn lemma_project_steps_kinds(mode: Mode, names: Seq<Seq<char>>, project: ProjectView)
    ensures
        all_later(crate::plan::project_steps(mode, names, project)),
{
    lemma_image_stages_kinds(mode, names, project.images);
    assert(all_later(crate::plan::fdl_stages(mode, project)));
}

/// The steps of the project that lie behind the download.
pub open spec fn steps_taken(d: DownloadView) -> Seq<StepView> {
    d.steps.subrange(opening_len() as int, d.next as int)
}

/// Whatever is answered, the device expects what a download asks for: the steps that lie
/// behind it have kept to the protocol, and so does the one that is being taken.
pub proof fn law_device_expects_each_step(
    mode: Mode,
    names: Seq<Seq<char>>,
    events: Seq<EventView>,
)
    requires
        answers(DownloadView::start(mode, names), events),
        run(DownloadView::start(mode, names), events).next >= opening_len(),
    ensures
        ({
            let d = run(DownloadView::start(mode, names), events);
            let link = Link::fresh().take_all(steps_taken(d));
            &&& link is Up
            &&& d.next < d.steps.len() ==> link.take(d.step()) != Link::Broken
            &&& d.next == d.steps.len() ==> link.at_rest()
        }),
{
    law_course(mode, names, events);
    let d = run(DownloadView::start(mode, names), events);
    let k = choose|k: int| planned(mode, names, events, k);
    assert(planned(mode, names, events, k));
    let project = told_project(events[k]);
    let plan = crate::plan::project_steps(mode, names, project);
    let count = d.next - opening_len();
    assert(steps_taken(d) =~= plan.take(count));
    super::protocol::law_protocol_so_far(mode, names, project, count);
    assert forall|i: int| 0 <= i < count implies !(#[trigger] steps_taken(d)[i] is Fail) by {
        assert(!(d.steps[opening_len() + i] is Fail));
    }
    super::protocol::lemma_stopped_has_fail(steps_taken(d));
    if d.next < d.steps.len() {
        super::protocol::law_protocol_so_far(mode, names, project, count + 1);
        assert(plan.take(count + 1) =~= steps_taken(d).push(d.step()));
        super::protocol::lemma_take_push(Link::fresh(), steps_taken(d), d.step());
    } else {
        super::protocol::law_protocol(mode, names, project);
        assert(plan.take(count) =~= plan);
    }
}

/// A download succeeds only when each step of the project was taken, and none was to give
/// up.
pub proof fn law_success_is_complete(
    mode: Mode,
    names: Seq<Seq<char>>,
    events: Seq<EventView>,
    event: EventView,
)
    requires
        answers(DownloadView::start(mode, names), events),
        run(DownloadView::start(mode, names), events).accepts(event),
        run(DownloadView::start(mode, names), events).answer(event) == ActionView::Finished(
            Ok(()),
        ),
    ensures
        ({
            let d = run(DownloadView::start(mode, names), events).after(event);
            &&& d.ended
            &&& exists|k: int|
                0 <= k < events.len() && #[trigger] events[k] is Parsed && steps_taken(d)
                    == crate::plan::project_steps(mode, names, told_project(events[k]))
            &&& forall|i: int| 0 <= i < d.steps.len() ==> !(#[trigger] d.steps[i] is Fail)
        }),
{
    let all = events.push(event);
    assert(all.drop_last() =~= events);
    law_course(mode, names, all);
    let b = run(DownloadView::start(mode, names), events);
    let d = run(DownloadView::start(mode, names), all);
    assert(d == b.after(event));
    assert(d.next == d.steps.len());
    let k = choose|k: int| planned(mode, names, all, k);
    assert(planned(mode, names, all, k));
    let plan = crate::plan::project_steps(mode, names, told_project(all[k]));
    assert(steps_taken(d) =~= plan);
    if k == events.len() {
        law_course(mode, names, events);
        assert(b.step() is ParseConfig);
        assert(b.next + 1 == d.next);
        if b.steps == crate::plan::opening() && b.next < opening_len() {
            assert(plan.len() > 0);
            assert(false);
        } else {
            let j = choose|j: int| planned(mode, names, events, j);
            assert(planned(mode, names, events, j));
            lemma_project_steps_kinds(mode, names, told_project(events[j]));
            assert(later(
                crate::plan::project_steps(mode, names, told_project(events[j]))[b.next
                    - opening_len()],
            ));
            assert(false);
        }
    }
    assert(events[k] == all[k]);
}

/// A failure ends the download with that failure, and so does a step that is to give up.
/// Once a download has ended, nothing is asked for any more.
pub proof fn law_failure_is_final(d: DownloadView, event: EventView, later_event: EventView)
    requires
        d.wf(),
        d.accepts(event),
    ensures
        d.verdict(event) matches Verdict::Stop(e) ==> d.answer(event) == ActionView::Finished(
            Err(e),
        ),
        d.answer(event) is Finished ==> d.after(event).ended && !d.after(event).accepts(
            later_event,
        ),
        d.answer(event) == d.after(event).request() || d.verdict(event) is Stop,
{
}

/// What the device fails with is what the download fails with.
pub proof fn law_device_failure_is_reported(d: DownloadView, e: AxdlErrorView)
    requires
        d.wf(),
        d.accepts(EventView::Failed(e)),
    ensures
        d.answer(EventView::Failed(e)) == ActionView::Finished(Err(e)),
{
}

/// A user who says that they want to stop ends the download there and then: the step that
/// asked is the last one, and nothing of what follows is written.
pub proof fn law_cancel_ends_the_download(d: DownloadView)
    requires
        d.wf(),
        d.accepts(EventView::Cancelled(true)),
    ensures
        d.step() is CheckCancelled,
        d.answer(EventView::Cancelled(true)) == ActionView::Finished(
            Err(AxdlErrorView::UserCancelled),
        ),
        d.after(EventView::Cancelled(true)).ended,
        d.after(EventView::Cancelled(true)).next == d.next,
{
}

/// No step is skipped and none is taken twice: each event ends the download, completes
/// the step that is being taken, or makes a scan go on with the next entry.
pub proof fn law_one_step_at_a_time(d: DownloadView, event: EventView)
    requires
        d.wf(),
        d.accepts(event),
    ensures
        ({
            let a = d.after(event);
            ||| d.verdict(event) is Stop && a.ended && a.next == d.next
            ||| d.verdict(event) is Onward && a.next == d.next + 1
            ||| d.verdict(event) is Again && a.next == d.next && a.index == d.index + 1
                && crate::download::is_scan(d.step())
        }),
{
}

/// The event tells the name of an entry, and that one is not a project description.
pub open spec fn other_entry(event: EventView) -> bool {
    event matches EventView::Entry { name, .. } && (name matches Some(name)
        ==> !crate::text::has_suffix(name, ".xml"@))
}

/// The event tells the name of an entry, and that one is a project description.
pub open spec fn config_entry(event: EventView) -> bool {
    event matches EventView::Entry { name: Some(name), .. } && crate::text::has_suffix(
        name,
        ".xml"@,
    )
}

/// The project description is the first entry of the archive whose name ends in `.xml`:
/// the entries before it were looked at, in their order, and had other names. It is that
/// entry that is read, and what it holds that is parsed.
pub proof fn law_first_description_is_used(
    mode: Mode,
    names: Seq<Seq<char>>,
    events: Seq<EventView>,
)
    requires
        answers(DownloadView::start(mode, names), events),
        !run(DownloadView::start(mode, names), events).ended,
    ensures
        ({
            let d = run(DownloadView::start(mode, names), events);
            let i = d.index as int;
            &&& d.next == 0 ==> events.len() == 0
            &&& d.next == 1 ==> events.len() == 1
            &&& d.next == 2 ==> events.len() == 2 + i && d.request()
                == ActionView::InspectEntry(d.index)
            &&& d.next == 3 ==> events.len() == 3 + i && d.request() == ActionView::ReadEntry(
                d.index,
            )
            &&& d.next == 4 ==> events.len() == 4 + i && events[3 + i] is Text && d.request()
                == ActionView::ParseConfig(events[3 + i]->Text_0)
            &&& 2 <= d.next <= 4 ==> forall|j: int|
                2 <= j < 2 + i ==> other_entry(#[trigger] events[j])
            &&& 3 <= d.next <= 4 ==> config_entry(events[2 + i])
        }),
    decreases events.len(),
{
    let start = DownloadView::start(mode, names);
    let d = run(start, events);
    if events.len() > 0 {
        let before = events.drop_last();
        let b = run(start, before);
        let event = events.last();
        assert(d == b.after(event));
        law_first_description_is_used(mode, names, before);
        law_course(mode, names, before);
        law_course(mode, names, events);
        if d.next <= 4 {
            assert(b.steps == crate::plan::opening());
            assert(d.steps == b.steps);
            assert forall|j: int| 0 <= j < before.len() implies before[j] == events[j] by {}
            if d.next == 2 && b.next == 2 {
                assert(other_entry(events[events.len() - 1]));
            }
        }
    }
}

/// An archive without a project description cannot be downloaded: once its last entry was
/// looked at, the download fails and says so. An archive that tells that it has no entries
/// is not looked at: the download fails as soon as it would be.
pub proof fn law_description_is_needed(d: DownloadView, event: EventView)
    requires
        d.wf(),
        d.accepts(event),
        ({
            ||| d.step() is FindConfig && (event is NoSuchEntry || (other_entry(event)
                && d.entries is Some && d.index + 1 >= d.entries->0))
            ||| d.steps == crate::plan::opening() && d.next == 1 && event is Done && d.entries
                == Some(0usize)
        }),
    ensures
        d.answer(event) == ActionView::Finished(Err(crate::download::no_config())),
        d.after(event).ended,
{
}

/// The event told the name of an entry that is not the one that the step looks for: one whose
/// name does not end in `.xml`, or that is not called as the file that is wanted.
pub open spec fn missed(step: StepView, event: EventView) -> bool {
    event matches EventView::Entry { name, .. } && match step {
        StepView::SearchEntry { file } => name != Some(file),
        _ => other_entry(event),
    }
}

/// What a search does with an entry. Looking for the project description it ends with an entry
/// whose name ends in `.xml`, whatever stands before that, and goes on with the next one at any
/// other; looking for a file it ends with the entry of that name, and goes on at any other.
pub proof fn law_what_a_search_finds(d: DownloadView, name: Seq<char>, size: u64)
    requires
        d.next < d.steps.len(),
    ensures
        ({
            let told = EventView::Entry { name: Some(name), size };
            let nameless = EventView::Entry { name: None, size };
            &&& d.step() is FindConfig ==> (d.verdict(told) is Onward <==> exists|
                before: Seq<char>,
            |
                name == #[trigger] (before + ".xml"@))
            &&& d.step() is FindConfig ==> (d.verdict(told) is Again <==> !exists|
                before: Seq<char>,
            |
                name == #[trigger] (before + ".xml"@))
            &&& (d.step() matches StepView::SearchEntry { file } ==> (d.verdict(told) is Onward
                <==> name == file) && (d.verdict(told) is Again <==> name != file))
            &&& d.verdict(nameless) is Again
            &&& d.verdict(told) is Again ==> d.after(told).index == d.index + 1 && d.after(
                told,
            ).next == d.next
            &&& d.verdict(told) is Onward ==> d.after(told).size == size && d.after(told).next
                == d.next + 1
        }),
{
    crate::text::law_suffix(name, ".xml"@);
}

/// A search starts with the first entry of the archive and leaves none out: the entries
/// before the one that is looked at were looked at since the step began, one after the
/// other, and none of them was the one that it looks for.
pub proof fn law_search_leaves_no_entry_out(
    mode: Mode,
    names: Seq<Seq<char>>,
    events: Seq<EventView>,
)
    requires
        answers(DownloadView::start(mode, names), events),
        ({
            let d = run(DownloadView::start(mode, names), events);
            !d.ended && d.next < d.steps.len() && crate::download::is_scan(d.step())
        }),
    ensures
        ({
            let start = DownloadView::start(mode, names);
            let d = run(start, events);
            let from = events.len() - d.index;
            &&& 0 <= from
            &&& run(start, events.take(from)).next == d.next
            &&& run(start, events.take(from)).index == 0
            &&& d.request() == ActionView::InspectEntry(d.index)
            &&& forall|j: int|
                from <= j < events.len() ==> missed(d.step(), #[trigger] events[j])
        }),
    decreases events.len(),
{
    let start = DownloadView::start(mode, names);
    let d = run(start, events);
    if events.len() > 0 {
        let before = events.drop_last();
        let b = run(start, before);
        let event = events.last();
        assert(d == b.after(event));
        let from = events.len() - d.index;
        if d.next == b.next {
            assert(d.index == b.index + 1);
            assert(d.step() == b.step());
            law_search_leaves_no_entry_out(mode, names, before);
            assert(before.take(from) =~= events.take(from));
            assert forall|j: int| from <= j < events.len() implies missed(
                d.step(),
                #[trigger] events[j],
            ) by {
                if j < before.len() {
                    assert(missed(b.step(), before[j]));
                }
            }
        } else {
            assert(d.index == 0);
            assert(events.take(from) =~= events);
        }
    } else {
        assert(d.step() is OpenArchive);
    }
}

/// None of the steps goes through the archive's entries.
pub open spec fn no_search(steps: Seq<StepView>) -> bool {
    forall|i: int| 0 <= i < steps.len() ==> !(#[trigger] steps[i] is SearchEntry)
}

proof fn lemma_no_search_for_images(names: Seq<Seq<char>>, images: Seq<ImageView>)
    ensures
        no_search(crate::plan::image_stages(Mode::Blocking, names, images)),
    decreases images.len(),
{
    if images.len() > 0 {
        lemma_no_search_for_images(names, images.drop_last());
    }
}

pub(crate) proof fn lemma_no_search(names: Seq<Seq<char>>, project: ProjectView)
    ensures
        no_search(crate::plan::project_steps(Mode::Blocking, names, project)),
{
    lemma_no_search_for_images(names, project.images);
    assert(no_search(crate::plan::fdl_stages(Mode::Blocking, project)));
}

/// A download whose archive is read with calls that block comes to its end: it asks at most
/// once for each step, and once more for each entry of the archive.
#[verifier::rlimit(40)]
pub proof fn law_blocking_download_ends(names: Seq<Seq<char>>, events: Seq<EventView>)
    requires
        answers(DownloadView::start(Mode::Blocking, names), events),
    ensures
        ({
            let d = run(DownloadView::start(Mode::Blocking, names), events);
            &&& d.next < 2 ==> d.index == 0
            &&& d.next > 0 ==> d.entries is Some && d.index <= d.entries->0
            &&& events.len() <= d.next + d.index + (if d.ended {
                1nat
            } else {
                0nat
            })
            &&& d.next <= d.steps.len()
        }),
    decreases events.len(),
{
    let start = DownloadView::start(Mode::Blocking, names);
    let d = run(start, events);
    law_course(Mode::Blocking, names, events);
    if events.len() > 0 {
        let before = events.drop_last();
        let b = run(start, before);
        law_blocking_download_ends(names, before);
        law_course(Mode::Blocking, names, before);
        assert(d == b.after(events.last()));
        if exists|k: int| planned(Mode::Blocking, names, events, k) {
            let k = choose|k: int| planned(Mode::Blocking, names, events, k);
            let plan = crate::plan::project_steps(
                Mode::Blocking,
                names,
                told_project(events[k]),
            );
            lemma_no_search(names, told_project(events[k]));
            lemma_project_steps_kinds(Mode::Blocking, names, told_project(events[k]));
            if d.next < d.steps.len() {
                assert(d.step() == plan[d.next - opening_len()]);
                assert(later(plan[d.next - opening_len()]));
            }
        }
    }
}

} // verus!
