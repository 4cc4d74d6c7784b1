//! The sizes that the device is told.

use vstd::prelude::*;

use crate::download::ActionView;
use crate::download::DownloadView;
use crate::download::EventView;
use crate::laws::protocol::Link;
use crate::plan::Mode;

verus! {

/// The event tells that the entry called `file`, which was asked for by that name or was
/// found under it, has `size` bytes.
pub open spec fn tells_size(event: EventView, file: Seq<char>, size: u64) -> bool {
    match event {
        EventView::EntryOpened { size: told } => told == size,
        EventView::Entry { name, size: told } => told == size && name == Some(file),
        _ => false,
    }
}

/// The event with the index `k` came when the step with the index `at` was being taken,
/// that step is the last one so far that got hold of an entry, and the event tells the
/// size that the download holds.
pub open spec fn size_told_by(
    mode: Mode,
    names: Seq<Seq<char>>,
    events: Seq<EventView>,
    at: int,
    k: int,
) -> bool {
    let start = DownloadView::start(mode, names);
    let d = super::course::run(start, events);
    &&& 0 <= k < events.len()
    &&& 0 <= at < d.next
    &&& super::course::run(start, events.take(k)).next == at
    &&& super::course::run(start, events.take(k)).step() == d.steps[at]
    &&& super::protocol::is_entry_step(d.steps[at])
    &&& forall|j: int| at < j < d.next ==> !super::protocol::is_entry_step(#[trigger] d.steps[j])
    &&& tells_size(events[k], super::protocol::wanted_file(d.steps[at]), d.size)
}

proof fn lemma_size(mode: Mode, names: Seq<Seq<char>>, events: Seq<EventView>, i: int)
    requires
        super::course::answers(DownloadView::start(mode, names), events),
        0 <= i < super::course::run(DownloadView::start(mode, names), events).next,
        super::protocol::is_entry_step(super::course::run(DownloadView::start(mode, names), events).steps[i]),
    ensures
        exists|at: int, k: int| at >= i && #[trigger] size_told_by(mode, names, events, at, k),
    decreases events.len(),
{
    let start = DownloadView::start(mode, names);
    let d = super::course::run(start, events);
    if events.len() > 0 {
        let before = events.drop_last();
        let b = super::course::run(start, before);
        let event = events.last();
        assert(d == b.after(event));
        super::course::law_course(mode, names, before);
        assert(forall|j: int| 0 <= j < b.steps.len() ==> b.steps[j] == d.steps[j]);
        if d.next == b.next + 1 && super::protocol::is_entry_step(b.step()) {
            assert(events.take(events.len() - 1) =~= before);
            assert(size_told_by(mode, names, events, b.next as int, events.len() - 1));
        } else {
            assert(i < b.next);
            lemma_size(mode, names, before, i);
            let (at, k) = choose|at: int, k: int|
                at >= i && #[trigger] size_told_by(mode, names, before, at, k);
            assert(before.take(k) =~= events.take(k));
            assert(events[k] == before[k]);
            assert(super::course::run(start, events.take(k)).step() == b.steps[at]);
            assert(!(b.step() is FindConfig)) by {
                if exists|k: int| super::course::planned(mode, names, before, k) {
                    let k = choose|k: int| super::course::planned(mode, names, before, k);
                    super::course::lemma_project_steps_kinds(mode, names, super::course::told_project(before[k]));
                    let plan = crate::plan::project_steps(mode, names, super::course::told_project(before[k]));
                    assert(b.step() == plan[b.next - super::course::opening_len()]);
                    assert(super::course::later(plan[b.next - super::course::opening_len()]));
                }
            }
            assert(d.size == b.size);
            assert(size_told_by(mode, names, events, at, k));
        }
    }
}

/// The size that the device is told, and the number of bytes that are sent, are those that
/// the archive told of the entry that this transfer got hold of: no transfer has ended
/// since, and no other entry was opened.
pub proof fn law_size_is_that_of_the_entry(
    mode: Mode,
    names: Seq<Seq<char>>,
    events: Seq<EventView>,
)
    requires
        super::course::answers(DownloadView::start(mode, names), events),
        ({
            let d = super::course::run(DownloadView::start(mode, names), events);
            d.next < d.steps.len() && (d.step() is StartPartition || d.step() is WriteImage)
        }),
    ensures
        ({
            let d = super::course::run(DownloadView::start(mode, names), events);
            exists|at: int, k: int|
                #[trigger] size_told_by(mode, names, events, at, k) && forall|j: int|
                    at < j < d.next ==> !(#[trigger] d.steps[j] is EndPartition)
        }),
{
    let d = super::course::run(DownloadView::start(mode, names), events);
    let first = lemma_entry_before(mode, names, events);
    lemma_size(mode, names, events, first);
    let (at, k) = choose|at: int, k: int|
        at >= first && #[trigger] size_told_by(mode, names, events, at, k);
    assert(size_told_by(mode, names, events, at, k) && forall|j: int|
        at < j < d.next ==> !(#[trigger] d.steps[j] is EndPartition));
}

/// The event with the index `k` told the size of the entry that is held: it came while the step
/// that got hold of the entry called `file` was being taken, no entry was got hold of since, and
/// no transfer has ended since.
pub open spec fn told_of_the_held_entry(
    mode: Mode,
    names: Seq<Seq<char>>,
    events: Seq<EventView>,
    file: Seq<char>,
    size: u64,
    k: int,
) -> bool {
    let start = DownloadView::start(mode, names);
    let d = super::course::run(start, events);
    let at = super::course::run(start, events.take(k)).next as int;
    &&& 0 <= k < events.len()
    &&& 0 <= at < d.next
    &&& d.steps[at] == (crate::plan::StepView::SearchEntry { file }) || (d.steps[at] matches
        crate::plan::StepView::OpenEntry { file: opened, .. } && opened == file)
    &&& forall|j: int|
        at < j < d.next ==> !((#[trigger] d.steps[j]) is OpenEntry || d.steps[j] is SearchEntry
            || d.steps[j] is EndPartition)
    &&& match events[k] {
        EventView::EntryOpened { size: told } => told == size,
        EventView::Entry { name, size: told } => name == Some(file) && told == size,
        _ => false,
    }
}

/// Whatever is answered, the device is told the size that the archive told of the entry that is
/// held for this transfer: as it is where a partition is written or an address of 64 bits is
/// loaded, and its lower 32 bits where the boot ROM is asked. As many bytes are then sent.
pub proof fn law_device_is_told_the_size_of_the_entry(
    mode: Mode,
    names: Seq<Seq<char>>,
    events: Seq<EventView>,
) -> (r: (Seq<char>, u64, int))
    requires
        super::course::answers(DownloadView::start(mode, names), events),
    ensures
        ({
            let d = super::course::run(DownloadView::start(mode, names), events);
            let asked = d.request();
            let started = asked is StartPartitionId || asked is StartPartitionAbsolute || asked
                is StartPartitionAbsolute32;
            let (file, size, k) = r;
            &&& started || asked is WriteImage ==> told_of_the_held_entry(
                mode,
                names,
                events,
                file,
                size,
                k,
            )
            &&& (asked matches ActionView::StartPartitionId { size: told, .. } ==> told == size)
            &&& (asked matches ActionView::StartPartitionAbsolute { size: told, .. } ==> told
                == size)
            &&& (asked matches ActionView::StartPartitionAbsolute32 { size: told, .. } ==> told
                == size as u32)
            &&& (asked matches ActionView::WriteImage { size: sent, .. } ==> sent
                == size as usize)
        }),
{
    let d = super::course::run(DownloadView::start(mode, names), events);
    super::course::law_course(mode, names, events);
    let asked = d.request();
    if asked is StartPartitionId || asked is StartPartitionAbsolute || asked
        is StartPartitionAbsolute32 || asked is WriteImage {
        law_size_is_that_of_the_entry(mode, names, events);
        let (at, k) = choose|at: int, k: int|
            #[trigger] size_told_by(mode, names, events, at, k) && forall|j: int|
                at < j < d.next ==> !(#[trigger] d.steps[j] is EndPartition);
        let file = super::protocol::wanted_file(d.steps[at]);
        assert(told_of_the_held_entry(mode, names, events, file, d.size, k));
        (file, d.size, k)
    } else {
        (Seq::empty(), 0, 0)
    }
}

/// Once the device has taken the announcement of a transfer, as many bytes are sent as it was
/// told.
#[verifier::rlimit(40)]
pub proof fn law_as_many_bytes_are_sent_as_were_announced(
    mode: Mode,
    names: Seq<Seq<char>>,
    events: Seq<EventView>,
)
    requires
        super::course::answers(DownloadView::start(mode, names), events),
    ensures
        ({
            let d = super::course::run(DownloadView::start(mode, names), events);
            let next = d.answer(EventView::Done);
            &&& (d.request() matches ActionView::StartPartitionId { size, .. } ==> (next matches
                ActionView::WriteImage { size: sent, .. } && sent == size as usize))
            &&& (d.request() matches ActionView::StartPartitionAbsolute { size, .. } ==> (next
                matches ActionView::WriteImage { size: sent, .. } && sent == size as usize))
        }),
{
    let d = super::course::run(DownloadView::start(mode, names), events);
    super::course::law_course(mode, names, events);
    let asked = d.request();
    if asked is StartPartitionId || asked is StartPartitionAbsolute {
        let k = choose|k: int| super::course::planned(mode, names, events, k);
        assert(super::course::planned(mode, names, events, k));
        let project = super::course::told_project(events[k]);
        let plan = crate::plan::project_steps(mode, names, project);
        let at = d.next - super::course::opening_len();
        assert(d.step() == plan[at]);
        super::contents::law_only_flash_downloaders_are_loaded(mode, names, project, at);
        super::contents::law_only_selected_images_are_written(mode, names, project, at);
        assert(plan[at + 1] is WriteImage);
        assert(d.steps[d.next as int + 1] == plan[at + 1]);
    }
}

proof fn lemma_entry_before(
    mode: Mode,
    names: Seq<Seq<char>>,
    events: Seq<EventView>,
) -> (first: int)
    requires
        super::course::answers(DownloadView::start(mode, names), events),
        ({
            let d = super::course::run(DownloadView::start(mode, names), events);
            d.next < d.steps.len() && (d.step() is StartPartition || d.step() is WriteImage)
        }),
    ensures
        ({
            let d = super::course::run(DownloadView::start(mode, names), events);
            &&& 0 <= first < d.next
            &&& super::protocol::is_entry_step(d.steps[first])
            &&& forall|j: int| first < j < d.next ==> !(#[trigger] d.steps[j] is EndPartition)
        }),
{
    let d = super::course::run(DownloadView::start(mode, names), events);
    assert(super::course::opening_len() <= d.next) by {
        super::course::law_course(mode, names, events);
    }
    super::course::law_device_expects_each_step(mode, names, events);
    let taken = super::course::steps_taken(d);
    super::protocol::lemma_entry_needed(Link::fresh().take_all(taken), d.step());
    super::protocol::lemma_entry_open(taken);
    let i = choose|i: int|
        0 <= i < taken.len() && #[trigger] super::protocol::is_entry_step(taken[i]) && forall|j: int|
            i < j < taken.len() ==> !(#[trigger] taken[j] is EndPartition);
    let n = super::course::opening_len() as int;
    let first = i + n;
    assert(d.steps[first] == taken[i]);
    assert forall|j: int| first < j < d.next implies !(#[trigger] d.steps[j] is EndPartition) by {
        assert(!(taken[j - n] is EndPartition));
    }
    first
}

} // verus!
