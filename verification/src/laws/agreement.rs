//! The two kinds of download, side by side.

use vstd::prelude::*;

use crate::partition::BlockView;
use crate::partition::ImageView;
use crate::partition::ProjectView;
use crate::plan::Mode;
use crate::plan::StepView;

verus! {

/// What remains of a step when it does not matter how the archive is read and how long is
/// waited for the device.
pub open spec fn essence(step: StepView) -> Option<StepView> {
    match step {
        StepView::OpenEntry { .. } | StepView::SearchEntry { .. } => None,
        StepView::EndPartition { .. } => Some(StepView::EndPartition { timeout_secs: None }),
        _ => Some(step),
    }
}

/// What remains of the steps, in their order.
pub open spec fn essences(steps: Seq<StepView>) -> Seq<StepView>
    decreases steps.len(),
{
    if steps.len() == 0 {
        Seq::empty()
    } else {
        let rest = essences(steps.drop_last());
        match essence(steps.last()) {
            Some(step) => rest.push(step),
            None => rest,
        }
    }
}

proof fn lemma_essences_concat(a: Seq<StepView>, b: Seq<StepView>)
    ensures
        essences(a + b) == essences(a) + essences(b),
    decreases b.len(),
{
    if b.len() == 0 {
        assert(a + b =~= a);
        assert(essences(b) =~= Seq::<StepView>::empty());
        assert(essences(a) =~= essences(a) + essences(b));
    } else {
        lemma_essences_concat(a, b.drop_last());
        assert((a + b).drop_last() =~= a + b.drop_last());
        assert((a + b).last() == b.last());
        assert(essences(a + b) =~= essences(a) + essences(b));
    }
}

proof fn lemma_essences_push(a: Seq<StepView>, step: StepView)
    ensures
        essences(a.push(step)) == (match essence(step) {
            Some(e) => essences(a).push(e),
            None => essences(a),
        }),
{
    assert(a.push(step).drop_last() =~= a);
}

proof fn lemma_essences_1(a: StepView)
    ensures
        essences(seq![a]) == (match essence(a) {
            Some(e) => seq![e],
            None => Seq::<StepView>::empty(),
        }),
{
    lemma_essences_push(Seq::empty(), a);
    assert(seq![a] =~= Seq::<StepView>::empty().push(a));
    assert(essences(Seq::<StepView>::empty()) =~= Seq::<StepView>::empty());
    assert(essences(seq![a]) =~= (match essence(a) {
        Some(e) => seq![e],
        None => Seq::<StepView>::empty(),
    }));
}

proof fn lemma_essences_of_an_entry_and(entry: StepView, step: StepView)
    requires
        super::protocol::is_entry_step(entry),
        essence(step) == Some(step),
    ensures
        essences(seq![entry, step]) == seq![step],
        essences(seq![step, entry]) == seq![step],
        essences(seq![entry]) == Seq::<StepView>::empty(),
        essences(seq![step]) == seq![step],
{
    lemma_essences_1(entry);
    lemma_essences_1(step);
    lemma_essences_push(seq![entry], step);
    lemma_essences_push(seq![step], entry);
    assert(seq![entry, step] =~= seq![entry].push(step));
    assert(seq![step, entry] =~= seq![step].push(entry));
    assert(essences(seq![entry, step]) =~= seq![step]);
}

proof fn lemma_same_fdl_stage(images: Seq<ImageView>, name: Seq<char>, wide: bool)
    ensures
        essences(crate::plan::fdl_stage(Mode::Blocking, images, name, wide)) == essences(
            crate::plan::fdl_stage(Mode::Async, images, name, wide),
        ),
{
    let a = crate::plan::fdl_stage(Mode::Blocking, images, name, wide);
    let b = crate::plan::fdl_stage(Mode::Async, images, name, wide);
    if let Some(image) = crate::partition::find_image(images, name) {
        if let Some(file) = image.file {
            if let BlockView::Absolute(address) = image.block {
                let first = seq![a[0], a[1]];
                let second = seq![b[0], b[1]];
                let middle = crate::plan::transfer(
                    crate::plan::fdl_target(wide, address),
                    name,
                    crate::plan::FDL_CHUNK_SIZE,
                    None,
                );
                let last = seq![StepView::EndRamDownload];
                assert(a =~= first + middle + last);
                assert(b =~= second + middle + last);
                lemma_essences_concat(first + middle, last);
                lemma_essences_concat(second + middle, last);
                lemma_essences_concat(first, middle);
                lemma_essences_concat(second, middle);
                lemma_essences_of_an_entry_and(a[0], a[1]);
                lemma_essences_of_an_entry_and(b[1], b[0]);
            } else {
                lemma_essences_of_an_entry_and(a[0], a[1]);
                assert(a =~= seq![a[0], a[1]]);
                assert(b =~= seq![a[1]]);
            }
        } else {
            assert(a =~= b);
        }
    } else {
        assert(a =~= b);
    }
}

proof fn lemma_same_image_stage(image: ImageView)
    ensures
        essences(crate::plan::image_stage(Mode::Blocking, image)) == essences(
            crate::plan::image_stage(Mode::Async, image),
        ),
{
    let a = crate::plan::image_stage(Mode::Blocking, image);
    let b = crate::plan::image_stage(Mode::Async, image);
    let head = seq![a[0], a[1]];
    assert(head =~= seq![b[0], b[1]]);
    let x = a.skip(2);
    let y = b.skip(2);
    assert(a =~= head + x);
    assert(b =~= head + y);
    lemma_essences_concat(head, x);
    lemma_essences_concat(head, y);
    if let Some(file) = image.file {
        if let BlockView::Partition(id) = image.block {
            let p = seq![x[0]];
            let q = seq![y[0]];
            let middle = seq![x[1], x[2]];
            assert(x =~= (p + middle).push(x[3]));
            assert(y =~= (q + middle).push(y[3]));
            lemma_essences_push(p + middle, x[3]);
            lemma_essences_push(q + middle, y[3]);
            lemma_essences_concat(p, middle);
            lemma_essences_concat(q, middle);
            lemma_essences_1(x[0]);
            lemma_essences_1(y[0]);
            assert(essences(x) =~= essences(y));
        } else {
            lemma_essences_of_an_entry_and(x[0], x[1]);
            assert(x =~= seq![x[0], x[1]]);
            assert(y =~= seq![x[1]]);
        }
    } else {
        assert(x =~= y);
    }
}

proof fn lemma_same_image_stages(names: Seq<Seq<char>>, images: Seq<ImageView>)
    ensures
        essences(crate::plan::image_stages(Mode::Blocking, names, images)) == essences(
            crate::plan::image_stages(Mode::Async, names, images),
        ),
    decreases images.len(),
{
    if images.len() > 0 {
        lemma_same_image_stages(names, images.drop_last());
        if crate::config::selected(names, images.last()) {
            lemma_essences_concat(
                crate::plan::image_stages(Mode::Blocking, names, images.drop_last()),
                crate::plan::image_stage(Mode::Blocking, images.last()),
            );
            lemma_essences_concat(
                crate::plan::image_stages(Mode::Async, names, images.drop_last()),
                crate::plan::image_stage(Mode::Async, images.last()),
            );
            lemma_same_image_stage(images.last());
        }
    }
}

/// With a flash downloader of two stages the two kinds of download do the same: they tell
/// the user the same, send the device the same, and give up on the same images, in the same
/// order. They differ in how they get hold of the archive's entries, and in how long they
/// wait for the device to complete a partition.
pub proof fn law_modes_agree(names: Seq<Seq<char>>, project: ProjectView)
    requires
        project.two_level_fdl,
    ensures
        essences(crate::plan::project_steps(Mode::Blocking, names, project)) == essences(
            crate::plan::project_steps(Mode::Async, names, project),
        ),
{
    let g = crate::plan::greeting();
    let t = crate::plan::table_stage();
    let l = crate::plan::log_stage(names, project.images);
    let f = crate::plan::fdl_stages(Mode::Blocking, project);
    let s = crate::plan::image_stages(Mode::Blocking, names, project.images);
    let f2 = crate::plan::fdl_stages(Mode::Async, project);
    let s2 = crate::plan::image_stages(Mode::Async, names, project.images);
    lemma_essences_concat(g + f + t + l, s);
    lemma_essences_concat(g + f + t, l);
    lemma_essences_concat(g + f, t);
    lemma_essences_concat(g, f);
    lemma_essences_concat(g + f2 + t + l, s2);
    lemma_essences_concat(g + f2 + t, l);
    lemma_essences_concat(g + f2, t);
    lemma_essences_concat(g, f2);
    lemma_same_image_stages(names, project.images);
    let a = crate::plan::fdl_stage(Mode::Blocking, project.images, "FDL1"@, false);
    let a2 = crate::plan::fdl_stage(Mode::Async, project.images, "FDL1"@, false);
    let h = seq![StepView::Handshake("fdl1"@)];
    let c = crate::plan::fdl_stage(Mode::Blocking, project.images, "FDL2"@, true);
    let c2 = crate::plan::fdl_stage(Mode::Async, project.images, "FDL2"@, true);
    lemma_essences_concat(a + h, c);
    lemma_essences_concat(a, h);
    lemma_essences_concat(a2 + h, c2);
    lemma_essences_concat(a2, h);
    lemma_same_fdl_stage(project.images, "FDL1"@, false);
    lemma_same_fdl_stage(project.images, "FDL2"@, true);
}

} // verus!
