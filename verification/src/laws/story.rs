//! A whole download, told from the project and the archive: what the device and the user are
//! told, and what comes of it.

use vstd::prelude::*;

use crate::download::ActionView;
use crate::download::DownloadView;
use crate::download::EventView;
use crate::error::AxdlErrorView;
use crate::laws::outcome::Scene;
use crate::laws::outcome::Sent;
use crate::partition::BlockView;
use crate::partition::ImageType;
use crate::partition::ImageView;
use crate::partition::ProjectView;
use crate::plan::Mode;
use crate::plan::StepView;

verus! {

/// A part of a download: what the device and the user are told, and what is wrong with the image
/// if something is.
#[verifier::ext_equal]
pub struct Story {
    pub told: Seq<Sent>,
    pub defect: Option<Seq<char>>,
}

impl Story {
    /// This part and then the other one. Behind a defect nothing follows.
    pub open spec fn and(self, other: Story) -> Story {
        match self.defect {
            Some(_) => self,
            None => Story { told: self.told + other.told, defect: other.defect },
        }
    }
}

/// A request that takes no contents.
pub open spec fn plainly(request: ActionView) -> Sent {
    Sent { request, entry: None }
}

/// A part in which this is told.
pub open spec fn tells(told: Seq<Sent>) -> Story {
    Story { told, defect: None }
}

/// A part in which this is told, and then this defect is met.
pub open spec fn fails(told: Seq<Sent>, defect: Seq<char>) -> Story {
    Story { told, defect: Some(defect) }
}

/// The flash downloader called `name` is loaded. Its address is told in 64 bits where `wide` is
/// set, and in 32 bits otherwise.
pub open spec fn loads(
    scene: Scene,
    mode: Mode,
    images: Seq<ImageView>,
    name: Seq<char>,
    wide: bool,
) -> Story {
    let ram = plainly(ActionView::StartRamDownload);
    match crate::partition::find_image(images, name) {
        None => fails(seq![], name + " image not found"@),
        Some(image) => match (image.file, image.block) {
            (None, _) => fails(seq![], name + " image file not specified in the project"@),
            (Some(file), BlockView::Absolute(address)) => if scene.has(file) {
                let entry = scene.index_of(file);
                let size = scene.entries[entry].size;
                tells(
                    seq![
                        ram,
                        plainly(
                            if wide {
                                ActionView::StartPartitionAbsolute { address, size }
                            } else {
                                ActionView::StartPartitionAbsolute32 {
                                    address: address as u32,
                                    size: size as u32,
                                }
                            },
                        ),
                        Sent {
                            request: ActionView::WriteImage {
                                name,
                                chunk_size: 1000,
                                size: size as usize,
                                report_every: Some(100),
                            },
                            entry: Some(entry),
                        },
                        plainly(ActionView::EndPartition { timeout_secs: None }),
                        plainly(ActionView::EndRamDownload),
                    ],
                )
            } else {
                match mode {
                    Mode::Blocking => fails(
                        seq![],
                        name + " image was not found in the image file: "@ + scene.reason.shown,
                    ),
                    Mode::Async => fails(
                        seq![ram],
                        "image was not found in the image file: "@ + file,
                    ),
                }
            },
            (Some(file), _) => if mode == Mode::Blocking && !scene.has(file) {
                fails(
                    seq![],
                    name + " image was not found in the image file: "@ + scene.reason.shown,
                )
            } else {
                fails(seq![], name + " block is not absolute"@)
            },
        },
    }
}

/// The contents of one partition are written.
pub open spec fn writes(scene: Scene, mode: Mode, image: ImageView) -> Story {
    let name = image.name;
    let begun = seq![
        plainly(ActionView::Report("Downloading image "@ + name)),
        plainly(ActionView::CheckCancelled),
    ];
    match (image.file, image.block) {
        (None, _) => fails(begun, "image "@ + name + " file not specified in the project"@),
        (Some(file), BlockView::Partition(id)) => if scene.has(file) {
            let entry = scene.index_of(file);
            let size = scene.entries[entry].size;
            tells(
                begun + seq![
                    plainly(ActionView::StartPartitionId { id, size }),
                    Sent {
                        request: ActionView::WriteImage {
                            name,
                            chunk_size: 48000,
                            size: size as usize,
                            report_every: Some(100),
                        },
                        entry: Some(entry),
                    },
                    plainly(ActionView::EndPartition { timeout_secs: None }),
                ],
            )
        } else {
            match mode {
                Mode::Blocking => fails(
                    begun,
                    "image "@ + name + " was not found in the archive: "@ + scene.reason.shown,
                ),
                Mode::Async => fails(begun, "image was not found in the image file: "@ + file),
            }
        },
        (Some(file), _) => if mode == Mode::Blocking && !scene.has(file) {
            fails(
                begun,
                "image "@ + name + " was not found in the archive: "@ + scene.reason.shown,
            )
        } else {
            fails(begun, "image "@ + name + " block is not partition"@)
        },
    }
}

/// The contents of the partitions are written, one after the other, in the order of the images:
/// those of each image of a partition that is not excluded.
pub open spec fn writes_all(
    scene: Scene,
    mode: Mode,
    names: Seq<Seq<char>>,
    images: Seq<ImageView>,
) -> Story
    decreases images.len(),
{
    if images.len() == 0 {
        tells(seq![])
    } else {
        let image = images.last();
        let before = writes_all(scene, mode, names, images.drop_last());
        if image.image_type == ImageType::Code && !crate::config::excluded(names, image.name) {
            before.and(writes(scene, mode, image))
        } else {
            before
        }
    }
}

/// The flash downloader is loaded: in two stages with a handshake between them, or, where the
/// project says so and the archive is read with calls that block, in one with a handshake behind
/// it.
pub open spec fn loads_all(scene: Scene, mode: Mode, project: ProjectView) -> Story {
    if mode == Mode::Async || project.two_level_fdl {
        loads(scene, mode, project.images, "FDL1"@, false).and(
            tells(seq![plainly(ActionView::Handshake("fdl1"@))]),
        ).and(loads(scene, mode, project.images, "FDL2"@, true))
    } else {
        loads(scene, mode, project.images, "FDL"@, false).and(
            tells(seq![plainly(ActionView::Handshake("fdl2"@))]),
        )
    }
}

/// The download of a project.
pub open spec fn downloads(
    scene: Scene,
    mode: Mode,
    names: Seq<Seq<char>>,
    project: ProjectView,
) -> Story {
    tells(
        seq![
            plainly(ActionView::Report("Start download"@)),
            plainly(ActionView::Report("Handshaking with the device"@)),
            plainly(ActionView::Handshake("romcode"@)),
            plainly(ActionView::Report("Downloading the flash downloaders"@)),
        ],
    ).and(loads_all(scene, mode, project)).and(
        tells(
            seq![
                plainly(ActionView::Report("Downloading the partition table"@)),
                plainly(ActionView::SetPartitionTable),
            ],
        ),
    ).and(
        tells(
            crate::config::skip_lines(names, project.images).map_values(
                |line: Seq<char>| plainly(ActionView::Log(line)),
            ),
        ),
    ).and(writes_all(scene, mode, names, project.images))
}

// The same from the steps of a plan.

/// What one step comes to while the entry `held` is held.
spec fn plays_one(scene: Scene, held: Option<int>, step: StepView) -> Story {
    if super::outcome::can_take(scene, step) {
        tells(
            match super::outcome::sending(
                super::outcome::asked(step, scene.size_of(held)),
                held,
            ) {
                Some(s) => seq![s],
                None => seq![],
            },
        )
    } else {
        fails(seq![], super::outcome::step_defect(scene, step))
    }
}

/// What the steps come to.
spec fn plays(scene: Scene, from: Option<int>, steps: Seq<StepView>) -> Story
    decreases steps.len(),
{
    if steps.len() == 0 {
        tells(seq![])
    } else {
        plays(scene, from, steps.drop_last()).and(
            plays_one(
                scene,
                super::outcome::hold_all(scene, from, steps.drop_last()),
                steps.last(),
            ),
        )
    }
}

proof fn lemma_plays_push(scene: Scene, from: Option<int>, steps: Seq<StepView>, step: StepView)
    ensures
        super::outcome::hold_all(scene, from, steps.push(step)) == super::outcome::hold(
            scene,
            super::outcome::hold_all(scene, from, steps),
            step,
        ),
        plays(scene, from, steps.push(step)) == plays(scene, from, steps).and(
            plays_one(scene, super::outcome::hold_all(scene, from, steps), step),
        ),
{
    assert(steps.push(step).drop_last() =~= steps);
}

proof fn lemma_and_is_associative(a: Story, b: Story, c: Story)
    ensures
        a.and(b).and(c) == a.and(b.and(c)),
{
    assert(a.told + b.told + c.told =~= a.told + (b.told + c.told));
}

proof fn lemma_plays_concat(scene: Scene, from: Option<int>, a: Seq<StepView>, b: Seq<StepView>)
    ensures
        plays(scene, from, a + b) == plays(scene, from, a).and(
            plays(scene, super::outcome::hold_all(scene, from, a), b),
        ),
    decreases b.len(),
{
    let x = plays(scene, from, a);
    let held = super::outcome::hold_all(scene, from, a);
    if b.len() == 0 {
        assert(a + b =~= a);
        assert(x.told + Seq::<Sent>::empty() =~= x.told);
    } else {
        let c = b.drop_last();
        lemma_plays_concat(scene, from, a, c);
        super::outcome::lemma_trace_concat(scene, from, a, c);
        assert((a + b).drop_last() =~= a + c);
        assert((a + b).last() == b.last());
        lemma_and_is_associative(
            x,
            plays(scene, held, c),
            plays_one(scene, super::outcome::hold_all(scene, held, c), b.last()),
        );
    }
}

/// Where the first `k` steps can be taken, and the next one cannot or there is none, the steps
/// come to what the first `k` of them tell, and to what is wrong with the next one.
proof fn lemma_plays_up_to(scene: Scene, from: Option<int>, steps: Seq<StepView>, k: int)
    requires
        0 <= k <= steps.len(),
        super::outcome::can_take_all(scene, steps.take(k)),
        k < steps.len() ==> !super::outcome::can_take(scene, steps[k]),
    ensures
        plays(scene, from, steps).told == super::outcome::trace(scene, from, steps.take(k)),
        plays(scene, from, steps).defect == (if k < steps.len() {
            Some(super::outcome::step_defect(scene, steps[k]))
        } else {
            None
        }),
    decreases steps.len(),
{
    if steps.len() > 0 {
        let before = steps.drop_last();
        let held = super::outcome::hold_all(scene, from, before);
        if k == steps.len() {
            assert(steps.take(k) =~= steps);
            assert(before.take(k - 1) =~= before);
            assert forall|i: int| 0 <= i < before.take(k - 1).len() implies super::outcome::can_take(
                scene,
                #[trigger] before.take(k - 1)[i],
            ) by {
                assert(before.take(k - 1)[i] == steps.take(k)[i]);
            }
            lemma_plays_up_to(scene, from, before, k - 1);
            assert(super::outcome::can_take(scene, steps.take(k)[k - 1]));
            assert(plays(scene, from, steps).told =~= super::outcome::trace(
                scene,
                from,
                steps.take(k),
            ));
        } else {
            assert(before.take(k) =~= steps.take(k));
            lemma_plays_up_to(scene, from, before, k);
            if k == before.len() {
                assert(before.take(k) =~= before);
                assert(plays(scene, from, steps).told =~= super::outcome::trace(
                    scene,
                    from,
                    steps.take(k),
                ));
            }
        }
    } else {
        assert(steps.take(k) =~= steps);
    }
}

proof fn lemma_plays_1(scene: Scene, from: Option<int>, a: StepView)
    ensures
        plays(scene, from, seq![a]) == plays_one(scene, from, a),
{
    let none = Seq::<StepView>::empty();
    assert(seq![a] =~= none.push(a));
    lemma_plays_push(scene, from, none, a);
    assert(Seq::<Sent>::empty() + plays_one(scene, from, a).told =~= plays_one(
        scene,
        from,
        a,
    ).told);
}

/// What the steps of a transfer come to.
proof fn lemma_plays_transfer(
    scene: Scene,
    entry: int,
    target: crate::plan::WriteImagePartitionView,
    name: Seq<char>,
    chunk_size: usize,
    timeout_secs: Option<u64>,
)
    ensures
        plays(
            scene,
            Some(entry),
            crate::plan::transfer(target, name, chunk_size, timeout_secs),
        ) == tells(
            seq![
                plainly(
                    match target {
                        crate::plan::WriteImagePartitionView::Absolute32(address) =>
                            ActionView::StartPartitionAbsolute32 {
                            address,
                            size: scene.entries[entry].size as u32,
                        },
                        crate::plan::WriteImagePartitionView::Absolute64(address) =>
                            ActionView::StartPartitionAbsolute {
                            address,
                            size: scene.entries[entry].size,
                        },
                        crate::plan::WriteImagePartitionView::PartitionId(id) =>
                            ActionView::StartPartitionId { id, size: scene.entries[entry].size },
                    },
                ),
                Sent {
                    request: ActionView::WriteImage {
                        name,
                        chunk_size,
                        size: scene.entries[entry].size as usize,
                        report_every: Some(100),
                    },
                    entry: Some(entry),
                },
                plainly(ActionView::EndPartition { timeout_secs: None }),
            ],
        ),
{
    let from = Some(entry);
    let steps = crate::plan::transfer(target, name, chunk_size, timeout_secs);
    let none = Seq::<StepView>::empty();
    let one = none.push(steps[0]);
    let two = one.push(steps[1]);
    assert(steps =~= two.push(steps[2]));
    lemma_plays_push(scene, from, none, steps[0]);
    lemma_plays_push(scene, from, one, steps[1]);
    lemma_plays_push(scene, from, two, steps[2]);
    let a = plays_one(scene, from, steps[0]);
    let b = plays_one(scene, from, steps[1]);
    let c = plays_one(scene, from, steps[2]);
    assert(plays(scene, from, steps).told =~= seq![a.told[0], b.told[0], c.told[0]]);
}

/// The steps that get hold of a flash downloader and tell the device that it comes.
spec fn entry_and_ram(mode: Mode, file: Seq<char>, missing: Seq<char>) -> Seq<StepView> {
    match mode {
        Mode::Blocking => seq![
            StepView::OpenEntry { file, missing },
            StepView::StartRamDownload,
        ],
        Mode::Async => seq![StepView::StartRamDownload, StepView::SearchEntry { file }],
    }
}

proof fn lemma_plays_entry_and_ram(
    scene: Scene,
    mode: Mode,
    file: Seq<char>,
    missing: Seq<char>,
    from: Option<int>,
)
    ensures
        super::outcome::hold_all(scene, from, entry_and_ram(mode, file, missing)) == Some(
            scene.index_of(file),
        ),
        plays(scene, from, entry_and_ram(mode, file, missing)) == ({
            let ram = seq![plainly(ActionView::StartRamDownload)];
            if scene.has(file) {
                tells(ram)
            } else {
                match mode {
                    Mode::Blocking => fails(seq![], missing + scene.reason.shown),
                    Mode::Async => fails(ram, "image was not found in the image file: "@ + file),
                }
            }
        }),
{
    let steps = entry_and_ram(mode, file, missing);
    let none = Seq::<StepView>::empty();
    assert(steps =~= none.push(steps[0]).push(steps[1]));
    lemma_plays_push(scene, from, none, steps[0]);
    lemma_plays_push(scene, from, none.push(steps[0]), steps[1]);
}

proof fn lemma_plays_fdl_stage(
    scene: Scene,
    mode: Mode,
    images: Seq<ImageView>,
    name: Seq<char>,
    wide: bool,
    from: Option<int>,
)
    ensures
        plays(scene, from, crate::plan::fdl_stage(mode, images, name, wide)) == loads(
            scene,
            mode,
            images,
            name,
            wide,
        ),
{
    let steps = crate::plan::fdl_stage(mode, images, name, wide);
    if let Some(image) = crate::partition::find_image(images, name) {
        if let Some(file) = image.file {
            if let BlockView::Absolute(address) = image.block {
                let target = crate::plan::fdl_target(wide, address);
                let missing = name + " image was not found in the image file: "@;
                let head = entry_and_ram(mode, file, missing);
                let middle = crate::plan::transfer(
                    target,
                    name,
                    crate::plan::FDL_CHUNK_SIZE,
                    None,
                );
                let last = seq![StepView::EndRamDownload];
                assert(steps =~= head + middle + last);
                lemma_plays_entry_and_ram(scene, mode, file, missing, from);
                lemma_plays_concat(scene, from, head + middle, last);
                lemma_plays_concat(scene, from, head, middle);
                if scene.has(file) {
                    lemma_plays_transfer(
                        scene,
                        scene.index_of(file),
                        target,
                        name,
                        crate::plan::FDL_CHUNK_SIZE,
                        None,
                    );
                    lemma_plays_1(
                        scene,
                        super::outcome::hold_all(scene, from, head + middle),
                        StepView::EndRamDownload,
                    );
                }
            } else {
                if mode == Mode::Blocking {
                    let none = Seq::<StepView>::empty();
                    assert(steps =~= none.push(steps[0]).push(steps[1]));
                    lemma_plays_push(scene, from, none, steps[0]);
                    lemma_plays_push(scene, from, none.push(steps[0]), steps[1]);
                } else {
                    assert(steps =~= seq![steps[0]]);
                    lemma_plays_1(scene, from, steps[0]);
                }
            }
        } else {
            assert(steps =~= seq![steps[0]]);
            lemma_plays_1(scene, from, steps[0]);
        }
    } else {
        assert(steps =~= seq![steps[0]]);
        lemma_plays_1(scene, from, steps[0]);
    }
}

proof fn lemma_plays_image_stage(scene: Scene, mode: Mode, image: ImageView, from: Option<int>)
    ensures
        plays(scene, from, crate::plan::image_stage(mode, image)) == writes(scene, mode, image),
{
    let steps = crate::plan::image_stage(mode, image);
    let none = Seq::<StepView>::empty();
    let two = none.push(steps[0]).push(steps[1]);
    let three = two.push(steps[2]);
    lemma_plays_push(scene, from, none, steps[0]);
    lemma_plays_push(scene, from, none.push(steps[0]), steps[1]);
    lemma_plays_push(scene, from, two, steps[2]);
    let begun = seq![
        plainly(ActionView::Report("Downloading image "@ + image.name)),
        plainly(ActionView::CheckCancelled),
    ];
    assert(plays(scene, from, two) =~= tells(begun));
    if let Some(file) = image.file {
        if let BlockView::Partition(id) = image.block {
            let target = crate::plan::WriteImagePartitionView::PartitionId(id);
            let timeout_secs = match mode {
                Mode::Blocking => Some(crate::plan::PARTITION_TIMEOUT_SECS),
                Mode::Async => None,
            };
            let rest = crate::plan::transfer(
                target,
                image.name,
                crate::plan::IMAGE_CHUNK_SIZE,
                timeout_secs,
            );
            assert(steps =~= three + rest);
            lemma_plays_concat(scene, from, three, rest);
            if scene.has(file) {
                lemma_plays_transfer(
                    scene,
                    scene.index_of(file),
                    target,
                    image.name,
                    crate::plan::IMAGE_CHUNK_SIZE,
                    timeout_secs,
                );
            }
        } else if mode == Mode::Blocking {
            assert(steps =~= three.push(steps[3]));
            lemma_plays_push(scene, from, three, steps[3]);
        } else {
            assert(steps =~= three);
        }
    } else {
        assert(steps =~= three);
    }
}

proof fn lemma_plays_image_stages(
    scene: Scene,
    mode: Mode,
    names: Seq<Seq<char>>,
    images: Seq<ImageView>,
    from: Option<int>,
)
    ensures
        plays(scene, from, crate::plan::image_stages(mode, names, images)) == writes_all(
            scene,
            mode,
            names,
            images,
        ),
    decreases images.len(),
{
    if images.len() > 0 {
        let before = crate::plan::image_stages(mode, names, images.drop_last());
        lemma_plays_image_stages(scene, mode, names, images.drop_last(), from);
        if crate::config::selected(names, images.last()) {
            let held = super::outcome::hold_all(scene, from, before);
            lemma_plays_concat(
                scene,
                from,
                before,
                crate::plan::image_stage(mode, images.last()),
            );
            lemma_plays_image_stage(scene, mode, images.last(), held);
        }
    }
}

/// The step tells the same whatever entry is held.
spec fn is_plain(step: StepView) -> bool {
    step is Report || step is Handshake || step is SetPartitionTable || step is Log
}

proof fn lemma_plays_plain(scene: Scene, steps: Seq<StepView>, from: Option<int>)
    requires
        forall|i: int| 0 <= i < steps.len() ==> is_plain(#[trigger] steps[i]),
    ensures
        plays(scene, from, steps) == tells(
            steps.map_values(|step: StepView| plainly(super::outcome::asked(step, 0))),
        ),
    decreases steps.len(),
{
    let f = |step: StepView| plainly(super::outcome::asked(step, 0));
    if steps.len() > 0 {
        let before = steps.drop_last();
        lemma_plays_plain(scene, before, from);
        let held = super::outcome::hold_all(scene, from, before);
        let step = steps[steps.len() - 1];
        assert(is_plain(step));
        assert(plays_one(scene, held, step) =~= tells(seq![f(step)]));
        assert(steps.map_values(f) =~= before.map_values(f) + seq![f(step)]);
    } else {
        assert(steps.map_values(f) =~= Seq::<Sent>::empty());
    }
}

proof fn lemma_plays_fdl_stages(
    scene: Scene,
    mode: Mode,
    project: ProjectView,
    from: Option<int>,
)
    ensures
        plays(scene, from, crate::plan::fdl_stages(mode, project)) == loads_all(
            scene,
            mode,
            project,
        ),
{
    let images = project.images;
    if mode == Mode::Async || project.two_level_fdl {
        let a = crate::plan::fdl_stage(mode, images, "FDL1"@, false);
        let h = seq![StepView::Handshake("fdl1"@)];
        let c = crate::plan::fdl_stage(mode, images, "FDL2"@, true);
        lemma_plays_concat(scene, from, a + h, c);
        lemma_plays_concat(scene, from, a, h);
        lemma_plays_fdl_stage(scene, mode, images, "FDL1"@, false, from);
        lemma_plays_fdl_stage(
            scene,
            mode,
            images,
            "FDL2"@,
            true,
            super::outcome::hold_all(scene, from, a + h),
        );
        lemma_plays_1(scene, super::outcome::hold_all(scene, from, a), h[0]);
    } else {
        let a = crate::plan::fdl_stage(mode, images, "FDL"@, false);
        let h = seq![StepView::Handshake("fdl2"@)];
        lemma_plays_concat(scene, from, a, h);
        lemma_plays_fdl_stage(scene, mode, images, "FDL"@, false, from);
        lemma_plays_1(scene, super::outcome::hold_all(scene, from, a), h[0]);
    }
}

proof fn lemma_plays_project(
    scene: Scene,
    mode: Mode,
    names: Seq<Seq<char>>,
    project: ProjectView,
    from: Option<int>,
)
    ensures
        plays(scene, from, crate::plan::project_steps(mode, names, project)) == downloads(
            scene,
            mode,
            names,
            project,
        ),
{
    let images = project.images;
    let g = crate::plan::greeting();
    let f = crate::plan::fdl_stages(mode, project);
    let t = crate::plan::table_stage();
    let l = crate::plan::log_stage(names, images);
    let s = crate::plan::image_stages(mode, names, images);
    lemma_plays_concat(scene, from, g + f + t + l, s);
    lemma_plays_concat(scene, from, g + f + t, l);
    lemma_plays_concat(scene, from, g + f, t);
    lemma_plays_concat(scene, from, g, f);
    let after_g = super::outcome::hold_all(scene, from, g);
    let after_f = super::outcome::hold_all(scene, from, g + f);
    let after_t = super::outcome::hold_all(scene, from, g + f + t);
    let after_l = super::outcome::hold_all(scene, from, g + f + t + l);
    lemma_plays_plain(scene, g, from);
    lemma_plays_fdl_stages(scene, mode, project, after_g);
    lemma_plays_plain(scene, t, after_f);
    lemma_plays_plain(scene, l, after_t);
    lemma_plays_image_stages(scene, mode, names, images, after_l);
    let told = |step: StepView| plainly(super::outcome::asked(step, 0));
    assert(g.map_values(told) =~= seq![
        plainly(ActionView::Report("Start download"@)),
        plainly(ActionView::Report("Handshaking with the device"@)),
        plainly(ActionView::Handshake("romcode"@)),
        plainly(ActionView::Report("Downloading the flash downloaders"@)),
    ]);
    assert(t.map_values(told) =~= seq![
        plainly(ActionView::Report("Downloading the partition table"@)),
        plainly(ActionView::SetPartitionTable),
    ]);
    assert(l.map_values(told) =~= crate::config::skip_lines(names, images).map_values(
        |line: Seq<char>| plainly(ActionView::Log(line)),
    ));
}

/// What comes of a download, from the archive alone: it fails where there is no project
/// description, where that cannot be read, where it cannot be parsed, and where something is
/// wrong with the image, and succeeds otherwise.
pub open spec fn result(
    scene: Scene,
    mode: Mode,
    names: Seq<Seq<char>>,
) -> Result<(), AxdlErrorView> {
    let text = scene.entries[scene.description()].text;
    if forall|i: int|
        0 <= i < scene.entries.len() ==> !crate::text::has_suffix(
            (#[trigger] scene.entries[i]).name,
            ".xml"@,
        ) {
        Err(AxdlErrorView::ImageError("configuration file not found in the image"@))
    } else if text is None {
        match mode {
            Mode::Blocking => Err(
                AxdlErrorView::ImageError(
                    "failed to read configuration file: "@ + scene.reason.shown,
                ),
            ),
            Mode::Async => Err(AxdlErrorView::ImageAsyncZipError(scene.reason)),
        }
    } else {
        match (scene.parser)(text->0) {
            None => Err(
                AxdlErrorView::ImageError(
                    "failed to parse the configuration file: "@ + scene.reason.shown,
                ),
            ),
            Some(project) => match downloads(scene, mode, names, project).defect {
                None => Ok(()),
                Some(defect) => Err(AxdlErrorView::ImageError(defect)),
            },
        }
    }
}

/// What the device and the user are told, from the archive alone.
pub open spec fn telling(scene: Scene, mode: Mode, names: Seq<Seq<char>>) -> Seq<Sent> {
    let loading = seq![plainly(ActionView::Report("Loading the AXP image configuration"@))];
    if exists|project: ProjectView| scene.describes(project) {
        loading + downloads(
            scene,
            mode,
            names,
            choose|project: ProjectView| scene.describes(project),
        ).told
    } else {
        loading
    }
}

/// A download does what the archive and the project say, whatever they say. Once it has ended,
/// the device and the user were told exactly this, in this order: the device each handshake, each
/// address as the project names it, each partition as the project names it, each size as the
/// archive tells it and the contents of the entry that the project names, in pieces of the right
/// size, and the user what is being done and what is left out. It has succeeded exactly if
/// nothing is wrong with the image, and otherwise it has failed with the first thing that is.
pub proof fn law_whole_download(
    scene: Scene,
    mode: Mode,
    names: Seq<Seq<char>>,
    events: Seq<EventView>,
)
    requires
        scene.wf(),
        scene.tells(mode, names, events),
        super::course::run(DownloadView::start(mode, names), events).ended,
    ensures
        events.len() > 0,
        super::course::run(DownloadView::start(mode, names), events.drop_last()).answer(
            events.last(),
        ) == ActionView::Finished(result(scene, mode, names)),
        scene.sent(mode, names, events) == telling(scene, mode, names),
{
    let d = super::course::run(DownloadView::start(mode, names), events);
    let b = super::course::run(DownloadView::start(mode, names), events.drop_last());
    let loading = seq![super::outcome::loading()];
    if d.next < super::course::opening_len() {
        super::outcome::lemma_early_ending(scene, mode, names, events);
        assert(!exists|project: ProjectView| scene.describes(project)) by {
            if exists|project: ProjectView| scene.describes(project) {
                let project = choose|project: ProjectView| scene.describes(project);
                assert(scene.describes(project));
                assert(scene.is_xml(scene.description()));
            }
        }
        if d.next == 2 {
            assert forall|i: int| 0 <= i < scene.entries.len() implies !crate::text::has_suffix(
                (#[trigger] scene.entries[i]).name,
                ".xml"@,
            ) by {
                assert(!scene.is_xml(i));
            }
        } else {
            let i = scene.description();
            assert(crate::text::has_suffix(scene.entries[i].name, ".xml"@));
        }
    } else {
        let (project, k) = super::outcome::lemma_ending(scene, mode, names, events);
        let from = Some(scene.description());
        let plan = crate::plan::project_steps(mode, names, project);
        lemma_plays_up_to(scene, from, plan, k);
        lemma_plays_project(scene, mode, names, project, from);
        let i = scene.description();
        assert(scene.is_description(i));
        assert(crate::text::has_suffix(scene.entries[i].name, ".xml"@));
        assert(scene.describes(project));
        assert((choose|project: ProjectView| scene.describes(project)) == project);
    }
}

} // verus!
