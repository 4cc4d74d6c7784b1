//! Which partitions of an image are left alone.

use vstd::prelude::*;

use crate::partition::Image;
use crate::partition::ImageType;
use crate::partition::ImageView;
use crate::text::eq_ignore_ascii_case;
use crate::text::join3;
use crate::text::split_comma_list;

verus! {

/// The partition that no download writes.
pub const DEFAULT_EXCLUDE: &'static str = "factory";

/// How a download is to be done.
#[derive(Debug)]
pub struct DownloadConfig {
    /// The partitions not to write. The case of ASCII letters does not matter.
    pub exclude_partitions: Vec<String>,
}

/// `name` is the partition that no download writes.
pub open spec fn excluded_by_default(name: Seq<char>) -> bool {
    crate::text::same_ignoring_ascii_case(name, DEFAULT_EXCLUDE@)
}

/// `name` is one of `names`, up to the case of ASCII letters.
pub open spec fn excluded_by_user(names: Seq<Seq<char>>, name: Seq<char>) -> bool {
    exists|i: int|
        0 <= i < names.len() && crate::text::same_ignoring_ascii_case(#[trigger] names[i], name)
}

/// A download that is to leave `names` alone does not write `name`.
pub open spec fn excluded(names: Seq<Seq<char>>, name: Seq<char>) -> bool {
    excluded_by_default(name) || excluded_by_user(names, name)
}

/// The image holds the contents of a partition that is not written.
pub open spec fn skipped(names: Seq<Seq<char>>, image: ImageView) -> bool {
    image.image_type == ImageType::Code && excluded(names, image.name)
}

/// The image holds the contents of a partition that is written.
pub open spec fn selected(names: Seq<Seq<char>>, image: ImageView) -> bool {
    image.image_type == ImageType::Code && !excluded(names, image.name)
}

/// The line that tells that a partition is not written, and why.
pub open spec fn skip_line(name: Seq<char>) -> Seq<char> {
    "Skipping partition: "@ + name + " ("@ + (if excluded_by_default(name) {
        "excluded by default"@
    } else {
        "excluded by user"@
    }) + ")"@
}

/// One line for each image that is skipped, in the order of the images.
pub open spec fn skip_lines(
    names: Seq<Seq<char>>,
    images: Seq<ImageView>,
) -> Seq<Seq<char>>
    decreases images.len(),
{
    if images.len() == 0 {
        Seq::empty()
    } else {
        let lines = skip_lines(names, images.drop_last());
        if skipped(names, images.last()) {
            lines.push(skip_line(images.last().name))
        } else {
            lines
        }
    }
}

impl View for DownloadConfig {
    type V = Seq<Seq<char>>;

    open spec fn view(&self) -> Seq<Seq<char>> {
        crate::text::texts(self.exclude_partitions@)
    }
}

impl Default for DownloadConfig {
    /// A download that leaves no partition alone but the default one.
    fn default() -> (r: Self)
        ensures
            r@ == Seq::<Seq<char>>::empty(),
    {
        let r = DownloadConfig { exclude_partitions: Vec::new() };
        assert(r@ =~= Seq::<Seq<char>>::empty());
        r
    }
}

impl DownloadConfig {
    /// A download that leaves the partitions of a comma separated list alone.
    pub fn from_comma_list(list: &str) -> (r: Self)
        ensures
            r@ == crate::text::comma_list(list@),
    {
        DownloadConfig { exclude_partitions: split_comma_list(list) }
    }

    /// Whether the partition is not to be written.
    pub fn is_excluded(&self, name: &str) -> (r: bool)
        ensures
            r == excluded(self@, name@),
    {
        if eq_ignore_ascii_case(name, DEFAULT_EXCLUDE) {
            return true;
        }
        for i in 0..self.exclude_partitions.len()
            invariant
                forall|j: int|
                    0 <= j < i ==> !crate::text::same_ignoring_ascii_case(
                        #[trigger] self@[j],
                        name@,
                    ),
        {
            if eq_ignore_ascii_case(self.exclude_partitions[i].as_str(), name) {
                assert(crate::text::same_ignoring_ascii_case(self@[i as int], name@));
                return true;
            }
        }
        false
    }

    /// The lines to log about the images that are not written, in the order of the images.
    pub fn log_exclusions(&self, images: &Vec<Image>) -> (r: Vec<String>)
        ensures
            crate::text::texts(r@) == skip_lines(
                self@,
                crate::partition::image_views(images@),
            ),
    {
        let mut r: Vec<String> = Vec::new();
        let ghost views = crate::partition::image_views(images@);
        assert(crate::text::texts(r@) =~= skip_lines(self@, views.take(0)));
        for i in 0..images.len()
            invariant
                views == crate::partition::image_views(images@),
                crate::text::texts(r@) == skip_lines(self@, views.take(i as int)),
        {
            let image = &images[i];
            assert(views.take(i + 1).drop_last() =~= views.take(i as int));
            assert(views[i as int] == image@);
            if image.image_type() == ImageType::Code && self.is_excluded(image.name()) {
                let reason = if eq_ignore_ascii_case(image.name(), DEFAULT_EXCLUDE) {
                    "excluded by default"
                } else {
                    "excluded by user"
                };
                let mut line = join3("Skipping partition: ", image.name(), " (");
                line.append(reason);
                line.append(")");
                let ghost before = crate::text::texts(r@);
                let ghost text = line@;
                r.push(line);
                assert(crate::text::texts(r@) =~= before.push(text));
            }
        }
        assert(views.take(images.len() as int) =~= views);
        r
    }
}

/// What is excluded: with no names only `factory`, up to the case of its letters, and each
/// name that is added excludes itself, up to the case of its letters, and nothing else.
pub proof fn law_what_is_excluded(names: Seq<Seq<char>>, more: Seq<char>, name: Seq<char>)
    ensures
        excluded(Seq::empty(), name) <==> crate::text::same_ignoring_ascii_case(
            name,
            "factory"@,
        ),
        excluded(names.push(more), name) <==> excluded(names, name)
            || crate::text::same_ignoring_ascii_case(more, name),
{
    let all = names.push(more);
    if excluded_by_user(names, name) {
        let i = choose|i: int|
            0 <= i < names.len() && crate::text::same_ignoring_ascii_case(
                #[trigger] names[i],
                name,
            );
        assert(all[i] == names[i]);
    }
    if excluded_by_user(all, name) {
        let i = choose|i: int|
            0 <= i < all.len() && crate::text::same_ignoring_ascii_case(#[trigger] all[i], name);
        if i < names.len() {
            assert(names[i] == all[i]);
        }
    }
    assert(all[names.len() as int] == more);
}

/// An image of the contents of a partition is written unless it is excluded, and skipped if
/// it is; any other image is neither.
pub proof fn law_which_images_are_written(names: Seq<Seq<char>>, image: ImageView)
    ensures
        selected(names, image) <==> image.image_type == ImageType::Code && !excluded(
            names,
            image.name,
        ),
        skipped(names, image) <==> image.image_type == ImageType::Code && excluded(
            names,
            image.name,
        ),
{
}

/// The lines about what is not written. An image that is skipped gives one line, which names
/// the partition and says whether it is never written or was excluded by the user, and any
/// other image gives none. The lines of an image more come behind those before.
pub proof fn law_skip_lines(names: Seq<Seq<char>>, images: Seq<ImageView>, image: ImageView)
    ensures
        skip_lines(names, Seq::empty()) == Seq::<Seq<char>>::empty(),
        image.image_type == ImageType::Code && crate::text::same_ignoring_ascii_case(
            image.name,
            "factory"@,
        ) ==> skip_lines(names, images.push(image)) == skip_lines(names, images).push(
            "Skipping partition: "@ + image.name + " (excluded by default)"@,
        ),
        image.image_type == ImageType::Code && !crate::text::same_ignoring_ascii_case(
            image.name,
            "factory"@,
        ) && excluded(names, image.name) ==> skip_lines(names, images.push(image)) == skip_lines(
            names,
            images,
        ).push("Skipping partition: "@ + image.name + " (excluded by user)"@),
        image.image_type != ImageType::Code || !excluded(names, image.name) ==> skip_lines(
            names,
            images.push(image),
        ) == skip_lines(names, images),
{
    assert(images.push(image).drop_last() =~= images);
    reveal_strlit(" (");
    reveal_strlit(")");
    reveal_strlit("excluded by default");
    reveal_strlit("excluded by user");
    reveal_strlit(" (excluded by default)");
    reveal_strlit(" (excluded by user)");
    let head = "Skipping partition: "@ + image.name;
    assert(head + " ("@ + "excluded by default"@ + ")"@ =~= head + " (excluded by default)"@);
    assert(head + " ("@ + "excluded by user"@ + ")"@ =~= head + " (excluded by user)"@);
}

/// A config is seen as the texts of its list, one for one and in their order.
pub proof fn law_config_is_seen_as_it_is(config: DownloadConfig)
    ensures
        config@.len() == config.exclude_partitions@.len(),
        forall|i: int|
            0 <= i < config@.len() ==> #[trigger] config@[i] == config.exclude_partitions@[i]@,
{
}

} // verus!
