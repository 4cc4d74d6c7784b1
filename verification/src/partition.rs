//! What a download reads of the project description in an image file: the list of the
//! images, where each one goes, and how the flash downloader is loaded.

use vstd::prelude::*;

verus! {

/// What an image is for.
#[derive(Debug, Clone, Copy, PartialEq, Eq, Structural)]
pub enum ImageType {
    /// The contents of a partition.
    Code,
    /// Anything else: a flash downloader, an erase request, a handshake.
    Other,
}

/// Where an image goes.
#[derive(Debug)]
pub enum Block {
    /// An address in the device's memory.
    Absolute(u64),
    /// The partition with this name.
    Partition(String),
    /// Neither of the two.
    Other,
}

/// A [`Block`] with the text that it holds.
pub enum BlockView {
    Absolute(u64),
    Partition(Seq<char>),
    Other,
}

impl View for Block {
    type V = BlockView;

    open spec fn view(&self) -> BlockView {
        match *self {
            Block::Absolute(address) => BlockView::Absolute(address),
            Block::Partition(id) => BlockView::Partition(id@),
            Block::Other => BlockView::Other,
        }
    }
}

/// One image of a project.
#[derive(Debug)]
pub struct Image {
    name: String,
    file: Option<String>,
    block: Block,
    image_type: ImageType,
}

/// An [`Image`] with the texts that it holds.
pub struct ImageView {
    pub name: Seq<char>,
    pub file: Option<Seq<char>>,
    pub block: BlockView,
    pub image_type: ImageType,
}

impl View for Image {
    type V = ImageView;

    closed spec fn view(&self) -> ImageView {
        ImageView {
            name: self.name@,
            file: match self.file {
                Some(file) => Some(file@),
                None => None,
            },
            block: self.block@,
            image_type: self.image_type,
        }
    }
}

impl Image {
    /// An image called `name`, whose contents are in the archive's entry `file`, if any.
    pub fn new(name: String, file: Option<String>, block: Block, image_type: ImageType) -> (r: Self)
        ensures
            r@.name == name@,
            match file {
                Some(f) => r@.file == Some(f@),
                None => r@.file is None,
            },
            r@.block == block@,
            r@.image_type == image_type,
    {
        Image { name, file, block, image_type }
    }

    /// The name of the image.
    pub fn name(&self) -> (r: &str)
        ensures
            r@ == self@.name,
    {
        self.name.as_str()
    }

    /// The archive's entry that holds the contents of the image, if there is one.
    pub fn file(&self) -> (r: Option<&str>)
        ensures
            match r {
                Some(f) => self@.file == Some(f@),
                None => self@.file is None,
            },
    {
        match &self.file {
            Some(file) => Some(file.as_str()),
            None => None,
        }
    }

    /// Where the image goes.
    pub fn block(&self) -> (r: &Block)
        ensures
            r@ == self@.block,
    {
        &self.block
    }

    /// What the image is for.
    pub fn image_type(&self) -> (r: ImageType)
        ensures
            r == self@.image_type,
    {
        self.image_type
    }
}

/// The images, each with the texts that it holds.
pub open spec fn image_views(images: Seq<Image>) -> Seq<ImageView> {
    images.map_values(|image: Image| image@)
}

/// The first image called `name`, if there is one.
pub open spec fn find_image(images: Seq<ImageView>, name: Seq<char>) -> Option<ImageView>
    decreases images.len(),
{
    if images.len() == 0 {
        None
    } else if images.first().name == name {
        Some(images.first())
    } else {
        find_image(images.drop_first(), name)
    }
}

/// A project: its images, and how many stages the flash downloader has.
#[derive(Debug)]
pub struct Project {
    images: Vec<Image>,
    two_level_fdl: bool,
}

/// A [`Project`] with the texts that it holds.
pub struct ProjectView {
    pub images: Seq<ImageView>,
    pub two_level_fdl: bool,
}

impl View for Project {
    type V = ProjectView;

    closed spec fn view(&self) -> ProjectView {
        ProjectView { images: image_views(self.images@), two_level_fdl: self.two_level_fdl }
    }
}

impl Project {
    /// A project with these images. With `two_level_fdl` the flash downloader consists of
    /// the images `FDL1` and `FDL2`, without it of the image `FDL`.
    pub fn new(images: Vec<Image>, two_level_fdl: bool) -> (r: Self)
        ensures
            r@.images == image_views(images@),
            r@.two_level_fdl == two_level_fdl,
    {
        Project { images, two_level_fdl }
    }

    /// The images, in the order of the project description.
    pub fn images(&self) -> (r: &Vec<Image>)
        ensures
            image_views(r@) == self@.images,
    {
        &self.images
    }

    /// Whether the flash downloader is loaded in two stages.
    pub fn is2_level_fdl(&self) -> (r: bool)
        ensures
            r == self@.two_level_fdl,
    {
        self.two_level_fdl
    }

    /// The first image called `name`, if there is one.
    pub fn find(&self, name: &str) -> (r: Option<&Image>)
        ensures
            match r {
                Some(image) => find_image(self@.images, name@) == Some(image@),
                None => find_image(self@.images, name@) is None,
            },
    {
        let ghost views = self@.images;
        assert(views.skip(0) =~= views);
        for i in 0..self.images.len()
            invariant
                views == image_views(self.images@),
                find_image(views, name@) == find_image(views.skip(i as int), name@),
        {
            assert(views.skip(i as int).first() == self.images@[i as int]@);
            assert(views.skip(i as int).drop_first() =~= views.skip(i + 1));
            if crate::text::same_text(self.images[i].name(), name) {
                return Some(&self.images[i]);
            }
        }
        None
    }
}

/// The image that is found is the first one with the name: it stands in the list, and none
/// before it has that name. Where none is found, none has that name.
pub proof fn law_found_image_is_the_first(images: Seq<ImageView>, name: Seq<char>)
    ensures
        find_image(images, name) matches Some(image) ==> exists|i: int|
            {
                &&& 0 <= i < images.len()
                &&& #[trigger] images[i] == image
                &&& image.name == name
                &&& forall|j: int| 0 <= j < i ==> (#[trigger] images[j]).name != name
            },
        find_image(images, name) is None <==> forall|i: int|
            0 <= i < images.len() ==> (#[trigger] images[i]).name != name,
    decreases images.len(),
{
    if images.len() > 0 {
        let rest = images.drop_first();
        if images.first().name == name {
            assert(images[0] == images.first());
        } else {
            law_found_image_is_the_first(rest, name);
            if let Some(image) = find_image(rest, name) {
                let i = choose|i: int|
                    {
                        &&& 0 <= i < rest.len()
                        &&& #[trigger] rest[i] == image
                        &&& image.name == name
                        &&& forall|j: int| 0 <= j < i ==> (#[trigger] rest[j]).name != name
                    };
                assert(images[i + 1] == image);
                assert forall|j: int| 0 <= j < i + 1 implies (#[trigger] images[j]).name != name by {
                    if j > 0 {
                        assert(images[j] == rest[j - 1]);
                    }
                }
            } else {
                assert forall|i: int| 0 <= i < images.len() implies (#[trigger] images[i]).name
                    != name by {
                    if i > 0 {
                        assert(images[i] == rest[i - 1]);
                    }
                }
            }
        }
    }
}

/// The views of a list of images are those of its images, one for one and in their order.
pub proof fn law_image_views(images: Seq<Image>)
    ensures
        image_views(images).len() == images.len(),
        forall|i: int| 0 <= i < images.len() ==> #[trigger] image_views(images)[i] == images[i]@,
{
}

/// A block is seen as what it is.
pub proof fn law_block_views(address: u64, id: String)
    ensures
        Block::Absolute(address)@ == BlockView::Absolute(address),
        Block::Partition(id)@ == BlockView::Partition(id@),
        Block::Other@ == BlockView::Other,
{
}

} // verus!
