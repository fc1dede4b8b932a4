//! Thread-local storage images of the loaded modules and the static TLS size they add up to.
use vstd::prelude::*;

verus! {

/// TLS image information for a loaded module.
#[derive(Debug, Clone, Copy, PartialEq, Eq, Structural)]
pub struct TlsImage {
    /// Module TLS index.
    pub module_index: u32,
    /// Alignment requirement.
    pub align: u32,
    /// Size of initialized data.
    pub image_size: u32,
    /// Total size including BSS.
    pub total_size: u32,
    /// Virtual address of the TLS initialization image.
    pub image_addr: u64,
}

impl Default for TlsImage {
    fn default() -> (r: Self)
        ensures
            r == (TlsImage { module_index: 0, align: 0, image_size: 0, total_size: 0, image_addr: 0 }),
    {
        TlsImage { module_index: 0, align: 0, image_size: 0, total_size: 0, image_addr: 0 }
    }
}

/// The sum of the total sizes of `images`.
pub open spec fn total_size_sum(images: Seq<TlsImage>) -> int
    decreases images.len(),
{
    if images.len() == 0 {
        0
    } else {
        total_size_sum(images.drop_last()) + images.last().total_size
    }
}

/// The TLS images of all modules.
#[derive(Debug)]
pub struct TlsManager {
    /// TLS images, in registration order.
    images: Vec<TlsImage>,
    /// Total static TLS size.
    total_static_size: usize,
}

impl TlsManager {
    /// The registered images, in registration order.
    pub closed spec fn images(&self) -> Seq<TlsImage> {
        self.images@
    }

    /// The static TLS size is the sum of the images' total sizes.
    pub closed spec fn wf(&self) -> bool {
        self.total_static_size == total_size_sum(self.images@)
    }

    /// The static TLS size so far.
    pub closed spec fn static_size(&self) -> int {
        self.total_static_size as int
    }

    pub fn new() -> (r: Self)
        ensures
            r.wf(),
            r.images() == Seq::<TlsImage>::empty(),
            r.static_size() == 0,
    {
        TlsManager { images: Vec::new(), total_static_size: 0 }
    }

    /// Registers a module's TLS image; the static TLS size grows by its total size.
    pub fn register_image(&mut self, image: TlsImage)
        requires
            old(self).wf(),
            old(self).static_size() + image.total_size <= usize::MAX,
        ensures
            final(self).wf(),
            final(self).images() == old(self).images().push(image),
            final(self).static_size() == old(self).static_size() + image.total_size,
    {
        self.total_static_size = self.total_static_size + image.total_size as usize;
        self.images.push(image);
        proof {
            assert(self.images@.drop_last() =~= old(self).images@);
        }
    }

    /// Total static TLS size across all modules.
    pub fn total_static_size(&self) -> (r: usize)
        requires
            self.wf(),
        ensures
            r == total_size_sum(self.images()),
            r == self.static_size(),
    {
        self.total_static_size
    }

    /// Number of registered TLS images.
    pub fn image_count(&self) -> (r: usize)
        ensures
            r == self.images().len(),
    {
        self.images.len()
    }
}

impl Default for TlsManager {
    fn default() -> (r: Self)
        ensures
            r.wf(),
            r.images() == Seq::<TlsImage>::empty(),
            r.static_size() == 0,
    {
        Self::new()
    }
}

} // verus!
