//! Decisions of the display pipeline: what to upload, when to build Lanczos
//! pyramids, and which sampling each tile is drawn with.
use vstd::prelude::*;

use crate::error::ViewError;
use crate::lanczos_build::LanczosBuildState;
use crate::media::{ImageData, ImageId};
use crate::scale::SCALE_ONE;
use crate::tiled_source::{tiles_of, upload_check, upload_fits, TiledSource};
use crate::tiling::spec_tile_count;

verus! {

/// How a tile is sampled when drawn.
#[derive(Clone, Copy, Debug, PartialEq, Eq, Structural)]
pub enum Sampling {
    /// Nearest neighbour on the full-resolution level: crisp pixels when magnifying.
    Nearest,
    /// The tile's Lanczos pyramid.
    Lanczos,
    /// Trilinear filtering over the hardware mip chain.
    Trilinear,
}

pub open spec fn spec_sampling(physical_scale: u64, quality: bool, lanczos_ready: bool) -> Sampling {
    if physical_scale >= SCALE_ONE {
        Sampling::Nearest
    } else if quality && lanczos_ready {
        Sampling::Lanczos
    } else {
        Sampling::Trilinear
    }
}

/// Sampling for a tile: nearest when zoomed in or at 1:1 (a physical scale of at
/// least `SCALE_ONE`); when zoomed out, the
/// Lanczos pyramid if quality mode is on and the pyramid is ready, else trilinear.
pub fn select_sampling(physical_scale: u64, quality: bool, lanczos_ready: bool) -> (r: Sampling)
    ensures
        r == spec_sampling(physical_scale, quality, lanczos_ready),
{
    if physical_scale >= SCALE_ONE {
        Sampling::Nearest
    } else if quality && lanczos_ready {
        Sampling::Lanczos
    } else {
        Sampling::Trilinear
    }
}

/// `scale * scale_factor` in units of `SCALE_ONE`, rounded down.
pub open spec fn physical(scale: u64, scale_factor: u64) -> int {
    scale * scale_factor / (SCALE_ONE as int)
}

/// The display pipeline's state: at most one tiled source and at most one Lanczos
/// build over it.
pub struct ViewPipeline<G, L> {
    source: Option<TiledSource<G, L>>,
    lanczos_build: Option<LanczosBuildState<L>>,
    lanczos_enabled: bool,
    scale_factor: u64,
}

impl<G, L> ViewPipeline<G, L> {
    pub closed spec fn source_spec(&self) -> Option<TiledSource<G, L>> {
        self.source
    }

    pub closed spec fn build_spec(&self) -> Option<LanczosBuildState<L>> {
        self.lanczos_build
    }

    pub closed spec fn lanczos_spec(&self) -> bool {
        self.lanczos_enabled
    }

    pub closed spec fn scale_factor_spec(&self) -> u64 {
        self.scale_factor
    }

    /// The source's tiles have their pyramids all or none; a running build covers
    /// exactly the tiles of the source, has not finished, and the source has no
    /// pyramids yet.
    pub open spec fn wf(&self) -> bool {
        &&& self.source_spec() matches Some(s) ==> s.no_lanczos() || s.all_lanczos()
        &&& self.build_spec() matches Some(b) ==> {
            &&& self.source_spec() matches Some(s) && {
                &&& b.count_spec() == s.tiles@.len()
                &&& s.no_lanczos()
            }
            &&& b.wf()
            &&& !b.done_spec()
        }
    }

    /// `self` follows `before` by setting quality mode to `enabled`: off drops any
    /// build; on keeps a running build, or starts one from tile 0 when the source's
    /// pyramids are not all ready; source and pixel ratio are kept.
    pub open spec fn toggled_from(&self, before: Self, enabled: bool) -> bool {
        &&& self.lanczos_spec() == enabled
        &&& self.source_spec() == before.source_spec()
        &&& self.scale_factor_spec() == before.scale_factor_spec()
        &&& !enabled ==> self.build_spec() is None
        &&& enabled && before.build_spec() is Some ==> self.build_spec() == before.build_spec()
        &&& enabled && before.build_spec() is None ==> match before.source_spec() {
            None => self.build_spec() is None,
            Some(s) => if s.all_lanczos() {
                self.build_spec() is None
            } else {
                (self.build_spec() matches Some(b) && b.next_spec() == 0 && b.count_spec()
                    == s.tiles@.len())
            },
        }
    }

    /// Nothing loaded, quality mode off, device pixel ratio 1.
    pub fn new() -> (r: Self)
        ensures
            r.wf(),
            r.source_spec() is None,
            r.build_spec() is None,
            !r.lanczos_spec(),
            r.scale_factor_spec() == SCALE_ONE,
    {
        ViewPipeline { source: None, lanczos_build: None, lanczos_enabled: false, scale_factor: SCALE_ONE }
    }

    /// A fresh build over `source`, when there is a tile to build.
    fn start_build(source: &TiledSource<G, L>) -> (r: Option<LanczosBuildState<L>>)
        ensures
            source.tiles@.len() == 0 ==> r is None,
            source.tiles@.len() > 0 ==> (r matches Some(b) && b.wf() && b.next_spec() == 0
                && b.count_spec() == source.tiles@.len()),
    {
        let n = source.tile_count();
        if n == 0 {
            None
        } else {
            Some(LanczosBuildState::new(n))
        }
    }

    /// Replaces the source by the tiles of `image`, made from `resources`, and drops
    /// any running build; with quality mode on, a new build starts. When the pixel
    /// buffer is too short, nothing changes and the error is returned.
    pub fn upload_image(&mut self, image: &ImageData, max_dim: u32, resources: Vec<G>) -> (r: Result<(), ViewError>)
        requires
            old(self).wf(),
            max_dim >= 1,
            upload_fits(*image),
            upload_check(*image) is Ok ==> resources@.len() == spec_tile_count(
                image.width,
                image.height,
                max_dim,
            ),
        ensures
            final(self).wf(),
            r == upload_check(*image),
            r is Err ==> *final(self) == *old(self),
            r is Ok ==> {
                &&& final(self).source_spec() matches Some(s) && {
                    &&& s.image_id == image.id
                    &&& s.rects() == tiles_of(*image, max_dim)
                    &&& s.resources() == resources@
                    &&& s.no_lanczos()
                }
                &&& final(self).lanczos_spec() == old(self).lanczos_spec()
                &&& final(self).scale_factor_spec() == old(self).scale_factor_spec()
                &&& (final(self).build_spec() is Some <==> old(self).lanczos_spec()
                    && tiles_of(*image, max_dim).len() > 0)
                &&& (final(self).build_spec() matches Some(b) ==> b.next_spec() == 0)
            },
    {
        let source = match TiledSource::new(image, max_dim, resources) {
            Ok(s) => s,
            Err(e) => {
                return Err(e);
            },
        };
        self.lanczos_build = None;
        if self.lanczos_enabled {
            self.lanczos_build = Self::start_build(&source);
        }
        self.source = Some(source);
        Ok(())
    }

    /// Turns quality mode on or off. Turning it off drops any running build; turning
    /// it on starts one when the source's pyramids are not all ready and none runs.
    pub fn set_lanczos_enabled(&mut self, enabled: bool)
        requires
            old(self).wf(),
        ensures
            final(self).wf(),
            final(self).toggled_from(*old(self), enabled),
    {
        self.lanczos_enabled = enabled;
        if enabled {
            if self.lanczos_build.is_none() {
                match &self.source {
                    Some(src) => {
                        if !src.lanczos_all_ready() {
                            proof {
                                lemma_some_tile_lacks_pyramid(src);
                            }
                            self.lanczos_build = Self::start_build(src);
                        }
                    },
                    None => {},
                }
            }
        } else {
            self.lanczos_build = None;
        }
    }

    /// Whether an image with identity `image_id` still has to be uploaded.
    pub fn needs_upload(&self, image_id: ImageId) -> (r: bool)
        ensures
            r == match self.source_spec() {
                Some(s) => s.image_id != image_id,
                None => true,
            },
    {
        match &self.source {
            Some(s) => s.image_id != image_id,
            None => true,
        }
    }
}

impl<G, L> ViewPipeline<G, L> {
    /// Per-frame update. Applies a change of quality mode as `set_lanczos_enabled`
    /// does, records the device pixel ratio and, on the source, the physical scale
    /// `scale * scale_factor`; returns the tile whose Lanczos pyramid is to be built
    /// in this frame, if a build runs.
    pub fn update(&mut self, scale: u64, scale_factor: u64, lanczos_enabled: bool) -> (r: Option<
        usize,
    >)
        requires
            old(self).wf(),
            physical(scale, scale_factor) <= u64::MAX,
        ensures
            final(self).wf(),
            final(self).lanczos_spec() == lanczos_enabled,
            final(self).scale_factor_spec() == scale_factor,
            lanczos_enabled != old(self).lanczos_spec() ==> exists|mid: Self|
                mid.toggled_from(*old(self), lanczos_enabled) && final(self).build_spec()
                    == mid.build_spec(),
            lanczos_enabled == old(self).lanczos_spec() ==> final(self).build_spec()
                == old(self).build_spec(),
            match (old(self).source_spec(), final(self).source_spec()) {
                (None, None) => true,
                (Some(a), Some(b)) => b.tiles == a.tiles && b.image_id == a.image_id
                    && b.full_width == a.full_width && b.full_height == a.full_height
                    && b.physical_scale == physical(scale, scale_factor),
                _ => false,
            },
            r == match final(self).build_spec() {
                Some(b) => Some(b.next_spec() as usize),
                None => None,
            },
    {
        if lanczos_enabled != self.lanczos_enabled {
            self.set_lanczos_enabled(lanczos_enabled);
        }
        let ghost mid = *self;
        self.scale_factor = scale_factor;
        let p = ((scale as u128) * (scale_factor as u128) / (SCALE_ONE as u128)) as u64;
        match self.source.as_mut() {
            Some(src) => {
                src.physical_scale = p;
            },
            None => {},
        }
        proof {
            if lanczos_enabled != old(self).lanczos_spec() {
                assert(mid.toggled_from(*old(self), lanczos_enabled));
            }
        }
        match &self.lanczos_build {
            Some(b) => b.next_tile(),
            None => None,
        }
    }

    /// Hands in `built`, the Lanczos pyramid of the tile that `update` named. When it
    /// was the last tile, every pyramid moves into its tile at once, the build ends
    /// and `true` is returned; before that the source is left untouched.
    pub fn complete_build_step(&mut self, built: L) -> (r: bool)
        requires
            old(self).wf(),
            old(self).build_spec() is Some,
        ensures
            final(self).wf(),
            final(self).lanczos_spec() == old(self).lanczos_spec(),
            final(self).scale_factor_spec() == old(self).scale_factor_spec(),
            !r ==> {
                &&& final(self).source_spec() == old(self).source_spec()
                &&& final(self).build_spec() matches Some(b)
                &&& b.next_spec() == old(self).build_spec()->0.next_spec() + 1
            },
            r ==> {
                let before = old(self).source_spec()->0;
                &&& final(self).build_spec() is None
                &&& final(self).source_spec() matches Some(s)
                &&& s.all_lanczos()
                &&& s.lanczos_view()[old(self).build_spec()->0.next_spec()] == Some(built)
                &&& s.resources() == before.resources()
                &&& s.rects() == before.rects()
                &&& s.image_id == before.image_id
            },
    {
        let mut build = self.lanczos_build.take().unwrap();
        let mut src = self.source.take().unwrap();
        let done = build.step(&mut src, built);
        proof {
            if done {
                assert(src.resources() =~= old(self).source_spec()->0.resources());
                assert(src.rects() =~= old(self).source_spec()->0.rects());
            }
        }
        self.source = Some(src);
        if !done {
            self.lanczos_build = Some(build);
        }
        done
    }

    /// Sampling for tile `i` of the source at its current physical scale.
    pub fn tile_sampling(&self, i: usize) -> (r: Sampling)
        requires
            self.source_spec() matches Some(s) && i < s.tiles@.len(),
        ensures
            r == spec_sampling(
                self.source_spec()->0.physical_scale,
                self.lanczos_spec(),
                self.source_spec()->0.tiles@[i as int].lanczos is Some,
            ),
    {
        match &self.source {
            Some(src) => select_sampling(
                src.physical_scale,
                self.lanczos_enabled,
                src.tiles[i].lanczos.is_some(),
            ),
            None => Sampling::Trilinear,
        }
    }

    /// The current source, if an image was uploaded.
    pub fn source(&self) -> (r: &Option<TiledSource<G, L>>)
        ensures
            *r == self.source_spec(),
    {
        &self.source
    }

    /// Device pixel ratio of the last update, in units of `SCALE_ONE`.
    pub fn scale_factor(&self) -> (r: u64)
        ensures
            r == self.scale_factor_spec(),
    {
        self.scale_factor
    }

    pub fn lanczos_enabled(&self) -> (r: bool)
        ensures
            r == self.lanczos_spec(),
    {
        self.lanczos_enabled
    }
}

proof fn lemma_some_tile_lacks_pyramid<G, L>(src: &TiledSource<G, L>)
    requires
        !src.all_lanczos(),
    ensures
        src.tiles@.len() > 0,
{
}

} // verus!
