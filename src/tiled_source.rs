//! An uploaded image split into tiles, each with its own GPU resources.
use vstd::prelude::*;

use crate::error::ViewError;
use crate::media::{rgba_size, ImageData, ImageId};
use crate::scale::SCALE_ONE;
use crate::tiling::{
    covered_by_grid, lemma_tile_grid_partition, spec_tile, spec_tile_count, tile_grid, TileRect,
};

verus! {

/// One tile of a tiled source. `G` holds the GPU resources made for it at upload
/// (texture, uniform buffer, trilinear and nearest bind groups); `L` is its Lanczos
/// pyramid, absent until the whole pyramid build has finished.
pub struct Tile<G, L> {
    pub resources: G,
    pub lanczos: Option<L>,
    pub x: u32,
    pub y: u32,
    pub width: u32,
    pub height: u32,
}

impl<G, L> Tile<G, L> {
    pub open spec fn rect(&self) -> TileRect {
        TileRect { x: self.x, y: self.y, width: self.width, height: self.height }
    }
}

/// An image split into tiles that exactly cover it, in row-major order.
pub struct TiledSource<G, L> {
    pub tiles: Vec<Tile<G, L>>,
    pub image_id: ImageId,
    pub full_width: u32,
    pub full_height: u32,
    /// Last zoom times device pixel ratio, in units of `SCALE_ONE`.
    pub physical_scale: u64,
}

/// The check every upload makes: the buffer must hold `width * height * 4` bytes.
pub open spec fn upload_check(image: ImageData) -> Result<(), ViewError> {
    if image.pixels@.len() < rgba_size(image.width, image.height) {
        Err(
            ViewError::ImageDataMismatch {
                expected: rgba_size(image.width, image.height) as usize,
                actual: image.pixels@.len() as usize,
            },
        )
    } else {
        Ok(())
    }
}

/// The tile grid of `image` for a device whose textures have at most `max_dim` pixels
/// per side.
pub open spec fn tiles_of(image: ImageData, max_dim: u32) -> Seq<TileRect> {
    Seq::new(
        spec_tile_count(image.width, image.height, max_dim) as nat,
        |i: int| spec_tile(image.width, image.height, max_dim, i),
    )
}

/// Limit of the machine on an upload: the byte size fits in `usize`.
pub open spec fn upload_fits(image: ImageData) -> bool {
    rgba_size(image.width, image.height) <= usize::MAX
}

impl<G, L> TiledSource<G, L> {
    /// Checks the pixel buffer of `image` and, when it is long enough, returns the
    /// rectangles of the tiles to create, in order.
    pub fn plan(image: &ImageData, max_dim: u32) -> (r: Result<Vec<TileRect>, ViewError>)
        requires
            max_dim >= 1,
            upload_fits(*image),
        ensures
            match upload_check(*image) {
                Err(e) => r == Err::<Vec<TileRect>, ViewError>(e),
                Ok(()) => r is Ok && r->Ok_0@ == tiles_of(*image, max_dim),
            },
    {
        let expected = image.size_bytes();
        if image.pixels.len() < expected {
            return Err(ViewError::ImageDataMismatch { expected, actual: image.pixels.len() });
        }
        let rects = tile_grid(image.width, image.height, max_dim);
        assert(rects@ =~= tiles_of(*image, max_dim));
        Ok(rects)
    }

    /// Builds the source of `image` from the resources made for each planned tile.
    /// No tile has a Lanczos pyramid yet; the physical scale starts at 1.
    pub fn new(image: &ImageData, max_dim: u32, resources: Vec<G>) -> (r: Result<
        Self,
        ViewError,
    >)
        requires
            max_dim >= 1,
            upload_fits(*image),
            upload_check(*image) is Ok ==> resources@.len() == spec_tile_count(
                image.width,
                image.height,
                max_dim,
            ),
        ensures
            match upload_check(*image) {
                Err(e) => r is Err && r->Err_0 == e,
                Ok(()) => r is Ok && r->Ok_0.wf() && r->Ok_0.image_id == image.id
                    && r->Ok_0.full_width == image.width && r->Ok_0.full_height
                    == image.height && r->Ok_0.physical_scale == SCALE_ONE
                    && r->Ok_0.rects() == tiles_of(*image, max_dim) && r->Ok_0.resources()
                    == resources@ && r->Ok_0.no_lanczos(),
            },
    {
        let rects = match Self::plan(image, max_dim) {
            Ok(v) => v,
            Err(e) => {
                return Err(e);
            },
        };
        let mut tiles: Vec<Tile<G, L>> = Vec::new();
        let mut rest = resources;
        let ghost all = rest@;
        // Resources are taken from the back; the tiles are built back to front.
        let mut k: usize = rects.len();
        while k > 0
            invariant
                k <= rects@.len(),
                rects@.len() == all.len(),
                rest@ == all.subrange(0, k as int),
                tiles@.len() == rects@.len() - k,
                forall|j: int|
                    0 <= j < tiles@.len() ==> {
                        let t = #[trigger] tiles@[j];
                        &&& t.rect() == rects@[rects@.len() - 1 - j]
                        &&& t.resources == all[rects@.len() - 1 - j]
                        &&& t.lanczos is None
                    },
            decreases k,
        {
            k = k - 1;
            let g = rest.pop().unwrap();
            let rect = rects[k];
            tiles.push(
                Tile {
                    resources: g,
                    lanczos: None,
                    x: rect.x,
                    y: rect.y,
                    width: rect.width,
                    height: rect.height,
                },
            );
        }
        let ordered = reversed(tiles);
        let r = TiledSource {
            tiles: ordered,
            image_id: image.id,
            full_width: image.width,
            full_height: image.height,
            physical_scale: SCALE_ONE,
        };
        assert(r.rects() =~= tiles_of(*image, max_dim));
        assert(r.resources() =~= resources@);
        assert forall|i: int| 0 <= i < r.tiles@.len() implies r.tiles@[i].rect() == spec_tile(
            image.width,
            image.height,
            max_dim,
            i,
        ) by {
            assert(r.rects()[i] == r.tiles@[i].rect());
        }
        assert(spec_tile_count(r.full_width, r.full_height, max_dim) == r.tiles@.len());
        assert(r.no_lanczos());
        Ok(r)
    }

    pub open spec fn rects(&self) -> Seq<TileRect> {
        self.tiles@.map_values(|t: Tile<G, L>| t.rect())
    }

    pub open spec fn resources(&self) -> Seq<G> {
        self.tiles@.map_values(|t: Tile<G, L>| t.resources)
    }

    pub open spec fn lanczos_view(&self) -> Seq<Option<L>> {
        self.tiles@.map_values(|t: Tile<G, L>| t.lanczos)
    }

    /// The tiles exactly cover the image: they are its tile grid for some texture limit.
    pub open spec fn wf(&self) -> bool {
        exists|m: u32|
            m >= 1 && #[trigger] spec_tile_count(self.full_width, self.full_height, m)
                == self.tiles@.len() && forall|i: int|
                0 <= i < self.tiles@.len() ==> self.tiles@[i].rect() == spec_tile(
                    self.full_width,
                    self.full_height,
                    m,
                    i,
                )
    }

    pub open spec fn no_lanczos(&self) -> bool {
        forall|i: int| 0 <= i < self.tiles@.len() ==> #[trigger] self.tiles@[i].lanczos is None
    }

    pub open spec fn all_lanczos(&self) -> bool {
        forall|i: int| 0 <= i < self.tiles@.len() ==> #[trigger] self.tiles@[i].lanczos is Some
    }

    /// Every tile has its Lanczos pyramid.
    pub fn lanczos_all_ready(&self) -> (r: bool)
        ensures
            r == self.all_lanczos(),
    {
        let mut i: usize = 0;
        while i < self.tiles.len()
            invariant
                i <= self.tiles@.len(),
                forall|j: int| 0 <= j < i ==> #[trigger] self.tiles@[j].lanczos is Some,
            decreases self.tiles@.len() - i,
        {
            if self.tiles[i].lanczos.is_none() {
                return false;
            }
            i = i + 1;
        }
        true
    }

    pub fn tile_count(&self) -> (r: usize)
        ensures
            r == self.tiles@.len(),
    {
        self.tiles.len()
    }
}

/// The elements of `v` in the opposite order.
fn reversed<T>(v: Vec<T>) -> (r: Vec<T>)
    ensures
        r@.len() == v@.len(),
        forall|i: int| 0 <= i < v@.len() ==> r@[i] == v@[v@.len() - 1 - i],
{
    let ghost orig = v@;
    let mut rest = v;
    let mut out: Vec<T> = Vec::new();
    while rest.len() > 0
        invariant
            rest@ == orig.subrange(0, rest@.len() as int),
            out@.len() == orig.len() - rest@.len(),
            forall|i: int| 0 <= i < out@.len() ==> out@[i] == orig[orig.len() - 1 - i],
        decreases rest@.len(),
    {
        let x = rest.pop().unwrap();
        out.push(x);
    }
    out
}

/// Some tile of `tiles` holds pixel `(px, py)`.
pub open spec fn covered_by(tiles: Seq<TileRect>, px: int, py: int) -> bool {
    exists|i: int| 0 <= i < tiles.len() && #[trigger] tiles[i].contains(px, py)
}

/// The tiles an upload makes (those of `TiledSource::new` and `plan`) exactly
/// partition the image: each lies inside it, is non-empty and at most `max_dim`
/// pixels per side; every pixel lies in some tile; no two tiles share a pixel.
pub proof fn lemma_upload_tiles_partition(image: ImageData, max_dim: u32)
    requires
        max_dim >= 1,
    ensures
        forall|i: int|
            0 <= i < tiles_of(image, max_dim).len() ==> {
                let t = #[trigger] tiles_of(image, max_dim)[i];
                &&& 1 <= t.width <= max_dim
                &&& 1 <= t.height <= max_dim
                &&& t.x + t.width <= image.width
                &&& t.y + t.height <= image.height
            },
        forall|px: int, py: int|
            0 <= px < image.width && 0 <= py < image.height ==> #[trigger] covered_by(
                tiles_of(image, max_dim),
                px,
                py,
            ),
        forall|i: int, j: int|
            0 <= i < tiles_of(image, max_dim).len() && 0 <= j < tiles_of(image, max_dim).len()
                && i != j ==> #[trigger] tiles_of(image, max_dim)[i].disjoint(
                #[trigger] tiles_of(image, max_dim)[j],
            ),
{
    let ts = tiles_of(image, max_dim);
    lemma_tile_grid_partition(image.width, image.height, max_dim);
    assert forall|i: int| 0 <= i < ts.len() implies #[trigger] ts[i] == spec_tile(
        image.width,
        image.height,
        max_dim,
        i,
    ) by {}
    assert forall|px: int, py: int|
        0 <= px < image.width && 0 <= py < image.height implies #[trigger] covered_by(
        ts,
        px,
        py,
    ) by {
        assert(covered_by_grid(image.width, image.height, max_dim, px, py));
        let i = choose|i: int|
            0 <= i < spec_tile_count(image.width, image.height, max_dim) && #[trigger] spec_tile(
                image.width,
                image.height,
                max_dim,
                i,
            ).contains(px, py);
        assert(ts[i].contains(px, py));
    }
}

} // verus!
