//! Resumable construction of the Lanczos pyramids of a tiled source, one tile per step.
use vstd::prelude::*;

use crate::tiled_source::TiledSource;

verus! {

/// Progress of a Lanczos pyramid build. Each step stores the pyramid of tile
/// `next_tile`; the pyramids reach the source's tiles only together, once the last
/// one is built.
pub struct LanczosBuildState<L> {
    results: Vec<Option<L>>,
    next_tile: usize,
}

impl<L> LanczosBuildState<L> {
    pub closed spec fn next_spec(&self) -> int {
        self.next_tile as int
    }

    pub closed spec fn count_spec(&self) -> int {
        self.results@.len() as int
    }

    pub closed spec fn results_view(&self) -> Seq<Option<L>> {
        self.results@
    }

    /// While the build runs, the slots below the cursor are filled and the others
    /// empty; once it is done, the slots have been handed to the source.
    pub open spec fn wf(&self) -> bool {
        &&& 0 <= self.next_spec() <= self.count_spec()
        &&& self.results_view().len() == self.count_spec()
        &&& self.next_spec() < self.count_spec() ==> forall|i: int|
            0 <= i < self.count_spec() ==> (#[trigger] self.results_view()[i] is Some <==> i
                < self.next_spec())
    }

    pub open spec fn done_spec(&self) -> bool {
        self.next_spec() >= self.count_spec()
    }

    /// A build over `tile_count` tiles that has not started.
    pub fn new(tile_count: usize) -> (r: Self)
        ensures
            r.wf(),
            r.next_spec() == 0,
            r.count_spec() == tile_count,
    {
        let mut results: Vec<Option<L>> = Vec::new();
        let mut i: usize = 0;
        while i < tile_count
            invariant
                i <= tile_count,
                results@.len() == i,
                forall|j: int| 0 <= j < i ==> #[trigger] results@[j] is None,
            decreases tile_count - i,
        {
            results.push(None);
            i = i + 1;
        }
        LanczosBuildState { results, next_tile: 0 }
    }

    pub fn is_done(&self) -> (r: bool)
        ensures
            r == self.done_spec(),
    {
        self.next_tile >= self.results.len()
    }

    /// The tile whose pyramid the next step builds, or `None` once all are built.
    pub fn next_tile(&self) -> (r: Option<usize>)
        requires
            self.wf(),
        ensures
            self.done_spec() ==> r is None,
            !self.done_spec() ==> r == Some(self.next_spec() as usize),
    {
        if self.next_tile >= self.results.len() {
            None
        } else {
            Some(self.next_tile)
        }
    }

    /// What a step does: see `step`.
    pub open spec fn step_post<G>(
        before: Self,
        after: Self,
        src_before: TiledSource<G, L>,
        src_after: TiledSource<G, L>,
        built: L,
        r: bool,
    ) -> bool {
        &&& after.wf()
        &&& after.count_spec() == before.count_spec()
        &&& r == after.done_spec()
        &&& before.done_spec() ==> after == before && src_after == src_before
        &&& !before.done_spec() ==> after.next_spec() == before.next_spec() + 1
        &&& !after.done_spec() ==> {
            &&& src_after == src_before
            &&& after.results_view() == before.results_view().update(
                before.next_spec(),
                Some(built),
            )
        }
        &&& !before.done_spec() && after.done_spec() ==> {
            &&& src_after.tiles@.len() == src_before.tiles@.len()
            &&& src_after.all_lanczos()
            &&& src_after.lanczos_view()[before.next_spec()] == Some(built)
            &&& forall|i: int|
                0 <= i < before.next_spec() ==> src_after.lanczos_view()[i]
                    == before.results_view()[i]
            &&& src_after.image_id == src_before.image_id
            &&& src_after.full_width == src_before.full_width
            &&& src_after.full_height == src_before.full_height
            &&& src_after.physical_scale == src_before.physical_scale
            &&& forall|i: int|
                0 <= i < src_before.tiles@.len() ==> {
                    &&& (#[trigger] src_after.tiles@[i]).resources
                        == src_before.tiles@[i].resources
                    &&& src_after.tiles@[i].rect() == src_before.tiles@[i].rect()
                }
        }
    }

    /// Records `built`, the pyramid of tile `next_tile`, and advances the cursor.
    /// When that was the last tile, every stored pyramid is moved into its tile of
    /// `source` and `true` is returned; before that `source` is left untouched.
    /// A build that is already done returns `true` and changes nothing.
    pub fn step<G>(&mut self, source: &mut TiledSource<G, L>, built: L) -> (r: bool)
        requires
            old(self).wf(),
            old(self).count_spec() == old(source).tiles@.len(),
        ensures
            Self::step_post(*old(self), *final(self), *old(source), *final(source), built, r),
    {
        if self.next_tile >= self.results.len() {
            return true;
        }
        let idx = self.next_tile;
        self.results.set(idx, Some(built));
        self.next_tile = idx + 1;
        if self.next_tile < self.results.len() {
            return false;
        }
        let ghost filled = self.results@;
        let ghost before = *source;
        let n = source.tiles.len();
        let mut i: usize = 0;
        while i < n
            invariant
                n == source.tiles@.len(),
                n == filled.len(),
                self.results@.len() == n,
                self.next_tile == n,
                i <= n,
                forall|j: int| 0 <= j < n ==> #[trigger] filled[j] is Some,
                forall|j: int| i <= j < n ==> #[trigger] self.results@[j] == filled[j],
                forall|j: int| 0 <= j < i ==> #[trigger] self.results@[j] is None,
                forall|j: int| 0 <= j < i ==> #[trigger] source.tiles@[j].lanczos == filled[j],
                forall|j: int|
                    i <= j < n ==> #[trigger] source.tiles@[j].lanczos == before.tiles@[j].lanczos,
                forall|j: int|
                    0 <= j < n ==> {
                        &&& (#[trigger] source.tiles@[j]).resources == before.tiles@[j].resources
                        &&& source.tiles@[j].rect() == before.tiles@[j].rect()
                    },
                source.image_id == before.image_id,
                source.full_width == before.full_width,
                source.full_height == before.full_height,
                source.physical_scale == before.physical_scale,
            decreases n - i,
        {
            let slot = self.results[i].take();
            source.tiles[i].lanczos = slot;
            i = i + 1;
        }
        assert(source.lanczos_view()[idx as int] == Some(built));
        true
    }
}

/// After `k < n` steps of such a build, the cursor is at `k`, the first `k` slots
/// hold what was handed in, and the source is unchanged.
proof fn lemma_build_prefix<G, L>(
    states: Seq<LanczosBuildState<L>>,
    sources: Seq<TiledSource<G, L>>,
    built: Seq<L>,
    results: Seq<bool>,
    k: int,
)
    requires
        built.len() >= 1,
        0 <= k < built.len(),
        states.len() == built.len() + 1,
        sources.len() == built.len() + 1,
        results.len() == built.len(),
        states[0].wf(),
        states[0].next_spec() == 0,
        states[0].count_spec() == built.len(),
        forall|i: int|
            0 <= i < built.len() ==> #[trigger] LanczosBuildState::step_post(
                states[i],
                states[i + 1],
                sources[i],
                sources[i + 1],
                built[i],
                results[i],
            ),
    ensures
        states[k].next_spec() == k,
        states[k].count_spec() == built.len(),
        sources[k] == sources[0],
        forall|j: int| 0 <= j < k ==> !#[trigger] results[j],
        forall|j: int|
            0 <= j < built.len() ==> (#[trigger] states[k].results_view()[j] == if j < k {
                Some(built[j])
            } else {
                None
            }),
    decreases k,
{
    if k > 0 {
        lemma_build_prefix(states, sources, built, results, k - 1);
        let i = k - 1;
        assert(LanczosBuildState::step_post(
            states[i],
            states[i + 1],
            sources[i],
            sources[i + 1],
            built[i],
            results[i],
        ));
    }
}

/// A build started over the `n` tiles of a source without pyramids and stepped `n`
/// times, step `i` handing in `built[i]`: every step before the last returns `false`
/// and leaves the source as it was, so no tile has a pyramid before the last step;
/// the last step returns `true`, the build is done, and tile `i` then holds `built[i]`.
pub proof fn lemma_build_completes_atomically<G, L>(
    states: Seq<LanczosBuildState<L>>,
    sources: Seq<TiledSource<G, L>>,
    built: Seq<L>,
    results: Seq<bool>,
)
    requires
        built.len() >= 1,
        states.len() == built.len() + 1,
        sources.len() == built.len() + 1,
        results.len() == built.len(),
        states[0].wf(),
        states[0].next_spec() == 0,
        states[0].count_spec() == built.len(),
        sources[0].tiles@.len() == built.len(),
        sources[0].no_lanczos(),
        forall|i: int|
            0 <= i < built.len() ==> #[trigger] LanczosBuildState::step_post(
                states[i],
                states[i + 1],
                sources[i],
                sources[i + 1],
                built[i],
                results[i],
            ),
    ensures
        forall|k: int| 0 <= k < built.len() ==> #[trigger] sources[k].no_lanczos(),
        forall|k: int| 0 <= k < built.len() - 1 ==> !#[trigger] results[k],
        results[built.len() - 1],
        states[built.len() as int].done_spec(),
        sources[built.len() as int].all_lanczos(),
        sources[built.len() as int].lanczos_view() == built.map_values(|b: L| Some(b)),
{
    let n = built.len() as int;
    lemma_build_prefix(states, sources, built, results, n - 1);
    assert forall|k: int| 0 <= k < n implies #[trigger] sources[k].no_lanczos() by {
        lemma_build_prefix(states, sources, built, results, k);
    }
    assert forall|k: int| 0 <= k < n - 1 implies !#[trigger] results[k] by {
        lemma_build_prefix(states, sources, built, results, k + 1);
    }
    let i = n - 1;
    assert(LanczosBuildState::step_post(
        states[i],
        states[i + 1],
        sources[i],
        sources[i + 1],
        built[i],
        results[i],
    ));
    assert(sources[n].tiles@.len() == n);
    assert forall|j: int| 0 <= j < n implies sources[n].lanczos_view()[j] == Some(built[j]) by {
        if j < n - 1 {
            assert(states[n - 1].results_view()[j] == Some(built[j]));
        }
    }
    assert(sources[n].lanczos_view() =~= built.map_values(|b: L| Some(b)));
}

} // verus!
