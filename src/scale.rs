//! Zoom levels: a fixed ascending table of scale factors and a transient custom one.
use vstd::prelude::*;


verus! {

/// Fixed-point unit of scale factors: `SCALE_ONE` stands for a factor of 1.
pub const SCALE_ONE: u64 = 1_000_000;

/// Number of entries of the zoom table.
pub const STEP_COUNT: usize = 35;

/// Table entry of a new zoom state (a factor of 1).
pub const DEFAULT_INDEX: usize = 14;

/// The zoom table, in units of `SCALE_ONE` (1% to 3500%).
pub open spec fn steps() -> Seq<u64> {
    seq![
        10_000u64, 20_000, 30_000, 50_000, 100_000, 150_000, 200_000, 300_000, 400_000, 500_000,
        600_000, 700_000, 800_000, 900_000, 1_000_000, 1_250_000, 1_500_000, 1_750_000,
        2_000_000, 2_500_000, 3_000_000, 3_500_000, 4_000_000, 5_000_000, 6_000_000, 7_000_000,
        8_000_000, 10_000_000, 12_000_000, 15_000_000, 18_000_000, 21_000_000, 25_000_000,
        30_000_000, 35_000_000,
    ]
}

/// Entry `i` of the zoom table.
pub fn step_value(i: usize) -> (r: u64)
    requires
        i < STEP_COUNT,
    ensures
        r == steps()[i as int],
{
    let table: [u64; 35] = [
        10_000u64, 20_000, 30_000, 50_000, 100_000, 150_000, 200_000, 300_000, 400_000, 500_000,
        600_000, 700_000, 800_000, 900_000, 1_000_000, 1_250_000, 1_500_000, 1_750_000,
        2_000_000, 2_500_000, 3_000_000, 3_500_000, 4_000_000, 5_000_000, 6_000_000, 7_000_000,
        8_000_000, 10_000_000, 12_000_000, 15_000_000, 18_000_000, 21_000_000, 25_000_000,
        30_000_000, 35_000_000,
    ];
    assert(table@ == steps());
    table[i]
}


/// Largest scale a zoom state may hold, in units of `SCALE_ONE`.
pub const MAX_SCALE: u64 = 0x1000_0000_0000_0000;

/// Index of the first table entry strictly above `c`, searching from `i`; the last
/// entry when none is.
pub open spec fn first_above(c: u64, i: int) -> int
    decreases STEP_COUNT - i,
{
    if i >= STEP_COUNT - 1 {
        STEP_COUNT - 1
    } else if steps()[i] > c {
        i
    } else {
        first_above(c, i + 1)
    }
}

/// Index of the last table entry strictly below `c`, searching down from `i`; the
/// first entry when none is.
pub open spec fn last_below(c: u64, i: int) -> int
    decreases i,
{
    if i <= 0 {
        0
    } else if steps()[i] < c {
        i
    } else {
        last_below(c, i - 1)
    }
}

/// Table index after a zoom in from `index` with the custom scale `custom`.
pub open spec fn up_index(index: int, custom: Option<u64>) -> int {
    match custom {
        Some(c) => first_above(c, 0),
        None => if index + 1 < STEP_COUNT {
            index + 1
        } else {
            index
        },
    }
}

/// Table index after a zoom out from `index` with the custom scale `custom`.
pub open spec fn down_index(index: int, custom: Option<u64>) -> int {
    match custom {
        Some(c) => last_below(c, STEP_COUNT - 1),
        None => if index > 0 {
            index - 1
        } else {
            index
        },
    }
}

/// Index of the table entry equal to `v`, if any.
pub open spec fn table_index_of(v: u64) -> Option<int> {
    if exists|i: int| 0 <= i < STEP_COUNT && steps()[i] == v {
        Some(choose|i: int| 0 <= i < STEP_COUNT && steps()[i] == v)
    } else {
        None
    }
}

/// Zoom state: a position in the zoom table, or a custom scale that overrides it.
#[derive(Clone, Copy, Debug)]
pub struct Scale {
    index: usize,
    custom: Option<u64>,
}

impl Scale {
    pub closed spec fn index_spec(&self) -> int {
        self.index as int
    }

    pub closed spec fn custom_spec(&self) -> Option<u64> {
        self.custom
    }

    /// The index is in the table and a custom scale is positive and bounded.
    pub open spec fn wf(&self) -> bool {
        &&& 0 <= self.index_spec() < STEP_COUNT
        &&& self.custom_spec() matches Some(c) ==> 0 < c <= MAX_SCALE
    }

    pub open spec fn value_spec(&self) -> u64 {
        match self.custom_spec() {
            Some(c) => c,
            None => steps()[self.index_spec()],
        }
    }

    /// A factor of 1, on the table.
    pub fn new() -> (r: Scale)
        ensures
            r.wf(),
            r.index_spec() == DEFAULT_INDEX,
            r.custom_spec() is None,
            r.value_spec() == SCALE_ONE,
    {
        Scale { index: DEFAULT_INDEX, custom: None }
    }

    /// Zooms in one step and returns the scale before. A custom scale snaps to the
    /// first table entry above it; otherwise the index moves up, stopping at the top.
    pub fn up(&mut self) -> (r: u64)
        requires
            old(self).wf(),
        ensures
            final(self).wf(),
            r == old(self).value_spec(),
            final(self).index_spec() == up_index(old(self).index_spec(), old(self).custom_spec()),
            final(self).custom_spec() is None,
    {
        let prev = self.value();
        match self.custom {
            Some(c) => {
                self.index = Self::snap_up(c);
                self.custom = None;
            },
            None => {
                if self.index + 1 < STEP_COUNT {
                    self.index = self.index + 1;
                }
            },
        }
        prev
    }

    /// Zooms out one step and returns the scale before. A custom scale snaps to the
    /// last table entry below it; otherwise the index moves down, stopping at the bottom.
    pub fn down(&mut self) -> (r: u64)
        requires
            old(self).wf(),
        ensures
            final(self).wf(),
            r == old(self).value_spec(),
            final(self).index_spec() == down_index(
                old(self).index_spec(),
                old(self).custom_spec(),
            ),
            final(self).custom_spec() is None,
    {
        let prev = self.value();
        match self.custom {
            Some(c) => {
                self.index = Self::snap_down(c);
                self.custom = None;
            },
            None => {
                if self.index > 0 {
                    self.index = self.index - 1;
                }
            },
        }
        prev
    }

    /// Sets the custom scale that fits an `image_w` x `image_h` image into a
    /// `view_w` x `view_h` viewport: `min(view_w / image_w, view_h / image_h)`,
    /// rounded down to a unit of `SCALE_ONE`.
    pub fn fit(&mut self, image_w: u64, image_h: u64, view_w: u64, view_h: u64)
        requires
            old(self).wf(),
            image_w > 0,
            image_h > 0,
            image_w <= view_w * SCALE_ONE <= MAX_SCALE,
            image_h <= view_h * SCALE_ONE <= MAX_SCALE,
        ensures
            final(self).wf(),
            final(self).index_spec() == old(self).index_spec(),
            final(self).custom_spec() == Some(
                fit_scale(image_w as int, image_h as int, view_w as int, view_h as int) as u64,
            ),
    {
        let sx = view_w * SCALE_ONE / image_w;
        let sy = view_h * SCALE_ONE / image_h;
        assert(sx >= 1 && sy >= 1) by (nonlinear_arith)
            requires
                image_w <= view_w * SCALE_ONE,
                image_h <= view_h * SCALE_ONE,
                image_w > 0,
                image_h > 0,
                sx == view_w * SCALE_ONE / (image_w as int),
                sy == view_h * SCALE_ONE / (image_h as int),
        ;
        assert(sx <= view_w * SCALE_ONE) by (nonlinear_arith)
            requires
                image_w >= 1,
                sx == view_w * SCALE_ONE / (image_w as int),
        ;
        self.custom = Some(
            if sx <= sy {
                sx
            } else {
                sy
            },
        );
    }

    /// Sets an absolute scale: a table entry equal to `scale` (to the unit of
    /// `SCALE_ONE`, a millionth) becomes the position and clears the custom scale;
    /// any other value becomes the custom scale.
    pub fn custom(&mut self, scale: u64)
        requires
            old(self).wf(),
            0 < scale <= MAX_SCALE,
        ensures
            final(self).wf(),
            final(self).value_spec() == scale,
            match table_index_of(scale) {
                Some(i) => final(self).index_spec() == i && final(self).custom_spec() is None,
                None => final(self).index_spec() == old(self).index_spec()
                    && final(self).custom_spec() == Some(scale),
            },
    {
        let mut i: usize = 0;
        while i < STEP_COUNT
            invariant
                0 <= i <= STEP_COUNT,
                *self == *old(self),
                old(self).wf(),
                0 < scale <= MAX_SCALE,
                forall|j: int| 0 <= j < i ==> steps()[j] != scale,
            decreases STEP_COUNT - i,
        {
            if step_value(i) == scale {
                proof {
                    lemma_steps_ascending();
                    assert(table_index_of(scale) == Some(i as int));
                }
                self.index = i;
                self.custom = None;
                return;
            }
            i = i + 1;
        }
        assert(!exists|j: int| 0 <= j < STEP_COUNT && steps()[j] == scale);
        self.custom = Some(scale);
    }

    /// A well-formed zoom state has a positive, bounded scale.
    pub proof fn lemma_value_bounds(&self)
        requires
            self.wf(),
        ensures
            0 < self.value_spec() <= MAX_SCALE,
    {
        lemma_steps_ascending();
        assert(steps()[0] > 0);
        assert(steps()[STEP_COUNT - 1] <= MAX_SCALE);
        if self.custom_spec() is None {
            if self.index_spec() > 0 {
                assert(steps()[0] < steps()[self.index_spec()]);
            }
            if self.index_spec() < STEP_COUNT - 1 {
                assert(steps()[self.index_spec()] < steps()[STEP_COUNT - 1]);
            }
        }
    }

    /// The current scale: the custom one when set, else the table entry.
    pub fn value(&self) -> (r: u64)
        requires
            self.wf(),
        ensures
            r == self.value_spec(),
    {
        match self.custom {
            Some(c) => c,
            None => step_value(self.index),
        }
    }

    fn snap_up(c: u64) -> (r: usize)
        ensures
            r == first_above(c, 0),
            r < STEP_COUNT,
    {
        let mut i: usize = 0;
        while i < STEP_COUNT - 1
            invariant
                0 <= i <= STEP_COUNT - 1,
                first_above(c, 0) == first_above(c, i as int),
            decreases STEP_COUNT - i,
        {
            if step_value(i) > c {
                return i;
            }
            i = i + 1;
        }
        i
    }

    fn snap_down(c: u64) -> (r: usize)
        ensures
            r == last_below(c, STEP_COUNT - 1),
            r < STEP_COUNT,
    {
        let mut i: usize = STEP_COUNT - 1;
        while i > 0
            invariant
                0 <= i <= STEP_COUNT - 1,
                last_below(c, STEP_COUNT - 1) == last_below(c, i as int),
            decreases i,
        {
            if step_value(i) < c {
                return i;
            }
            i = i - 1;
        }
        i
    }
}

/// `min(view_w / image_w, view_h / image_h)` in units of `SCALE_ONE`, rounded down.
pub open spec fn fit_scale(image_w: int, image_h: int, view_w: int, view_h: int) -> int {
    let sx = view_w * SCALE_ONE / image_w;
    let sy = view_h * SCALE_ONE / image_h;
    if sx <= sy {
        sx
    } else {
        sy
    }
}

/// The zoom table is strictly ascending.
pub proof fn lemma_steps_ascending()
    ensures
        steps().len() == STEP_COUNT,
        forall|i: int, j: int| 0 <= i < j < STEP_COUNT ==> steps()[i] < steps()[j],
{
    assert(forall|i: int| 0 <= i < STEP_COUNT - 1 ==> #[trigger] steps()[i] < steps()[i + 1]);
    assert forall|i: int, j: int| 0 <= i < j < STEP_COUNT implies steps()[i] < steps()[j] by {
        lemma_ascending_from(i, j);
    }
}

proof fn lemma_ascending_from(i: int, j: int)
    requires
        0 <= i < j < STEP_COUNT,
        forall|k: int| 0 <= k < STEP_COUNT - 1 ==> #[trigger] steps()[k] < steps()[k + 1],
    ensures
        steps()[i] < steps()[j],
    decreases j - i,
{
    if j > i + 1 {
        lemma_ascending_from(i, j - 1);
    }
}

/// Zooming in from a custom scale `c` lands on the smallest table entry above `c`,
/// or on the largest entry when none is above.
pub proof fn lemma_snap_up_is_next_above(c: u64)
    ensures
        0 <= first_above(c, 0) < STEP_COUNT,
        forall|j: int| 0 <= j < first_above(c, 0) ==> steps()[j] <= c,
        first_above(c, 0) < STEP_COUNT - 1 ==> steps()[first_above(c, 0)] > c,
        first_above(c, 0) == STEP_COUNT - 1 ==> steps()[STEP_COUNT - 2] <= c,
{
    lemma_first_above_from(c, 0);
}

proof fn lemma_first_above_from(c: u64, i: int)
    requires
        0 <= i < STEP_COUNT,
    ensures
        i <= first_above(c, i) < STEP_COUNT,
        forall|j: int| i <= j < first_above(c, i) ==> steps()[j] <= c,
        first_above(c, i) < STEP_COUNT - 1 ==> steps()[first_above(c, i)] > c,
    decreases STEP_COUNT - i,
{
    if i < STEP_COUNT - 1 && steps()[i] <= c {
        lemma_first_above_from(c, i + 1);
    }
}

/// Zooming out from a custom scale `c` lands on the largest table entry below `c`,
/// or on the smallest entry when none is below.
pub proof fn lemma_snap_down_is_next_below(c: u64)
    ensures
        0 <= last_below(c, STEP_COUNT - 1) < STEP_COUNT,
        forall|j: int| last_below(c, STEP_COUNT - 1) < j < STEP_COUNT ==> steps()[j] >= c,
        last_below(c, STEP_COUNT - 1) > 0 ==> steps()[last_below(c, STEP_COUNT - 1)] < c,
{
    lemma_last_below_from(c, STEP_COUNT - 1);
}

proof fn lemma_last_below_from(c: u64, i: int)
    requires
        0 <= i < STEP_COUNT,
    ensures
        0 <= last_below(c, i) <= i,
        forall|j: int| last_below(c, i) < j <= i ==> steps()[j] >= c,
        last_below(c, i) > 0 ==> steps()[last_below(c, i)] < c,
    decreases i,
{
    if i > 0 && steps()[i] >= c {
        lemma_last_below_from(c, i - 1);
    }
}

/// Table index after `k` zoom-in steps from table index `index`.
pub open spec fn up_steps(index: int, k: nat) -> int
    decreases k,
{
    if k == 0 {
        index
    } else {
        up_index(up_steps(index, (k - 1) as nat), None)
    }
}

/// Table index after `k` zoom-out steps from table index `index`.
pub open spec fn down_steps(index: int, k: nat) -> int
    decreases k,
{
    if k == 0 {
        index
    } else {
        down_index(down_steps(index, (k - 1) as nat), None)
    }
}

/// Zooming in repeatedly from a table entry raises the scale at every step until
/// the largest entry is reached, and then keeps it there.
pub proof fn lemma_zoom_in_climbs(index: int, k: nat)
    requires
        0 <= index < STEP_COUNT,
    ensures
        up_steps(index, k) == if index + k < STEP_COUNT {
            index + k
        } else {
            STEP_COUNT - 1
        },
        up_steps(index, k) < STEP_COUNT - 1 ==> steps()[up_steps(index, k + 1)] > steps()[up_steps(
            index,
            k,
        )],
        up_steps(index, k) == STEP_COUNT - 1 ==> up_steps(index, k + 1) == STEP_COUNT - 1,
    decreases k,
{
    if k > 0 {
        lemma_zoom_in_climbs(index, (k - 1) as nat);
    }
    lemma_steps_ascending();
}

/// Zooming out repeatedly from a table entry lowers the scale at every step until
/// the smallest entry is reached, and then keeps it there.
pub proof fn lemma_zoom_out_descends(index: int, k: nat)
    requires
        0 <= index < STEP_COUNT,
    ensures
        down_steps(index, k) == if index - k >= 0 {
            index - k
        } else {
            0
        },
        down_steps(index, k) > 0 ==> steps()[down_steps(index, k + 1)] < steps()[down_steps(
            index,
            k,
        )],
        down_steps(index, k) == 0 ==> down_steps(index, k + 1) == 0,
    decreases k,
{
    if k > 0 {
        lemma_zoom_out_descends(index, (k - 1) as nat);
    }
    lemma_steps_ascending();
}


pub open spec fn is_digit(c: char) -> bool {
    '0' <= c && c <= '9'
}

/// Value of a string of ASCII digits.
pub open spec fn digits_value(s: Seq<char>) -> int
    decreases s.len(),
{
    if s.len() == 0 {
        0
    } else {
        digits_value(s.drop_last()) * 10 + (s.last() as int - '0' as int)
    }
}

/// `s` without one leading `'+'`.
pub open spec fn unsigned_part(s: Seq<char>) -> Seq<char> {
    if s.len() > 0 && s[0] == '+' {
        s.drop_first()
    } else {
        s
    }
}

pub open spec fn all_digits(d: Seq<char>) -> bool {
    forall|i: int| 0 <= i < d.len() ==> is_digit(#[trigger] d[i])
}

/// What `str::parse::<u32>` reads from `s`: an optional `'+'`, then one or more
/// ASCII digits whose value fits in a `u32`.
pub open spec fn parsed_u32(s: Seq<char>) -> Option<u32> {
    let d = unsigned_part(s);
    if d.len() > 0 && all_digits(d) && digits_value(d) <= u32::MAX {
        Some(digits_value(d) as u32)
    } else {
        None
    }
}

proof fn lemma_digits_value_grows(s: Seq<char>)
    requires
        forall|i: int| 0 <= i < s.len() ==> is_digit(#[trigger] s[i]),
    ensures
        digits_value(s) >= 0,
    decreases s.len(),
{
    if s.len() > 0 {
        lemma_digits_value_grows(s.drop_last());
    }
}

/// Reads a percentage typed by the user: a positive whole number, as
/// `str::parse::<u32>` accepts it, becomes that percentage as a scale in units of
/// `SCALE_ONE`; anything else is `None`.
pub fn percent_scale(text: &str) -> (r: Option<u64>)
    ensures
        match parsed_u32(text@) {
            Some(p) => if p > 0 {
                r == Some((p * (SCALE_ONE / 100)) as u64)
            } else {
                r is None
            },
            None => r is None,
        },
{
    let chars = crate::gallery::chars_of(text);
    let start: usize = if chars.len() > 0 && chars[0] == '+' {
        1
    } else {
        0
    };
    let ghost d = chars@.subrange(start as int, chars@.len() as int);
    assert(d == unsigned_part(text@));
    if start >= chars.len() {
        return None;
    }
    let mut value: u64 = 0;
    let mut i: usize = start;
    while i < chars.len()
        invariant
            start <= i <= chars@.len(),
            d == chars@.subrange(start as int, chars@.len() as int),
            d == unsigned_part(text@),
            forall|j: int| start <= j < i ==> is_digit(#[trigger] chars@[j]),
            value == digits_value(chars@.subrange(start as int, i as int)),
            value <= u32::MAX,
        decreases chars@.len() - i,
    {
        let c = chars[i];
        if !('0' <= c && c <= '9') {
            proof {
                assert(!is_digit(d[i - start]));
                assert(!all_digits(d));
            }
            return None;
        }
        proof {
            assert(chars@.subrange(start as int, i + 1).drop_last() == chars@.subrange(
                start as int,
                i as int,
            ));
        }
        value = value * 10 + (c as u64 - '0' as u64);
        if value > u32::MAX as u64 {
            proof {
                let pre = chars@.subrange(start as int, i + 1);
                assert forall|j: int| 0 <= j < pre.len() implies is_digit(#[trigger] pre[j]) by {
                    assert(pre[j] == chars@[start + j]);
                }
                assert(d.subrange(0, (i + 1 - start) as int) == pre);
                if all_digits(d) {
                    lemma_digits_value_prefix(d, (i + 1 - start) as int);
                }
            }
            return None;
        }
        i = i + 1;
    }
    assert(chars@.subrange(start as int, i as int) == d);
    assert forall|j: int| 0 <= j < d.len() implies is_digit(#[trigger] d[j]) by {
        assert(d[j] == chars@[start + j]);
    }
    assert(all_digits(d));
    if value == 0 {
        return None;
    }
    Some(value * (SCALE_ONE / 100))
}

/// A numeral is worth at least any of its prefixes.
proof fn lemma_digits_value_prefix(s: Seq<char>, k: int)
    requires
        0 <= k <= s.len(),
        forall|i: int| 0 <= i < s.len() ==> is_digit(#[trigger] s[i]),
    ensures
        digits_value(s.subrange(0, k)) <= digits_value(s),
    decreases s.len() - k,
{
    if k < s.len() {
        lemma_digits_value_prefix(s, k + 1);
        let p = s.subrange(0, k + 1);
        assert(p.drop_last() == s.subrange(0, k));
        assert(is_digit(p.last()));
        assert forall|i: int| 0 <= i < s.subrange(0, k).len() implies is_digit(
            #[trigger] s.subrange(0, k)[i],
        ) by {
            assert(s.subrange(0, k)[i] == s[i]);
        }
        lemma_digits_value_grows(s.subrange(0, k));
    } else {
        assert(s.subrange(0, k) == s);
    }
}

} // verus!
