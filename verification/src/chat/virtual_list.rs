//! Which part of the message list is mounted.
//!
//! Only the messages in and around the viewport are mounted. A spacer stands
//! for those before them, and one for those behind. Lengths are in the unit of
//! [`crate::chat::scroll`].

use vstd::prelude::*;

verus! {

/// Number of messages mounted above and below the visible range.
pub const VIRTUAL_OVERSCAN: usize = 20;

/// Height to assume for a message before it has been measured, in CSS pixels.
pub const INITIAL_AVERAGE_HEIGHT_PX: i64 = 120;

/// Computed mount window plus spacer sizes.
#[derive(Clone, Copy, Debug, PartialEq, Eq, Structural)]
pub struct VisibleWindow {
    /// Index of the first message that should be mounted.
    pub first: usize,
    /// Index one past the last message that should be mounted.
    pub last: usize,
    /// Height of the messages before `first`.
    pub leading_spacer: i128,
    /// Height of the messages from `last` on.
    pub trailing_spacer: i128,
}

impl VisibleWindow {
    /// Default for an empty list: no messages mounted, no spacers.
    pub fn empty() -> (res: VisibleWindow)
        ensures
            res == (VisibleWindow { first: 0, last: 0, leading_spacer: 0, trailing_spacer: 0 }),
    {
        VisibleWindow { first: 0, last: 0, leading_spacer: 0, trailing_spacer: 0 }
    }
}

/// A length that is not negative.
pub open spec fn not_negative(x: int) -> int {
    if x < 0 {
        0
    } else {
        x
    }
}

/// The height of the first `n` messages. A negative height counts as none.
pub open spec fn height_before(heights: Seq<i64>, n: int) -> int
    decreases n,
{
    if n <= 0 {
        0
    } else {
        height_before(heights, n - 1) + not_negative(heights[n - 1] as int)
    }
}

/// The first message from `i` on that ends below `top`, or the last message
/// where none does.
pub open spec fn first_below(heights: Seq<i64>, top: int, i: int) -> int
    decreases heights.len() - i,
{
    if i >= heights.len() {
        heights.len() - 1
    } else if height_before(heights, i + 1) > top {
        i
    } else {
        first_below(heights, top, i + 1)
    }
}

/// Where the message list ends above `top`.
pub open spec fn past_end(heights: Seq<i64>, top: int) -> bool {
    height_before(heights, heights.len() as int) <= top
}

/// The first message from `i` on that begins at `bottom` or below it, or the
/// length of the list. Every message is taken to begin `shift` further down.
pub open spec fn first_beyond(heights: Seq<i64>, bottom: int, shift: int, i: int) -> int
    decreases heights.len() - i,
{
    if i >= heights.len() {
        heights.len() as int
    } else if height_before(heights, i) + shift >= bottom {
        i
    } else {
        first_beyond(heights, bottom, shift, i + 1)
    }
}

/// The first visible message.
pub open spec fn raw_first(heights: Seq<i64>, top: int) -> int {
    first_below(heights, top, 0)
}

/// One past the last visible message. A viewport beyond the end of the list
/// counts from that end.
pub open spec fn raw_last(heights: Seq<i64>, top: int, bottom: int) -> int {
    let first = raw_first(heights, top);
    first_beyond(
        heights,
        bottom,
        if past_end(heights, top) {
            not_negative(heights[first] as int)
        } else {
            0
        },
        first,
    )
}

/// The mount window: the visible messages, and `overscan` more on either side
/// as far as there are.
pub open spec fn window_of(
    scroll_top: int,
    client_height: int,
    heights: Seq<i64>,
    overscan: int,
) -> (int, int) {
    let top = not_negative(scroll_top);
    let bottom = top + not_negative(client_height);
    let vf = raw_first(heights, top);
    let vl = raw_last(heights, top, bottom);
    if heights.len() == 0 {
        (0, 0)
    } else {
        (
            not_negative(vf - overscan),
            if vl + overscan < heights.len() {
                vl + overscan
            } else {
                heights.len() as int
            },
        )
    }
}

/// The height of the first messages is between nothing and what machine
/// integers allow, and grows.
proof fn lemma_height_bounds(heights: Seq<i64>, n: int)
    requires
        0 <= n <= heights.len(),
    ensures
        0 <= height_before(heights, n) <= n * 0x7fff_ffff_ffff_ffff,
        n > 0 ==> height_before(heights, n - 1) <= height_before(heights, n),
    decreases n,
{
    if n > 0 {
        lemma_height_bounds(heights, n - 1);
        assert(n * 0x7fff_ffff_ffff_ffff == (n - 1) * 0x7fff_ffff_ffff_ffff
            + 0x7fff_ffff_ffff_ffff) by (nonlinear_arith);
    }
}

proof fn lemma_height_monotone(heights: Seq<i64>, a: int, b: int)
    requires
        0 <= a <= b <= heights.len(),
    ensures
        height_before(heights, a) <= height_before(heights, b),
    decreases b,
{
    if a < b {
        lemma_height_monotone(heights, a, b - 1);
    }
}

proof fn lemma_first_below(heights: Seq<i64>, top: int, i: int)
    requires
        0 <= i < heights.len(),
    ensures
        i <= first_below(heights, top, i) < heights.len(),
    decreases heights.len() - i,
{
    if i + 1 < heights.len() {
        lemma_first_below(heights, top, i + 1);
    } else {
        reveal_with_fuel(first_below, 2);
    }
}

proof fn lemma_first_beyond(heights: Seq<i64>, bottom: int, shift: int, i: int)
    requires
        0 <= i <= heights.len(),
    ensures
        i <= first_beyond(heights, bottom, shift, i) <= heights.len(),
    decreases heights.len() - i,
{
    if i < heights.len() {
        lemma_first_beyond(heights, bottom, shift, i + 1);
    }
}

/// The height of the first `n` messages.
fn prefix_height(heights: &Vec<i64>, n: usize) -> (res: i128)
    requires
        n <= heights.len(),
    ensures
        res == height_before(heights@, n as int),
{
    let mut sum: i128 = 0;
    let mut i: usize = 0;
    while i < n
        invariant
            i <= n,
            n <= heights.len(),
            sum == height_before(heights@, i as int),
        decreases n - i,
    {
        proof {
            lemma_height_bounds(heights@, i + 1);
            assert((i + 1) * 0x7fff_ffff_ffff_ffff <= 0x1_0000_0000_0000_0000
                * 0x7fff_ffff_ffff_ffff) by (nonlinear_arith)
                requires
                    i + 1 <= 0x1_0000_0000_0000_0000,
            ;
        }
        let h: i64 = if heights[i] < 0 {
            0
        } else {
            heights[i]
        };
        sum = sum + h as i128;
        i += 1;
    }
    sum
}

/// Compute the visible window for a list of messages.
///
/// The visible region is the half-open range from `scroll_top` on of length
/// `client_height`; negative metrics count as zero.
pub fn visible_window(
    scroll_top: i64,
    client_height: i64,
    heights: &Vec<i64>,
    overscan: usize,
) -> (res: VisibleWindow)
    ensures
        (res.first as int, res.last as int) == window_of(
            scroll_top as int,
            client_height as int,
            heights@,
            overscan as int,
        ),
        res.leading_spacer == height_before(heights@, res.first as int),
        res.trailing_spacer == height_before(heights@, heights@.len() as int) - height_before(
            heights@,
            res.last as int,
        ),
{
    let total: usize = heights.len();
    if total == 0 {
        return VisibleWindow::empty();
    }
    let top: i128 = if scroll_top < 0 {
        0
    } else {
        scroll_top as i128
    };
    let bottom: i128 = top + (if client_height < 0 {
        0
    } else {
        client_height as i128
    });
    let ghost hs = heights@;
    let mut vf: usize = 0;
    let mut cumulative: i128 = 0;
    let mut found: bool = false;
    while vf < total && !found
        invariant
            vf <= total,
            total == heights.len(),
            hs == heights@,
            total > 0,
            cumulative == height_before(hs, vf as int),
            cumulative <= top,
            found ==> vf < total && height_before(hs, vf + 1) > top,
            first_below(hs, top as int, 0) == first_below(hs, top as int, vf as int),
        decreases (total - vf) + (if found { 0int } else { 1int }),
    {
        proof {
            lemma_height_bounds(hs, vf + 1);
            assert((vf + 1) * 0x7fff_ffff_ffff_ffff <= 0x1_0000_0000_0000_0000
                * 0x7fff_ffff_ffff_ffff) by (nonlinear_arith)
                requires
                    vf + 1 <= 0x1_0000_0000_0000_0000,
            ;
        }
        let h: i64 = if heights[vf] < 0 {
            0
        } else {
            heights[vf]
        };
        if cumulative + h as i128 > top {
            found = true;
        } else {
            cumulative = cumulative + h as i128;
            vf += 1;
        }
    }
    proof {
        lemma_first_below(hs, top as int, 0);
        lemma_height_bounds(hs, total as int);
    }
    if !found {
        vf = total - 1;
    }
    proof {
        assert(vf == raw_first(hs, top as int));
        if found {
            lemma_height_monotone(hs, vf + 1, total as int);
        }
        assert(past_end(hs, top as int) == !found);
    }
    let ghost shift = if found {
        0
    } else {
        not_negative(hs[vf as int] as int)
    };
    assert(cumulative == height_before(hs, vf as int) + shift);
    let mut vl: usize = vf;
    let mut running: i128 = cumulative;
    while vl < total && running < bottom
        invariant
            vf <= vl <= total,
            total == heights.len(),
            hs == heights@,
            running == height_before(hs, vl as int) + shift,
            0 <= shift <= 0x7fff_ffff_ffff_ffff,
            bottom <= 0x1_0000_0000_0000_0000,
            first_beyond(hs, bottom as int, shift, vf as int) == first_beyond(
                hs,
                bottom as int,
                shift,
                vl as int,
            ),
        decreases total - vl,
    {
        let h: i64 = if heights[vl] < 0 {
            0
        } else {
            heights[vl]
        };
        running = running + h as i128;
        vl += 1;
    }
    assert(vl == raw_last(hs, top as int, bottom as int));
    let first: usize = if vf < overscan {
        0
    } else {
        vf - overscan
    };
    let last: usize = if overscan < total - vl {
        vl + overscan
    } else {
        total
    };
    let leading_spacer: i128 = prefix_height(heights, first);
    proof {
        lemma_height_bounds(hs, last as int);
        lemma_height_monotone(hs, last as int, total as int);
    }
    let trailing_spacer: i128 = prefix_height(heights, total) - prefix_height(heights, last);
    VisibleWindow { first, last, leading_spacer, trailing_spacer }
}

/// The window lies within the list, and in it the visible messages.
pub proof fn law_window_holds_visible(
    scroll_top: int,
    client_height: int,
    heights: Seq<i64>,
    overscan: int,
)
    requires
        overscan >= 0,
        heights.len() > 0,
    ensures
        ({
            let (first, last) = window_of(scroll_top, client_height, heights, overscan);
            let top = not_negative(scroll_top);
            let bottom = top + not_negative(client_height);
            &&& 0 <= first <= raw_first(heights, top)
            &&& raw_first(heights, top) <= raw_last(heights, top, bottom) <= last
            &&& last <= heights.len()
            &&& last - first <= raw_last(heights, top, bottom) - raw_first(heights, top) + 2
                * overscan
        }),
{
    let top = not_negative(scroll_top);
    lemma_first_below(heights, top, 0);
    let first = raw_first(heights, top);
    let shift = if past_end(heights, top) {
        not_negative(heights[first] as int)
    } else {
        0
    };
    lemma_first_beyond(heights, top + not_negative(client_height), shift, first);
}

/// The height that the user scrolls through does not depend on which messages
/// are mounted: the spacers and the mounted messages add up to the whole list.
pub proof fn law_heights_add_up(heights: Seq<i64>, first: int, last: int)
    requires
        0 <= first <= last <= heights.len(),
    ensures
        ({
            let whole = height_before(heights, heights.len() as int);
            let leading = height_before(heights, first);
            let mounted = height_before(heights, last) - height_before(heights, first);
            let trailing = whole - height_before(heights, last);
            &&& leading + mounted + trailing == whole
            &&& leading >= 0 && mounted >= 0 && trailing >= 0
        }),
{
    lemma_height_bounds(heights, first);
    lemma_height_monotone(heights, first, last);
    lemma_height_monotone(heights, last, heights.len() as int);
}

/// At the bottom of the list its tail is mounted: the last message, and as many
/// before it as the overscan says.
pub proof fn law_tail_is_mounted_at_bottom(
    scroll_top: int,
    client_height: int,
    heights: Seq<i64>,
    overscan: int,
)
    requires
        overscan >= 0,
        heights.len() > 0,
        forall|i: int| 0 <= i < heights.len() ==> #[trigger] heights[i] > 0,
        scroll_top >= 0,
        client_height >= 0,
        scroll_top + client_height >= height_before(heights, heights.len() as int),
        scroll_top < height_before(heights, heights.len() as int),
    ensures
        ({
            let (first, last) = window_of(scroll_top, client_height, heights, overscan);
            last == heights.len() && (first <= heights.len() - 1 - overscan || first == 0)
        }),
{
    let n = heights.len() as int;
    let first = raw_first(heights, scroll_top);
    lemma_first_below(heights, scroll_top, 0);
    lemma_no_stop(heights, scroll_top + client_height, first);
}

proof fn lemma_no_stop(heights: Seq<i64>, bottom: int, i: int)
    requires
        0 <= i <= heights.len(),
        forall|k: int| 0 <= k < heights.len() ==> #[trigger] heights[k] > 0,
        bottom >= height_before(heights, heights.len() as int),
    ensures
        first_beyond(heights, bottom, 0, i) == heights.len(),
    decreases heights.len() - i,
{
    if i < heights.len() {
        lemma_height_monotone(heights, i + 1, heights.len() as int);
        assert(heights[i] > 0);
        lemma_no_stop(heights, bottom, i + 1);
    }
}

/// The model of a [`RunningMean`].
pub ghost struct MeanView {
    /// Sum of the observed heights.
    pub total: int,
    /// Number of observed heights.
    pub count: int,
}

impl MeanView {
    /// No height was observed yet.
    pub open spec fn initial() -> MeanView {
        MeanView { total: 0, count: 0 }
    }

    /// The mean of the observed heights, as a fraction. Before any height was
    /// observed it is the initial guess.
    pub open spec fn mean(self, px: int) -> (int, int) {
        if self.count == 0 {
            (INITIAL_AVERAGE_HEIGHT_PX * px, 1)
        } else {
            (self.total, self.count)
        }
    }

    /// Takes in another height. A negative one counts as none. Where the
    /// counter is full, the height takes the place of an average one.
    pub open spec fn observed(self, sample: int) -> MeanView {
        if self.count < u64::MAX {
            MeanView { total: self.total + not_negative(sample), count: self.count + 1 }
        } else {
            MeanView {
                total: self.total - self.total / self.count + not_negative(sample),
                count: self.count,
            }
        }
    }

    /// Takes in heights one after the other.
    pub open spec fn observed_all(self, samples: Seq<i64>) -> MeanView
        decreases samples.len(),
    {
        if samples.len() == 0 {
            self
        } else {
            self.observed_all(samples.drop_last()).observed(samples.last() as int)
        }
    }
}

/// The sum of a list of heights. A negative one counts as none.
pub open spec fn sum_of(samples: Seq<i64>) -> int
    decreases samples.len(),
{
    if samples.len() == 0 {
        0
    } else {
        sum_of(samples.drop_last()) + not_negative(samples.last() as int)
    }
}

/// The mean is that of all observed heights. The initial guess has no weight
/// once a height was observed.
pub proof fn law_mean_of_all_heights(samples: Seq<i64>, px: int)
    requires
        samples.len() <= u64::MAX,
    ensures
        ({
            let mean = MeanView::initial().observed_all(samples);
            &&& mean.count == samples.len()
            &&& mean.total == sum_of(samples)
            &&& samples.len() > 0 ==> mean.mean(px) == (sum_of(samples), samples.len() as int)
        }),
    decreases samples.len(),
{
    if samples.len() > 0 {
        law_mean_of_all_heights(samples.drop_last(), px);
    }
}

/// Mean of the message heights that were observed.
#[derive(Clone, Copy, Debug, PartialEq, Eq, Structural)]
pub struct RunningMean {
    /// Sum of the observed heights.
    total: u128,
    /// Number of observed heights.
    n: u64,
}

impl View for RunningMean {
    type V = MeanView;

    closed spec fn view(&self) -> MeanView {
        MeanView { total: self.total as int, count: self.n as int }
    }
}

impl RunningMean {
    /// The sum is that of as many heights as were observed.
    pub closed spec fn wf(self) -> bool {
        self.total <= self.n * 0x7fff_ffff_ffff_ffff
    }

    /// No height was observed yet.
    pub fn new() -> (res: RunningMean)
        ensures
            res@ == MeanView::initial(),
            res.wf(),
    {
        RunningMean { total: 0, n: 0 }
    }

    /// Number of observed heights.
    pub fn n(&self) -> (res: u64)
        ensures
            res == self@.count,
    {
        self.n
    }

    /// The mean of the observed heights, as a fraction. Before any height was
    /// observed it is the initial guess. `px` is the number of units in a CSS
    /// pixel.
    pub fn mean(&self, px: u64) -> (res: (u128, u64))
        ensures
            (res.0 as int, res.1 as int) == self@.mean(px as int),
    {
        if self.n == 0 {
            let guess: u128 = INITIAL_AVERAGE_HEIGHT_PX as u128;
            assert(guess == 120);
            (guess * px as u128, 1)
        } else {
            (self.total, self.n)
        }
    }

    /// Takes in another height. A negative one counts as none.
    pub fn observe(&mut self, sample: i64)
        requires
            old(self).wf(),
        ensures
            final(self).wf(),
            final(self)@ == old(self)@.observed(sample as int),
    {
        let sample: u128 = if sample < 0 {
            0
        } else {
            sample as u128
        };
        proof {
            assert(self.n * 0x7fff_ffff_ffff_ffff <= 0xffff_ffff_ffff_ffff
                * 0x7fff_ffff_ffff_ffff) by (nonlinear_arith)
                requires
                    self.n <= 0xffff_ffff_ffff_ffff,
            ;
            assert((self.n + 1) * 0x7fff_ffff_ffff_ffff == self.n * 0x7fff_ffff_ffff_ffff
                + 0x7fff_ffff_ffff_ffff) by (nonlinear_arith);
        }
        if self.n < u64::MAX {
            self.total = self.total + sample;
            self.n = self.n + 1;
        } else {
            let mean: u128 = self.total / (self.n as u128);
            proof {
                lemma_share_taken(self.total as int, self.n as int, 0x7fff_ffff_ffff_ffff);
            }
            self.total = self.total - mean + sample;
        }
    }
}

/// A sum of `n` heights, none above `most`, is without its mean a sum of one
/// height less.
proof fn lemma_share_taken(total: int, n: int, most: int)
    requires
        n > 0,
        0 <= total <= n * most,
    ensures
        0 <= total / n <= total,
        total - total / n <= n * most - most,
{
    let q = total / n;
    let r = total % n;
    vstd::arithmetic::div_mod::lemma_fundamental_div_mod(total, n);
    assert(0 <= r < n);
    assert(0 <= q <= total) by (nonlinear_arith)
        requires
            total == n * q + r,
            0 <= r < n,
            0 <= total,
    ;
    assert(n * q + r - q <= n * most - most) by (nonlinear_arith)
        requires
            total == n * q + r,
            0 <= r < n,
            0 <= total <= n * most,
    ;
}

proof fn lemma_first_below_is(heights: Seq<i64>, top: int, i: int)
    requires
        0 <= i < heights.len(),
        i == 0 || height_before(heights, i) <= top,
        top >= 0,
    ensures
        ({
            let at = first_below(heights, top, i);
            &&& i <= at < heights.len()
            &&& height_before(heights, at) <= top
            &&& !past_end(heights, top) ==> height_before(heights, at + 1) > top
            &&& past_end(heights, top) ==> at == heights.len() - 1
        }),
    decreases heights.len() - i,
{
    lemma_height_bounds(heights, i + 1);
    if height_before(heights, i + 1) > top {
        lemma_height_monotone(heights, i + 1, heights.len() as int);
    } else if i + 1 < heights.len() {
        lemma_first_below_is(heights, top, i + 1);
    } else {
        reveal_with_fuel(first_below, 2);
    }
}

proof fn lemma_first_beyond_is(heights: Seq<i64>, bottom: int, i: int)
    requires
        0 <= i <= heights.len(),
    ensures
        ({
            let at = first_beyond(heights, bottom, 0, i);
            &&& i <= at <= heights.len()
            &&& at < heights.len() ==> height_before(heights, at) >= bottom
            &&& forall|k: int| i <= k < at ==> #[trigger] height_before(heights, k) < bottom
        }),
    decreases heights.len() - i,
{
    if i < heights.len() && height_before(heights, i) < bottom {
        lemma_first_beyond_is(heights, bottom, i + 1);
        let at = first_beyond(heights, bottom, 0, i + 1);
        assert forall|k: int| i <= k < at implies #[trigger] height_before(heights, k) < bottom by {
            if k > i {
                assert(i + 1 <= k);
            }
        }
    }
}

/// Every message of which a part lies in the viewport is mounted.
pub proof fn law_visible_messages_are_mounted(
    scroll_top: int,
    client_height: int,
    heights: Seq<i64>,
    overscan: int,
    i: int,
)
    requires
        overscan >= 0,
        scroll_top >= 0,
        client_height >= 0,
        0 <= i < heights.len(),
        height_before(heights, i) < scroll_top + client_height,
        height_before(heights, i + 1) > scroll_top,
    ensures
        ({
            let (first, last) = window_of(scroll_top, client_height, heights, overscan);
            first <= i < last
        }),
{
    lemma_first_below_is(heights, scroll_top, 0);
    let vf = raw_first(heights, scroll_top);
    lemma_height_monotone(heights, i + 1, heights.len() as int);
    assert(!past_end(heights, scroll_top));
    if i < vf {
        lemma_height_monotone(heights, i + 1, vf);
    }
    lemma_first_beyond_is(heights, scroll_top + client_height, vf);
    let vl = raw_last(heights, scroll_top, scroll_top + client_height);
    if vl <= i {
        lemma_height_monotone(heights, vl, i);
    }
}

/// No more is mounted than the viewport and the overscan ask for: at most
/// `overscan` messages before the one at the top of the viewport, and at most as
/// many behind the last that begins in it.
pub proof fn law_little_else_is_mounted(
    scroll_top: int,
    client_height: int,
    heights: Seq<i64>,
    overscan: int,
    i: int,
)
    requires
        overscan >= 0,
        scroll_top >= 0,
        client_height >= 0,
        0 <= i < heights.len(),
        scroll_top < height_before(heights, heights.len() as int),
    ensures
        ({
            let (first, last) = window_of(scroll_top, client_height, heights, overscan);
            &&& i + overscan < heights.len() && height_before(heights, i + overscan + 1)
                <= scroll_top ==> i < first
            &&& i >= overscan && height_before(heights, i - overscan) >= scroll_top + client_height
                && height_before(heights, i - overscan) > scroll_top ==> last <= i
        }),
{
    lemma_first_below_is(heights, scroll_top, 0);
    let vf = raw_first(heights, scroll_top);
    if i + overscan < heights.len() && height_before(heights, i + overscan + 1) <= scroll_top {
        if vf <= i + overscan {
            lemma_height_monotone(heights, vf + 1, i + overscan + 1);
        }
    }
    let bottom = scroll_top + client_height;
    lemma_first_beyond_is(heights, bottom, vf);
    let vl = raw_last(heights, scroll_top, bottom);
    if i >= overscan && height_before(heights, i - overscan) >= bottom && height_before(
        heights,
        i - overscan,
    ) > scroll_top {
        let k = i - overscan;
        if k < vf {
            lemma_height_monotone(heights, k, vf);
        }
        if k < vl {
            assert(vf <= k < vl);
        }
    }
}

/// The height of the messages before one is the sum of theirs. A negative height
/// counts as none.
pub proof fn law_heights_before(heights: Seq<i64>, n: int)
    requires
        0 <= n < heights.len(),
    ensures
        height_before(heights, 0) == 0,
        heights[n] >= 0 ==> height_before(heights, n + 1) == height_before(heights, n) + heights[n],
        heights[n] < 0 ==> height_before(heights, n + 1) == height_before(heights, n),
{
}

} // verus!
