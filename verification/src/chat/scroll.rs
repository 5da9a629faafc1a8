//! Scroll positions of the message list.
//!
//! Lengths are whole numbers of a unit that the caller picks, fine enough for
//! all of them. `px` is the number of units in a CSS pixel.

use vstd::prelude::*;

verus! {

/// Distance from the bottom, in CSS pixels, below which the viewport still
/// counts as anchored to the bottom.
pub const AT_BOTTOM_EPSILON_PX: i64 = 60;

/// The viewport shows the bottom of the list, or lies closer to it than the
/// tolerance. Content that does not fill the viewport is all at the bottom.
pub open spec fn at_bottom(
    scroll_top: int,
    scroll_height: int,
    client_height: int,
    px: int,
) -> bool {
    client_height >= scroll_height || scroll_height - scroll_top - client_height
        < AT_BOTTOM_EPSILON_PX * px
}

/// Whether the viewport is close enough to the bottom that new content should
/// auto-scroll.
pub fn at_bottom_from_metrics(
    scroll_top: i64,
    scroll_height: i64,
    client_height: i64,
    px: i64,
) -> (res: bool)
    requires
        px > 0,
    ensures
        res == at_bottom(
            scroll_top as int,
            scroll_height as int,
            client_height as int,
            px as int,
        ),
{
    if client_height >= scroll_height {
        return true;
    }
    let tolerance: i128 = AT_BOTTOM_EPSILON_PX as i128;
    assert(tolerance == 60);
    (scroll_height as i128 - scroll_top as i128 - client_height as i128) < tolerance * px as i128
}

/// Scrolling further down never leaves the bottom.
pub proof fn law_scrolling_down_stays_at_bottom(
    scroll_top: int,
    further: int,
    scroll_height: int,
    client_height: int,
    px: int,
)
    requires
        at_bottom(scroll_top, scroll_height, client_height, px),
        scroll_top <= further,
    ensures
        at_bottom(further, scroll_height, client_height, px),
{
}

/// A viewport that was scrolled all the way down is at the bottom.
pub proof fn law_floor_is_at_bottom(scroll_height: int, client_height: int, px: int)
    requires
        px > 0,
    ensures
        at_bottom(scroll_height - client_height, scroll_height, client_height, px),
{
}

/// The unit makes no difference: the same lengths in a finer one give the same
/// answer.
pub proof fn law_unit_is_free(
    scroll_top: int,
    scroll_height: int,
    client_height: int,
    px: int,
    finer: int,
)
    requires
        finer > 0,
    ensures
        at_bottom(finer * scroll_top, finer * scroll_height, finer * client_height, finer * px)
            == at_bottom(scroll_top, scroll_height, client_height, px),
{
    let rest = scroll_height - scroll_top - client_height;
    assert((finer * client_height >= finer * scroll_height) == (client_height >= scroll_height))
        by (nonlinear_arith)
        requires
            finer > 0,
    ;
    assert(finer * scroll_height - finer * scroll_top - finer * client_height == finer * rest)
        by (nonlinear_arith)
        requires
            rest == scroll_height - scroll_top - client_height,
    ;
    assert((finer * rest < AT_BOTTOM_EPSILON_PX * (finer * px)) == (rest < AT_BOTTOM_EPSILON_PX
        * px)) by (nonlinear_arith)
        requires
            finer > 0,
    ;
}

/// The viewport is at the bottom where all of the list is in it, or where less
/// than the tolerance of it lies below: 60 pixels.
pub proof fn law_bottom_is_within_the_tolerance(
    scroll_top: int,
    scroll_height: int,
    client_height: int,
    px: int,
)
    ensures
        client_height >= scroll_height ==> at_bottom(scroll_top, scroll_height, client_height, px),
        client_height < scroll_height ==> at_bottom(scroll_top, scroll_height, client_height, px)
            == (scroll_height - (scroll_top + client_height) < 60 * px),
{
}

} // verus!
