//! The scrolling message list: when it follows new messages, what the pill
//! below it counts, and which messages are mounted.

use crate::chat::scroll::{at_bottom, at_bottom_from_metrics};
use crate::chat::types::{message_views, ChatMessage, MessageView};
use crate::chat::virtual_list::{
    height_before, not_negative, visible_window, window_of, VisibleWindow,
    INITIAL_AVERAGE_HEIGHT_PX, VIRTUAL_OVERSCAN,
};
use crate::text::{concat, decimal, decimal_text};
use vstd::prelude::*;

verus! {

/// The state of the scrolling list.
#[derive(Clone, Copy, Debug, PartialEq, Eq, Structural)]
pub struct MessageListState {
    /// Units of length in a CSS pixel.
    pub px: i64,
    /// The viewport follows new messages.
    pub at_bottom: bool,
    /// Messages that arrived below the viewport.
    pub pending_below: u32,
    pub prev_len: usize,
    pub prev_replaying: bool,
    pub scroll_top: i64,
    pub client_height: i64,
    /// The part of the list that is mounted.
    pub window: VisibleWindow,
}

/// The finest unit of length goes this many times into a CSS pixel.
pub const MAX_PX: i64 = 0x1_0000_0000_0000;

/// The usual height of a message.
pub open spec fn usual_height(px: i64) -> int {
    INITIAL_AVERAGE_HEIGHT_PX * px
}

/// Every message with the usual height.
pub open spec fn uniform(total: nat, px: i64) -> Seq<i64> {
    Seq::new(total, |i: int| usual_height(px) as i64)
}

/// The mounted part of a list of `total` messages of the usual height.
pub open spec fn usual_window(
    scroll_top: int,
    client_height: int,
    total: nat,
    px: i64,
) -> (int, int) {
    window_of(scroll_top, client_height, uniform(total, px), VIRTUAL_OVERSCAN as int)
}

/// A window mounts what it should, and has the spacers for the rest.
pub open spec fn shows(
    w: VisibleWindow,
    scroll_top: int,
    client_height: int,
    total: nat,
    px: i64,
) -> bool {
    &&& (w.first as int, w.last as int) == usual_window(scroll_top, client_height, total, px)
    &&& w.leading_spacer == height_before(uniform(total, px), w.first as int)
    &&& w.trailing_spacer == height_before(uniform(total, px), total as int) - height_before(
        uniform(total, px),
        w.last as int,
    )
}

/// The scroll position that shows the bottom of `total` messages of the usual
/// height.
pub open spec fn bottom_scroll(total: nat, client_height: int, px: i64) -> int {
    let top = not_negative(total * usual_height(px) - client_height);
    if top > i64::MAX {
        i64::MAX as int
    } else {
        top
    }
}

/// Two positions are more than half a pixel apart.
pub open spec fn moved(a: int, b: int, px: i64) -> bool {
    2 * (a - b) > px || 2 * (b - a) > px
}

fn has_moved(a: i64, b: i64, px: i64) -> (res: bool)
    ensures
        res == moved(a as int, b as int, px),
{
    let up: i128 = a as i128 - b as i128;
    let down: i128 = b as i128 - a as i128;
    2 * up > px as i128 || 2 * down > px as i128
}

/// Estimated scroll position that puts the bottom of the content at the bottom
/// of the viewport.
pub fn target_bottom_scroll(total: usize, client_height: i64, px: i64) -> (res: i64)
    requires
        0 < px <= MAX_PX,
    ensures
        res == bottom_scroll(total as nat, client_height as int, px),
{
    let height: i64 = INITIAL_AVERAGE_HEIGHT_PX * px;
    proof {
        assert(0 <= total * height <= 0xffff_ffff_ffff_ffff * 0x7fff_ffff_ffff_ffff)
            by (nonlinear_arith)
            requires
                0 <= total <= 0xffff_ffff_ffff_ffff,
                0 <= height <= 0x7fff_ffff_ffff_ffff,
        ;
    }
    let top: i128 = total as i128 * height as i128 - client_height as i128;
    if top < 0 {
        0
    } else if top > i64::MAX as i128 {
        i64::MAX
    } else {
        top as i64
    }
}

/// The mounted part of a list of messages of the usual height.
fn estimate_window(scroll_top: i64, client_height: i64, total: usize, px: i64) -> (w:
    VisibleWindow)
    requires
        0 < px <= MAX_PX,
    ensures
        shows(w, scroll_top as int, client_height as int, total as nat, px),
{
    let height: i64 = INITIAL_AVERAGE_HEIGHT_PX * px;
    let mut heights: Vec<i64> = Vec::new();
    let mut i: usize = 0;
    while i < total
        invariant
            i <= total,
            heights.len() == i,
            forall|k: int| 0 <= k < i ==> #[trigger] heights[k] == height,
        decreases total - i,
    {
        heights.push(height);
        i += 1;
    }
    assert(heights@ =~= uniform(total as nat, px));
    visible_window(scroll_top, client_height, &heights, VIRTUAL_OVERSCAN)
}

impl MessageListState {
    /// The unit of length is one that a message can be measured in.
    pub open spec fn wf(self) -> bool {
        0 < self.px <= MAX_PX
    }

    /// The list before anything is known of the viewport. `px` is the number of
    /// units of length in a CSS pixel.
    pub fn new(px: i64) -> (res: MessageListState)
        ensures
            res == (MessageListState {
                px,
                at_bottom: true,
                pending_below: 0,
                prev_len: 0,
                prev_replaying: false,
                scroll_top: 0,
                client_height: 0,
                window: VisibleWindow {
                    first: 0,
                    last: 0,
                    leading_spacer: 0,
                    trailing_spacer: 0,
                },
            }),
    {
        MessageListState {
            px,
            at_bottom: true,
            pending_below: 0,
            prev_len: 0,
            prev_replaying: false,
            scroll_top: 0,
            client_height: 0,
            window: VisibleWindow::empty(),
        }
    }

    /// The state with the window for `total` messages.
    pub open spec fn windowed(self, other: MessageListState, total: nat) -> bool {
        &&& self == (MessageListState { window: self.window, ..other })
        &&& shows(
            self.window,
            other.scroll_top as int,
            other.client_height as int,
            total,
            other.px,
        )
    }

    /// Computes the window for `total` messages.
    fn recompute_window(&mut self, total: usize)
        requires
            old(self).wf(),
        ensures
            final(self).windowed(*old(self), total as nat),
    {
        self.window = estimate_window(self.scroll_top, self.client_height, total, self.px);
    }

    /// The metrics of the viewport when it is first mounted.
    pub fn on_install(&mut self, scroll_top: i64, client_height: i64, total: usize)
        requires
            old(self).wf(),
        ensures
            final(self).windowed(
                MessageListState { scroll_top, client_height, ..*old(self) },
                total as nat,
            ),
    {
        self.client_height = client_height;
        self.scroll_top = scroll_top;
        self.recompute_window(total);
    }

    /// The state after scrolling, but for the window.
    pub open spec fn scrolled(
        self,
        scroll_top: i64,
        scroll_height: i64,
        client_height: i64,
    ) -> MessageListState {
        let now = at_bottom(
            scroll_top as int,
            scroll_height as int,
            client_height as int,
            self.px as int,
        );
        MessageListState {
            at_bottom: now,
            pending_below: if now {
                0
            } else {
                self.pending_below
            },
            scroll_top: if moved(self.scroll_top as int, scroll_top as int, self.px) {
                scroll_top
            } else {
                self.scroll_top
            },
            ..self
        }
    }

    /// The user scrolled. Reaching the bottom empties the pill.
    pub fn on_scroll(
        &mut self,
        scroll_top: i64,
        scroll_height: i64,
        client_height: i64,
        total: usize,
    )
        requires
            old(self).wf(),
        ensures
            final(self).windowed(
                old(self).scrolled(scroll_top, scroll_height, client_height),
                total as nat,
            ),
    {
        let now_at_bottom: bool = at_bottom_from_metrics(
            scroll_top,
            scroll_height,
            client_height,
            self.px,
        );
        self.at_bottom = now_at_bottom;
        if now_at_bottom {
            self.pending_below = 0;
        }
        if has_moved(self.scroll_top, scroll_top, self.px) {
            self.scroll_top = scroll_top;
        }
        self.recompute_window(total);
    }

    /// The viewport changed its size. A list at the bottom stays there: the
    /// result tells whether it is to be scrolled down.
    pub fn on_resize(&mut self, client_height: i64, total: usize) -> (snap: bool)
        requires
            old(self).wf(),
        ensures
            final(self).windowed(
                MessageListState {
                    client_height: if moved(
                        old(self).client_height as int,
                        client_height as int,
                        old(self).px,
                    ) {
                        client_height
                    } else {
                        old(self).client_height
                    },
                    ..*old(self)
                },
                total as nat,
            ),
            snap == old(self).at_bottom,
    {
        if has_moved(self.client_height, client_height, self.px) {
            self.client_height = client_height;
        }
        let snap: bool = self.at_bottom;
        self.recompute_window(total);
        snap
    }

    /// The state after the list came to `len` messages, but for the window.
    pub open spec fn grown(self, len: usize) -> MessageListState {
        let grew = len > self.prev_len;
        let delta = (len - self.prev_len) as u32;
        MessageListState {
            prev_len: len,
            pending_below: if grew && !self.at_bottom {
                if self.pending_below + delta > u32::MAX {
                    u32::MAX
                } else {
                    (self.pending_below + delta) as u32
                }
            } else {
                self.pending_below
            },
            scroll_top: if grew && self.at_bottom {
                bottom_scroll(len as nat, self.client_height as int, self.px) as i64
            } else {
                self.scroll_top
            },
            ..self
        }
    }

    /// The list came to `len` messages. New ones are followed where the
    /// viewport is at the bottom, and counted where it is not. The result tells
    /// whether the viewport is to be scrolled down.
    pub fn on_messages(&mut self, len: usize) -> (snap: bool)
        requires
            old(self).wf(),
        ensures
            final(self).windowed(old(self).grown(len), len as nat),
            snap == (len > old(self).prev_len && old(self).at_bottom),
    {
        let prev: usize = self.prev_len;
        self.prev_len = len;
        let grew: bool = len > prev;
        let anchored: bool = self.at_bottom;
        if grew && !anchored {
            let delta: u32 = (len - prev) as u32;
            self.pending_below = self.pending_below.saturating_add(delta);
        }
        if grew && anchored {
            self.scroll_top = target_bottom_scroll(len, self.client_height, self.px);
        }
        self.recompute_window(len);
        grew && anchored
    }

    /// A replay began or ended. At its end the viewport goes to the bottom and
    /// the pill is emptied. The result tells whether it is to be scrolled down.
    pub fn on_replaying(&mut self, now: bool, len: usize) -> (snap: bool)
        requires
            old(self).wf(),
        ensures
            snap == (old(self).prev_replaying && !now),
            snap ==> final(self).windowed(
                MessageListState {
                    prev_replaying: now,
                    pending_below: 0,
                    at_bottom: true,
                    scroll_top: bottom_scroll(
                        len as nat,
                        old(self).client_height as int,
                        old(self).px,
                    ) as i64,
                    ..*old(self)
                },
                len as nat,
            ),
            !snap ==> *final(self) == (MessageListState { prev_replaying: now, ..*old(self) }),
    {
        let was: bool = self.prev_replaying;
        self.prev_replaying = now;
        if was && !now {
            self.pending_below = 0;
            self.at_bottom = true;
            self.scroll_top = target_bottom_scroll(len, self.client_height, self.px);
            self.recompute_window(len);
            true
        } else {
            false
        }
    }

    /// The user clicked the pill: the viewport is to be scrolled down.
    pub fn snap_and_reset(&mut self)
        ensures
            *final(self) == (MessageListState { pending_below: 0, at_bottom: true, ..*old(self) }),
    {
        self.pending_below = 0;
        self.at_bottom = true;
    }

    /// The words on the pill, where it is shown.
    pub fn pill_label(&self) -> (label: Option<String>)
        ensures
            match label {
                Some(words) => self.pending_below > 0 && words@ == pill_words(
                    self.pending_below as nat,
                ),
                None => self.pending_below == 0,
            },
    {
        if self.pending_below == 0 {
            None
        } else if self.pending_below == 1 {
            Some("1 new message".to_owned())
        } else {
            Some(concat(decimal_text(self.pending_below as u64).as_str(), " new messages"))
        }
    }

    /// The messages to be mounted out of a list of `len`.
    pub fn mounted(&self, len: usize) -> (range: (usize, usize))
        ensures
            range.0 <= range.1 <= len,
            range.0 == (if self.window.first < len {
                self.window.first
            } else {
                len
            }),
            range.1 == (if self.window.last < range.0 {
                range.0
            } else if self.window.last < len {
                self.window.last
            } else {
                len
            }),
    {
        let lo: usize = if self.window.first < len {
            self.window.first
        } else {
            len
        };
        let hi: usize = if self.window.last < len {
            self.window.last
        } else {
            len
        };
        (
            lo,
            if hi < lo {
                lo
            } else {
                hi
            },
        )
    }
}

/// The words on the pill.
pub open spec fn pill_words(n: nat) -> Seq<char> {
    if n == 1 {
        "1 new message"@
    } else {
        decimal(n) + " new messages"@
    }
}

/// The messages with each marked as visible exactly where it is mounted.
pub open spec fn marked(messages: Seq<MessageView>, w: VisibleWindow) -> Seq<MessageView> {
    messages.map(
        |i: int, m: MessageView| MessageView { visible: w.first <= i < w.last, ..m },
    )
}

/// Marks each message as visible exactly where it is mounted.
pub fn sync_visibility(messages: &mut Vec<ChatMessage>, w: VisibleWindow)
    ensures
        message_views(final(messages)@) == marked(message_views(old(messages)@), w),
{
    let ghost before = message_views(messages@);
    let ghost target = marked(before, w);
    let mut i: usize = 0;
    while i < messages.len()
        invariant
            i <= messages.len(),
            messages.len() == before.len(),
            target == marked(before, w),
            forall|k: int| 0 <= k < i ==> (#[trigger] messages@[k])@ == target[k],
            forall|k: int| i <= k < messages.len() ==> (#[trigger] messages@[k])@ == before[k],
        decreases messages.len() - i,
    {
        let should_be_visible: bool = i >= w.first && i < w.last;
        let mut m: ChatMessage = messages[i].clone();
        m.visible = should_be_visible;
        messages.set(i, m);
        i += 1;
    }
    assert(message_views(messages@) =~= target);
}

/// The pill counts nothing while the viewport follows new messages.
pub proof fn law_no_pill_at_bottom(s: MessageListState, len: usize)
    requires
        s.at_bottom,
        s.pending_below == 0,
    ensures
        s.grown(len).pending_below == 0,
        s.grown(len).at_bottom,
{
}

/// Scrolling to the bottom empties the pill.
pub proof fn law_bottom_empties_pill(
    s: MessageListState,
    scroll_top: i64,
    scroll_height: i64,
    client_height: i64,
)
    ensures
        s.scrolled(scroll_top, scroll_height, client_height).at_bottom ==> s.scrolled(
            scroll_top,
            scroll_height,
            client_height,
        ).pending_below == 0,
{
}

/// Scrolling follows the viewport: whether it is at the bottom, and its position
/// where that has moved by more than half a pixel. The pill is emptied at the
/// bottom and stays as it is elsewhere. Nothing else changes.
pub proof fn law_scrolling(
    s: MessageListState,
    scroll_top: i64,
    scroll_height: i64,
    client_height: i64,
)
    ensures
        ({
            let n = s.scrolled(scroll_top, scroll_height, client_height);
            let far = 2 * (s.scroll_top - scroll_top) > s.px || 2 * (scroll_top - s.scroll_top)
                > s.px;
            &&& n.at_bottom == at_bottom(
                scroll_top as int,
                scroll_height as int,
                client_height as int,
                s.px as int,
            )
            &&& far ==> n.scroll_top == scroll_top
            &&& !far ==> n.scroll_top == s.scroll_top
            &&& n.at_bottom ==> n.pending_below == 0
            &&& !n.at_bottom ==> n.pending_below == s.pending_below
            &&& n.prev_len == s.prev_len && n.prev_replaying == s.prev_replaying
            &&& n.client_height == s.client_height && n.px == s.px
        }),
{
}

/// New messages are counted in the pill where the viewport is not at the bottom,
/// and are followed where it is: the position is then the one that shows the end
/// of the list. A list that did not grow changes neither.
pub proof fn law_new_messages_are_counted_or_followed(s: MessageListState, len: usize)
    requires
        len - s.prev_len <= u32::MAX,
    ensures
        ({
            let n = s.grown(len);
            let more = len - s.prev_len;
            &&& n.prev_len == len && n.at_bottom == s.at_bottom && n.px == s.px
            &&& more <= 0 ==> n.pending_below == s.pending_below && n.scroll_top == s.scroll_top
            &&& more > 0 && !s.at_bottom ==> {
                &&& n.scroll_top == s.scroll_top
                &&& s.pending_below + more <= u32::MAX ==> n.pending_below == s.pending_below
                    + more
                &&& s.pending_below + more > u32::MAX ==> n.pending_below == u32::MAX
            }
            &&& more > 0 && s.at_bottom ==> n.pending_below == s.pending_below && n.scroll_top
                == bottom_scroll(len as nat, s.client_height as int, s.px) as i64
        }),
{
}

/// The position that shows the end of a list leaves as much of it above as does
/// not fit into the viewport: each message with its usual height of 120 pixels.
pub proof fn law_end_of_the_list(total: nat, client_height: int, px: i64)
    ensures
        ({
            let above = total * (120 * px) - client_height;
            &&& above <= 0 ==> bottom_scroll(total, client_height, px) == 0
            &&& 0 < above <= i64::MAX ==> bottom_scroll(total, client_height, px) == above
            &&& above > i64::MAX ==> bottom_scroll(total, client_height, px) == i64::MAX
        }),
{
}

/// A message is visible exactly where it lies in the mounted part, and nothing
/// else of it changes.
pub proof fn law_mounted_messages_are_visible(
    messages: Seq<MessageView>,
    w: VisibleWindow,
    i: int,
)
    requires
        0 <= i < messages.len(),
    ensures
        marked(messages, w).len() == messages.len(),
        marked(messages, w)[i].visible == (w.first <= i < w.last),
        marked(messages, w)[i] == (MessageView {
            visible: marked(messages, w)[i].visible,
            ..messages[i]
        }),
{
}

/// The pill tells how many messages came.
pub proof fn law_pill_words(n: nat)
    ensures
        pill_words(1) == "1 new message"@,
        n != 1 ==> pill_words(n) == decimal(n) + " new messages"@,
{
}

} // verus!
