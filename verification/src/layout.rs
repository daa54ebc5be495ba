//! Rectangles, and the places of the three panes with the two dividers between them.
use vstd::prelude::*;

verus! {

/// A rectangle: from the cell `(ax, ay)` up to, and without, the cell `(bx, by)`.
#[derive(Debug, Clone, Copy, PartialEq, Eq, Structural)]
pub struct Rect {
    pub ax: i32,
    pub ay: i32,
    pub bx: i32,
    pub by: i32,
}

/// A rectangle of the pane container, likewise.
#[derive(Debug, Clone, Copy, PartialEq, Eq, Structural)]
pub struct PaneRect {
    pub ax: i16,
    pub ay: i16,
    pub bx: i16,
    pub by: i16,
}

/// The least width of a pane.
pub const MIN_PANE_W: i16 = 8;

/// The width of a divider.
pub const DIVIDER_W: i16 = 1;

/// The lesser of two numbers.
pub open spec fn lesser(a: int, b: int) -> int {
    if a < b {
        a
    } else {
        b
    }
}

/// The greater of two numbers.
pub open spec fn greater(a: int, b: int) -> int {
    if a > b {
        a
    } else {
        b
    }
}

/// Whether three panes of the least width, with the two dividers, fit between two borders.
pub open spec fn has_room(left: int, right: int) -> bool {
    right - left >= 3 * MIN_PANE_W + 2 * DIVIDER_W
}

/// The last column for the second divider: with room for three panes the right one keeps its least
/// width behind the divider, otherwise the divider takes a column of it.
pub open spec fn last_divider(left: int, right: int) -> int {
    if has_room(left, right) {
        right - MIN_PANE_W - DIVIDER_W
    } else {
        right - MIN_PANE_W
    }
}

/// Two dividers moved so that every pane of the columns from `left` to `right` keeps its least
/// width, where there is room for that. Where there is not, the left pane gives way first.
pub open spec fn dividers_within(left: int, right: int, d0: int, d1: int) -> (int, int) {
    let last = last_divider(left, right);
    let a = lesser(greater(d0, left + MIN_PANE_W), last - MIN_PANE_W - DIVIDER_W);
    let b = lesser(greater(d1, a + DIVIDER_W + MIN_PANE_W), last);
    (a, b)
}

/// Moves two dividers so that every pane keeps its least width, as far as there is room.
pub fn clamp_dividers(left: i16, right: i16, d0: i16, d1: i16) -> (r: (i16, i16))
    requires
        left <= i16::MAX - MIN_PANE_W,
        right >= i16::MIN + 2 * MIN_PANE_W + DIVIDER_W,
    ensures
        (r.0 as int, r.1 as int) == dividers_within(
            left as int,
            right as int,
            d0 as int,
            d1 as int,
        ),
{
    let room: bool = right as i32 - left as i32 >= 3 * MIN_PANE_W as i32 + 2 * DIVIDER_W as i32;
    let last: i16 = if room {
        right - MIN_PANE_W - DIVIDER_W
    } else {
        right - MIN_PANE_W
    };
    let low: i16 = left + MIN_PANE_W;
    let high: i16 = last - MIN_PANE_W - DIVIDER_W;
    let mut a: i16 = if d0 > low {
        d0
    } else {
        low
    };
    if high < a {
        a = high;
    }
    let next: i16 = a + DIVIDER_W + MIN_PANE_W;
    let mut b: i16 = if d1 > next {
        d1
    } else {
        next
    };
    if last < b {
        b = last;
    }
    (a, b)
}

/// With room for three panes and two dividers, every pane has its least width and the dividers
/// stand in order.
pub proof fn clamped_panes_keep_their_width(left: int, right: int, d0: int, d1: int)
    requires
        has_room(left, right),
    ensures
        ({
            let (a, b) = dividers_within(left, right, d0, d1);
            &&& a - left >= MIN_PANE_W
            &&& b - (a + DIVIDER_W) >= MIN_PANE_W
            &&& right - (b + DIVIDER_W) >= MIN_PANE_W
            &&& left < a < b < right
        }),
{
}

/// Whatever the room, the dividers stand in order with a pane of the least width between them, and
/// the second one before the right border.
pub proof fn dividers_stay_in_order(left: int, right: int, d0: int, d1: int)
    ensures
        ({
            let (a, b) = dividers_within(left, right, d0, d1);
            &&& b - (a + DIVIDER_W) >= MIN_PANE_W
            &&& b <= right - MIN_PANE_W
        }),
{
}

/// Dividers that were moved into place stay there.
pub proof fn clamping_is_stable(left: int, right: int, d0: int, d1: int)
    ensures
        ({
            let (a, b) = dividers_within(left, right, d0, d1);
            dividers_within(left, right, a, b) == (a, b)
        }),
{
}

/// The places of the three panes: between the borders and the dividers, over the full height.
pub fn pane_rects(b: PaneRect, d0: i16, d1: i16) -> (r: (PaneRect, PaneRect, PaneRect))
    requires
        d0 < i16::MAX,
        d1 < i16::MAX,
    ensures
        r.0 == (PaneRect { ax: b.ax, ay: b.ay, bx: d0, by: b.by }),
        r.1 == (PaneRect { ax: (d0 + DIVIDER_W) as i16, ay: b.ay, bx: d1, by: b.by }),
        r.2 == (PaneRect { ax: (d1 + DIVIDER_W) as i16, ay: b.ay, bx: b.bx, by: b.by }),
{
    (
        PaneRect { ax: b.ax, ay: b.ay, bx: d0, by: b.by },
        PaneRect { ax: d0 + DIVIDER_W, ay: b.ay, bx: d1, by: b.by },
        PaneRect { ax: d1 + DIVIDER_W, ay: b.ay, bx: b.bx, by: b.by },
    )
}

/// Whether a cell lies in a column range of a rectangle.
pub open spec fn in_columns(r: PaneRect, x: int) -> bool {
    r.ax <= x < r.bx
}

/// The panes and the dividers tile the columns: every cell belongs to exactly one of them.
pub proof fn panes_tile(b: PaneRect, d0: i16, d1: i16, p: PaneRect, q: PaneRect, s: PaneRect, x: int)
    requires
        p == (PaneRect { ax: b.ax, ay: b.ay, bx: d0, by: b.by }),
        q == (PaneRect { ax: (d0 + DIVIDER_W) as i16, ay: b.ay, bx: d1, by: b.by }),
        s == (PaneRect { ax: (d1 + DIVIDER_W) as i16, ay: b.ay, bx: b.bx, by: b.by }),
        b.ax <= d0 < d1 < b.bx,
        b.ax <= x < b.bx,
    ensures
        in_columns(p, x) || in_columns(q, x) || in_columns(s, x) || x == d0 || x == d1,
        !(in_columns(p, x) && in_columns(q, x)),
        !(in_columns(q, x) && in_columns(s, x)),
        !(in_columns(p, x) && in_columns(s, x)),
        !(in_columns(p, x) && x == d0) && !(in_columns(q, x) && x == d0),
        !(in_columns(q, x) && x == d1) && !(in_columns(s, x) && x == d1),
{
}

/// A quotient, rounded towards zero.
pub open spec fn quotient(n: int, d: int) -> int {
    if n >= 0 {
        n / d
    } else {
        -((-n) / d)
    }
}

/// The dividers of a fresh container: at one third and two thirds of its width, moved into place.
pub fn initial_dividers(bounds: PaneRect) -> (r: (i16, i16))
    requires
        i16::MIN / 2 < bounds.bx - bounds.ax <= i16::MAX / 2,
        bounds.ax <= i16::MAX - MIN_PANE_W,
        bounds.bx >= i16::MIN + 2 * MIN_PANE_W + DIVIDER_W,
    ensures
        ({
            let w = bounds.bx - bounds.ax;
            (r.0 as int, r.1 as int) == dividers_within(
                bounds.ax as int,
                bounds.bx as int,
                bounds.ax + quotient(w, 3),
                bounds.ax + quotient(2 * w, 3),
            )
        }),
{
    let w: i16 = bounds.bx - bounds.ax;
    if w >= 0 {
        clamp_dividers(bounds.ax, bounds.bx, bounds.ax + w / 3, bounds.ax + (2 * w) / 3)
    } else {
        clamp_dividers(bounds.ax, bounds.bx, bounds.ax - (-w) / 3, bounds.ax - (2 * -w) / 3)
    }
}

/// A scroll position within the content: at least zero, and at most what the view leaves unseen.
pub fn clamp_scroll(delta: i16, content_h: i16, viewport_h: i16) -> (r: i16)
    requires
        i16::MIN <= content_h - viewport_h <= i16::MAX,
    ensures
        r == lesser(greater(delta as int, 0), greater(content_h - viewport_h, 0)),
{
    let unseen: i16 = content_h - viewport_h;
    let max: i16 = if unseen > 0 {
        unseen
    } else {
        0
    };
    let low: i16 = if delta > 0 {
        delta
    } else {
        0
    };
    if low < max {
        low
    } else {
        max
    }
}

/// The three-column container: its bounds, its dividers, and the one that is being dragged.
#[derive(Debug, Clone, Copy, PartialEq, Eq, Structural)]
pub struct Split {
    pub bounds: PaneRect,
    pub d0: i16,
    pub d1: i16,
    pub dragging: Option<usize>,
}

/// A mouse event in the container.
#[derive(Debug, Clone, Copy, PartialEq, Eq, Structural)]
pub enum SplitEvent {
    Down { x: i16, y: i16 },
    Move { x: i16 },
    Up,
    Other,
}

/// Whether a container can place its dividers.
pub open spec fn can_split(b: PaneRect) -> bool {
    b.ax <= i16::MAX - MIN_PANE_W && b.bx >= i16::MIN + 2 * MIN_PANE_W + DIVIDER_W
}

/// The divider at a cell.
pub open spec fn divider_of(s: Split, x: int, y: int) -> Option<usize> {
    if y < s.bounds.ay || y >= s.bounds.by {
        None
    } else if x == s.d0 {
        Some(0)
    } else if x == s.d1 {
        Some(1)
    } else {
        None
    }
}

/// The container after a mouse event, and whether the event ends there: pressing on a divider takes
/// hold of it, moving moves it as far as the panes allow, and releasing lets go. Any other event is
/// the panes'.
pub open spec fn dragged(s: Split, ev: SplitEvent) -> (Split, bool) {
    match ev {
        SplitEvent::Down { x, y } => match divider_of(s, x as int, y as int) {
            Some(i) => (Split { dragging: Some(i), ..s }, true),
            None => (s, false),
        },
        SplitEvent::Move { x } => match s.dragging {
            Some(i) => {
                let d = dividers_within(
                    s.bounds.ax as int,
                    s.bounds.bx as int,
                    if i == 0 {
                        x as int
                    } else {
                        s.d0 as int
                    },
                    if i == 0 {
                        s.d1 as int
                    } else {
                        x as int
                    },
                );
                (Split { d0: d.0 as i16, d1: d.1 as i16, ..s }, true)
            },
            None => (s, false),
        },
        SplitEvent::Up => match s.dragging {
            Some(_) => (Split { dragging: None, ..s }, true),
            None => (s, false),
        },
        SplitEvent::Other => (s, false),
    }
}

impl Split {
    /// A container with its dividers at one third and two thirds of its width.
    pub fn new(bounds: PaneRect) -> (r: Split)
        requires
            can_split(bounds),
            i16::MIN / 2 < bounds.bx - bounds.ax <= i16::MAX / 2,
        ensures
            r.bounds == bounds,
            r.dragging is None,
            ({
                let w = bounds.bx - bounds.ax;
                (r.d0 as int, r.d1 as int) == dividers_within(
                    bounds.ax as int,
                    bounds.bx as int,
                    bounds.ax + quotient(w, 3),
                    bounds.ax + quotient(2 * w, 3),
                )
            }),
    {
        let (d0, d1) = initial_dividers(bounds);
        Split { bounds, d0, d1, dragging: None }
    }

    /// The divider at a cell, if there is one.
    pub fn divider_at(&self, x: i16, y: i16) -> (r: Option<usize>)
        ensures
            r == divider_of(*self, x as int, y as int),
    {
        if y < self.bounds.ay || y >= self.bounds.by {
            return None;
        }
        if x == self.d0 {
            Some(0)
        } else if x == self.d1 {
            Some(1)
        } else {
            None
        }
    }

    /// Handles a mouse event, and tells whether it ends here. A divider that is dragged stops where
    /// a pane would become too narrow.
    pub fn handle_mouse(&mut self, ev: SplitEvent) -> (consumed: bool)
        requires
            can_split(old(self).bounds),
            old(self).dragging matches Some(i) ==> i <= 1,
        ensures
            (*final(self), consumed) == dragged(*old(self), ev),
    {
        match ev {
            SplitEvent::Down { x, y } => match self.divider_at(x, y) {
                Some(i) => {
                    self.dragging = Some(i);
                    true
                },
                None => false,
            },
            SplitEvent::Move { x } => match self.dragging {
                Some(i) => {
                    if i == 0 {
                        self.d0 = x;
                    } else {
                        self.d1 = x;
                    }
                    let (d0, d1) = clamp_dividers(
                        self.bounds.ax,
                        self.bounds.bx,
                        self.d0,
                        self.d1,
                    );
                    self.d0 = d0;
                    self.d1 = d1;
                    true
                },
                None => false,
            },
            SplitEvent::Up => match self.dragging {
                Some(_) => {
                    self.dragging = None;
                    true
                },
                None => false,
            },
            SplitEvent::Other => false,
        }
    }

    /// Takes new bounds, with the dividers where the resize put them, moved into place.
    pub fn resize(&mut self, bounds: PaneRect, d0: i16, d1: i16)
        requires
            can_split(bounds),
        ensures
            final(self).bounds == bounds,
            final(self).dragging == old(self).dragging,
            (final(self).d0 as int, final(self).d1 as int) == dividers_within(
                bounds.ax as int,
                bounds.bx as int,
                d0 as int,
                d1 as int,
            ),
    {
        let (a, b) = clamp_dividers(bounds.ax, bounds.bx, d0, d1);
        self.bounds = bounds;
        self.d0 = a;
        self.d1 = b;
    }
}

/// Whether a place lies between two borders; where they leave no room, whether it is the first one.
pub open spec fn between(a: int, b: int, x: int) -> bool {
    if b > a {
        a <= x < b
    } else {
        x == a
    }
}

/// Whether a rectangle holds a cell.
pub open spec fn holds(r: PaneRect, x: int, y: int) -> bool {
    between(r.ax as int, r.bx as int, x) && between(r.ay as int, r.by as int, y)
}

/// `turbo_vision::core::geometry::Rect::contains`: a cell lies within a rectangle from its first
/// corner up to, and without, its second one; along an axis without extent only the first corner's
/// coordinate counts.
#[verifier::external_body]
fn cell_in(r: &PaneRect, x: i16, y: i16) -> (b: bool)
    ensures
        b == holds(*r, x as int, y as int),
{
    turbo_vision::core::geometry::Rect::new(r.ax, r.ay, r.bx, r.by).contains(
        turbo_vision::core::geometry::Point::new(x, y),
    )
}

/// The pane that a wheel event goes to: the one under the mouse, whatever has the focus.
pub fn pane_at(panes: &(PaneRect, PaneRect, PaneRect), x: i16, y: i16) -> (r: Option<usize>)
    ensures
        r == if holds(panes.0, x as int, y as int) {
            Some(0usize)
        } else if holds(panes.1, x as int, y as int) {
            Some(1usize)
        } else if holds(panes.2, x as int, y as int) {
            Some(2usize)
        } else {
            None
        },
{
    if cell_in(&panes.0, x, y) {
        Some(0)
    } else if cell_in(&panes.1, x, y) {
        Some(1)
    } else if cell_in(&panes.2, x, y) {
        Some(2)
    } else {
        None
    }
}

/// Dividers that leave every pane its least width stay where they are.
pub proof fn dividers_with_room_stay(left: int, right: int, d0: int, d1: int)
    requires
        d0 - left >= MIN_PANE_W,
        d1 - (d0 + DIVIDER_W) >= MIN_PANE_W,
        right - (d1 + DIVIDER_W) >= MIN_PANE_W,
    ensures
        dividers_within(left, right, d0, d1) == (d0, d1),
{
}

/// With room for three panes, the first divider stands as near as it can to where it was put: at the
/// least width of the left pane if it was put before that, and where the other two panes still have
/// theirs if it was put behind that. The second one likewise, behind the first.
pub proof fn dividers_stay_near(left: int, right: int, d0: int, d1: int)
    requires
        right - left >= 26,
    ensures
        d0 <= left + 8 ==> dividers_within(left, right, d0, d1).0 == left + 8,
        left + 8 <= d0 <= right - 18 ==> dividers_within(left, right, d0, d1).0 == d0,
        d0 >= right - 18 ==> dividers_within(left, right, d0, d1).0 == right - 18,
        d1 >= right - 9 ==> dividers_within(left, right, d0, d1).1 == right - 9,
        dividers_within(left, right, d0, d1).0 + 9 <= d1 <= right - 9 ==> dividers_within(
            left,
            right,
            d0,
            d1,
        ).1 == d1,
        d1 <= dividers_within(left, right, d0, d1).0 + 9 ==> dividers_within(left, right, d0, d1).1
            == dividers_within(left, right, d0, d1).0 + 9,
{
}

/// A divider is taken hold of by pressing on it, moved by moving, and let go by releasing. The bounds
/// never change; without a divider held, moving and releasing are the panes'.
pub proof fn dividers_are_dragged(s: Split, ev: SplitEvent)
    ensures
        dragged(s, ev).0.bounds == s.bounds,
        !dragged(s, ev).1 ==> dragged(s, ev).0 == s,
        ev is Other ==> !dragged(s, ev).1,
        (ev is Move || ev is Up) ==> (dragged(s, ev).1 <==> s.dragging is Some),
        ev is Up ==> dragged(s, ev).0 == (Split { dragging: None, ..s }),
        ev matches SplitEvent::Down { x, y } ==> {
            &&& dragged(s, ev).1 <==> s.bounds.ay <= y < s.bounds.by && (x == s.d0 || x == s.d1)
            &&& dragged(s, ev).1 && x == s.d0 ==> dragged(s, ev).0 == (Split {
                dragging: Some(0),
                ..s
            })
            &&& dragged(s, ev).1 && x != s.d0 ==> dragged(s, ev).0 == (Split {
                dragging: Some(1),
                ..s
            })
        },
        ev matches SplitEvent::Move { x } ==> s.dragging is Some ==> dragged(s, ev).0.dragging
            == s.dragging,
        ev matches SplitEvent::Move { x } ==> s.dragging == Some(0usize) && x - s.bounds.ax >= 8 && s.d1
            - x >= 9 && s.bounds.bx - s.d1 >= 9 ==> dragged(s, ev).0 == (Split { d0: x, ..s }),
        ev matches SplitEvent::Move { x } ==> s.dragging == Some(1usize) && s.d0 - s.bounds.ax >= 8 && x
            - s.d0 >= 9 && s.bounds.bx - x >= 9 ==> dragged(s, ev).0 == (Split { d1: x, ..s }),
{
}

/// A quotient is rounded towards zero: what is left over is smaller than the divisor and has the sign
/// of the dividend.
pub proof fn quotients_round_towards_zero(n: int, d: int)
    requires
        d > 0,
    ensures
        n >= 0 ==> 0 <= n - quotient(n, d) * d < d,
        n <= 0 ==> -d < n - quotient(n, d) * d <= 0,
{
    if n >= 0 {
        vstd::arithmetic::div_mod::lemma_fundamental_div_mod(n, d);
        vstd::arithmetic::div_mod::lemma_mod_bound(n, d);
        assert(d * (n / d) == (n / d) * d) by (nonlinear_arith);
    } else {
        let m = -n;
        vstd::arithmetic::div_mod::lemma_fundamental_div_mod(m, d);
        vstd::arithmetic::div_mod::lemma_mod_bound(m, d);
        assert(d * (m / d) == (m / d) * d) by (nonlinear_arith);
        assert((-(m / d)) * d == -((m / d) * d)) by (nonlinear_arith);
    }
    if n == 0 {
        assert(quotient(0, d) == 0) by {
            vstd::arithmetic::div_mod::lemma_div_basics(d);
        }
    }
}

} // verus!
