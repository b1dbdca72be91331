//! The geometry of the process table: where the column separators lie, which
//! one the pointer grabs, which column it is over, and how far a separator
//! may be dragged.
//!
//! Pixel coordinates are in thousandths of a pixel, relative to the top left
//! corner of the table's bounds; separators are in millionths of the width
//! of the drawing area, which is the bounds less a padding on every side.

use crate::message::Message;
use crate::tasks::TasksListChart;
use vstd::arithmetic::div_mod::{
    lemma_div_is_ordered, lemma_div_multiples_vanish, lemma_fundamental_div_mod,
    lemma_fundamental_div_mod_converse, lemma_multiply_divide_lt,
};
use vstd::prelude::*;
use vstd::string::{StrSliceExecFns, StringExecFns};

verus! {

/// The padding between the bounds and the drawing area.
pub const PADDING: i64 = 5_000;

/// The height of the header row and of every row below it.
pub const LINE_HEIGHT: i64 = 18_000;

/// How far from a separator the pointer still grabs it.
pub const GRAB: i64 = 2_500;

/// The least distance that a dragged separator keeps from its neighbours
/// and from the edges of the drawing area.
pub const MIN_GAP: i64 = 5_000;

/// The separator value that stands for the full width of the drawing area.
pub const SCALE: i64 = 1_000_000;

/// The right end, in separator units, of the last column for header clicks.
pub const SORT_REACH: i64 = 100_000_000;

/// The estimate of the width of one glyph.
pub const GLYPH: i64 = 6_000;

/// The number of separators of the table.
pub const SEPARATORS: usize = 6;

/// The width of the drawing area within bounds of the given width.
pub open spec fn inner(extent: i32) -> int {
    extent - 2 * PADDING
}

/// The horizontal pixel position of the separator value `sep` in a drawing
/// area of width `w`.
pub open spec fn separator_at(sep: int, w: int) -> int {
    PADDING + (sep * w) / (SCALE as int)
}

/// Whether the vertical position `y` lies in the header row.
pub open spec fn in_header(y: int) -> bool {
    PADDING <= y <= PADDING + LINE_HEIGHT
}

/// Whether the pointer at `x` is close enough to separator `i` to grab it.
pub open spec fn near(separators: Seq<u32>, w: int, x: int, i: int) -> bool {
    -GRAB <= x - separator_at(separators[i] as int, w) <= GRAB
}

/// The first separator from `from` on that the pointer at `x` is near.
pub open spec fn first_near(separators: Seq<u32>, w: int, x: int, from: int) -> Option<int>
    decreases separators.len() - from,
{
    if from < 0 || from >= separators.len() {
        None
    } else if near(separators, w, x, from) {
        Some(from)
    } else {
        first_near(separators, w, x, from + 1)
    }
}

/// The left edge of column `c` for header clicks, in separator units: the
/// left edge of the drawing area, then each separator in turn; behind the
/// last column stands its right end.
pub open spec fn sort_edge(separators: Seq<u32>, c: int) -> int {
    if c <= 0 {
        0
    } else if c <= separators.len() {
        separators[c - 1] as int
    } else {
        SORT_REACH as int
    }
}

/// Whether the pointer at `x` is over column `c`, clear of the separators.
pub open spec fn over(separators: Seq<u32>, w: int, x: int, c: int) -> bool {
    &&& x > separator_at(sort_edge(separators, c), w) + GRAB
    &&& x < separator_at(sort_edge(separators, c + 1), w) - GRAB
}

/// The first column from `from` on that the pointer at `x` is over.
pub open spec fn first_over(separators: Seq<u32>, w: int, x: int, from: int) -> Option<int>
    decreases separators.len() + 1 - from,
{
    if from < 0 || from > separators.len() {
        None
    } else if over(separators, w, x, from) {
        Some(from)
    } else {
        first_over(separators, w, x, from + 1)
    }
}

/// The neighbour below separator `selected`, in separator units: the
/// separator before it, or the left edge of the drawing area.
pub open spec fn lower_neighbour(separators: Seq<u32>, selected: int) -> int {
    if selected <= 0 {
        0
    } else {
        separators[selected - 1] as int
    }
}

/// The neighbour above separator `selected`, in separator units: the
/// separator behind it, or the right edge of the drawing area.
pub open spec fn upper_neighbour(separators: Seq<u32>, selected: int) -> int {
    if selected + 1 >= separators.len() {
        SCALE as int
    } else {
        separators[selected + 1] as int
    }
}

/// Whether separator `selected` may be dragged to the pixel position
/// `candidate`: the drawing area has a width, and the position keeps more
/// than the minimum gap from both neighbours.
pub open spec fn accepts(separators: Seq<u32>, w: int, selected: int, candidate: int) -> bool {
    &&& w > 0
    &&& candidate > separator_at(lower_neighbour(separators, selected), w) + MIN_GAP
    &&& candidate < separator_at(upper_neighbour(separators, selected), w) - MIN_GAP
}

/// The separator value of the pixel position `candidate`.
pub open spec fn dragged_to(w: int, candidate: int) -> int {
    ((candidate - PADDING) * SCALE) / w
}

/// Whether the separators are those of a table: six of them, strictly
/// increasing, all within the drawing area.
pub open spec fn separators_wf(separators: Seq<u32>) -> bool {
    &&& separators.len() == SEPARATORS
    &&& forall|i: int| 0 <= i < separators.len() ==> 0 < #[trigger] separators[i] < SCALE
    &&& forall|i: int, j: int|
        0 <= i < j < separators.len() ==> #[trigger] separators[i] < #[trigger] separators[j]
}

/// A position that a separator may be dragged to lies strictly between the
/// separator's neighbours.
pub proof fn lemma_accepted_between(lower: int, upper: int, w: int, candidate: int)
    requires
        0 <= lower < upper <= SCALE,
        0 < w <= 0x1_0000_0000,
        candidate > separator_at(lower, w) + MIN_GAP,
        candidate < separator_at(upper, w) - MIN_GAP,
    ensures
        lower < dragged_to(w, candidate) < upper,
{
    let scale = SCALE as int;
    let gap = MIN_GAP as int;
    let off = candidate - PADDING;
    let q1 = (lower * w) / scale;
    let q2 = (upper * w) / scale;
    lemma_fundamental_div_mod(lower * w, scale);
    lemma_fundamental_div_mod(upper * w, scale);
    assert(off >= q1 + gap + 1);
    assert(off <= q2 - gap - 1);
    assert(off * scale >= (q1 + gap + 1) * scale) by (nonlinear_arith)
        requires
            off >= q1 + gap + 1,
            scale > 0,
    ;
    assert((q1 + gap + 1) * scale == scale * q1 + gap * scale + scale) by (nonlinear_arith);
    assert((lower + 1) * w == lower * w + w) by (nonlinear_arith);
    assert(off * scale >= (lower + 1) * w);
    assert(off * scale <= (q2 - gap - 1) * scale) by (nonlinear_arith)
        requires
            off <= q2 - gap - 1,
            scale > 0,
    ;
    assert((q2 - gap - 1) * scale == scale * q2 - gap * scale - scale) by (nonlinear_arith);
    assert(off * scale < upper * w);
    lemma_div_is_ordered((lower + 1) * w, off * scale, w);
    lemma_div_multiples_vanish(lower + 1, w);
    assert((lower + 1) * w == w * (lower + 1)) by (nonlinear_arith);
    assert(upper * w == w * upper) by (nonlinear_arith);
    lemma_multiply_divide_lt(off * scale, w, upper);
}

/// The quotient of `a` by a positive `b`, rounded down.
pub fn floor_div(a: i64, b: i64) -> (r: i64)
    requires
        b > 0,
        a > i64::MIN,
    ensures
        r == a as int / b as int,
{
    if a >= 0 {
        a / b
    } else {
        let m: i64 = -a - 1;
        let q: i64 = m / b;
        proof {
            let bi = b as int;
            let qi = m as int / bi;
            let ri = m as int % bi;
            lemma_fundamental_div_mod(m as int, bi);
            assert(a as int == (-qi - 1) * bi + (bi - 1 - ri)) by (nonlinear_arith)
                requires
                    m as int == bi * qi + ri,
                    m as int == -(a as int) - 1,
            ;
            lemma_fundamental_div_mod_converse(a as int, bi, -qi - 1, bi - 1 - ri);
        }
        -q - 1
    }
}

/// The width of the drawing area within bounds of the given width.
pub fn inner_width(extent: i32) -> (r: i64)
    ensures
        r == inner(extent),
{
    extent as i64 - 2 * PADDING
}

/// The horizontal pixel position of the separator value `sep` in a drawing
/// area of width `w`.
pub fn separator_px(sep: i64, w: i64) -> (r: i64)
    requires
        0 <= sep <= SORT_REACH,
        -0x1_0000_0000 <= w <= 0x1_0000_0000,
    ensures
        r == separator_at(sep as int, w as int),
        -0x1_0000_0000 * 100 <= r <= 0x1_0000_0000 * 100 + PADDING,
{
    assert(-0x1_0000_0000 * 100_000_000 <= sep * w <= 0x1_0000_0000 * 100_000_000)
        by (nonlinear_arith)
        requires
            0 <= sep <= 100_000_000,
            -0x1_0000_0000 <= w <= 0x1_0000_0000,
    ;
    let product: i64 = sep * w;
    proof {
        let most: int = 0x1_0000_0000int * 100_000_000int;
        lemma_div_is_ordered(product as int, most, SCALE as int);
        lemma_div_is_ordered(-most, product as int, SCALE as int);
        assert((0x1_0000_0000 * 100_000_000) / 1_000_000 == 0x1_0000_0000 * 100) by (nonlinear_arith);
        assert((-0x1_0000_0000 * 100_000_000) / 1_000_000 == -0x1_0000_0000 * 100) by (nonlinear_arith);
    }
    PADDING + floor_div(product, SCALE)
}

/// Separators of which each is below the next are in order throughout.
pub proof fn lemma_chain(s: Seq<u32>, a: int, b: int)
    requires
        forall|k: int| 0 < k < s.len() ==> s[k - 1] < #[trigger] s[k],
        0 <= a < b < s.len(),
    ensures
        s[a] < s[b],
    decreases b - a,
{
    if a + 1 < b {
        lemma_chain(s, a, b - 1);
    }
}

/// A position of the pointer.
#[derive(Debug, Clone, Copy, PartialEq, Eq, Structural)]
pub struct Point {
    pub x: i32,
    pub y: i32,
}

/// A drag in progress.
#[derive(Debug, Clone, Copy, PartialEq, Eq, Structural)]
pub enum Pending {
    /// Separator `selected` was grabbed `diff` to the right of its exact
    /// position.
    One { selected: usize, diff: i32 },
}

/// What the pointer looks like over the table.
#[derive(Debug, Clone, Copy, PartialEq, Eq, Structural)]
pub enum Interaction {
    Idle,
    Pointer,
    ResizingHorizontally,
}

/// What the widget does with the pointer between two events.
#[derive(Debug, Clone, Copy, PartialEq, Eq, Structural)]
pub struct PointerState {
    /// The drag in progress, if any.
    pub pending: Option<Pending>,
    /// The look of the pointer.
    pub interaction: Interaction,
}

/// An event as the table sees it.
#[derive(Debug, Clone, Copy, PartialEq, Eq, Structural)]
pub enum PointerEvent {
    /// The left button went down.
    Pressed,
    /// The left button went up.
    Released,
    /// The pointer moved to the horizontal position `x`.
    Moved { x: i32 },
    /// Any other mouse event.
    OtherMouse,
    /// An event that is not of the mouse.
    Other,
}

/// Whether the table took an event.
#[derive(Debug, Clone, Copy, PartialEq, Eq, Structural)]
pub enum Status {
    Ignored,
    Captured,
}

/// What an event leads to: the state afterwards, whether the event was
/// taken, and the request that it stands for.
pub struct Outcome {
    pub state: PointerState,
    pub status: Status,
    pub message: Option<Message>,
}

impl PointerState {
    /// A drag in progress names one of the separators.
    pub open spec fn wf(self) -> bool {
        self.pending matches Some(Pending::One { selected, .. }) ==> selected < SEPARATORS
    }

    /// The state in which nothing is going on.
    pub fn new() -> (r: Self)
        ensures
            r == (PointerState { pending: None, interaction: Interaction::Idle }),
            r.wf(),
    {
        PointerState { pending: None, interaction: Interaction::Idle }
    }

    /// Whether a drag in progress names one of the separators.
    pub fn is_well_formed(&self) -> (r: bool)
        ensures
            r == self.wf(),
    {
        match self.pending {
            Some(Pending::One { selected, .. }) => selected < SEPARATORS,
            None => true,
        }
    }
}

impl Default for PointerState {
    fn default() -> (r: Self)
        ensures
            r == (PointerState { pending: None, interaction: Interaction::Idle }),
    {
        PointerState { pending: None, interaction: Interaction::Idle }
    }
}

/// What a press of the left button leads to. During a drag it changes
/// nothing. In the header row, near a separator, it starts a drag of the
/// first such separator and remembers how far from it the pointer stood;
/// over a column, it asks to sort by the first such column. Anywhere else
/// it only resets the look of the pointer.
pub open spec fn pressed(separators: Seq<u32>, state: PointerState, w: int, cursor: Point) -> Outcome {
    let grabbed = first_near(separators, w, cursor.x as int, 0);
    let column = first_over(separators, w, cursor.x as int, 0);
    if state.pending is Some {
        Outcome { state, status: Status::Captured, message: None }
    } else if in_header(cursor.y as int) && grabbed is Some {
        let selected = grabbed->Some_0;
        Outcome {
            state: PointerState {
                pending: Some(
                    Pending::One {
                        selected: selected as usize,
                        diff: (cursor.x - separator_at(separators[selected] as int, w)) as i32,
                    },
                ),
                interaction: Interaction::ResizingHorizontally,
            },
            status: Status::Captured,
            message: None,
        }
    } else if in_header(cursor.y as int) && column is Some {
        Outcome {
            state: PointerState { pending: None, interaction: Interaction::Pointer },
            status: Status::Captured,
            message: Some(Message::SortTasks(column->Some_0 as usize)),
        }
    } else {
        Outcome {
            state: PointerState { pending: None, interaction: Interaction::Idle },
            status: Status::Captured,
            message: None,
        }
    }
}

/// What a move of the pointer to `x` leads to. During a drag the separator
/// follows the pointer, less the distance remembered, if that position is
/// accepted; else nothing is asked. Without a drag only the look of the
/// pointer follows: resizing near a separator in the header row, pointing
/// elsewhere in the header row within the drawing area, idle otherwise.
pub open spec fn moved(
    separators: Seq<u32>,
    state: PointerState,
    w: int,
    cursor: Point,
    x: int,
) -> Outcome {
    match state.pending {
        Some(Pending::One { selected, diff }) => {
            let candidate = x - diff;
            Outcome {
                state,
                status: Status::Captured,
                message: if accepts(separators, w, selected as int, candidate) {
                    Some(Message::DraggedTask(selected, dragged_to(w, candidate) as u32))
                } else {
                    None
                },
            }
        },
        None => Outcome {
            state: PointerState {
                pending: None,
                interaction: if in_header(cursor.y as int) && first_near(separators, w, x, 0)
                    is Some {
                    Interaction::ResizingHorizontally
                } else if in_header(cursor.y as int) && cursor.x > PADDING + GRAB && cursor.x
                    < PADDING + w - GRAB {
                    Interaction::Pointer
                } else {
                    Interaction::Idle
                },
            },
            status: Status::Captured,
            message: None,
        },
    }
}

/// What an event leads to, for a table with the given separators within
/// bounds of width `extent`, the pointer being at `cursor` if it is
/// available. Without a pointer, and for events that are not of the mouse,
/// nothing happens and the event is not taken. A release ends a drag.
pub open spec fn step(
    separators: Seq<u32>,
    state: PointerState,
    event: PointerEvent,
    extent: i32,
    cursor: Option<Point>,
) -> Outcome {
    match cursor {
        None => Outcome { state, status: Status::Ignored, message: None },
        Some(at) => match event {
            PointerEvent::Pressed => pressed(separators, state, inner(extent), at),
            PointerEvent::Released => Outcome {
                state: PointerState { pending: None, interaction: state.interaction },
                status: Status::Captured,
                message: None,
            },
            PointerEvent::Moved { x } => moved(separators, state, inner(extent), at, x as int),
            PointerEvent::OtherMouse => Outcome { state, status: Status::Captured, message: None },
            PointerEvent::Other => Outcome { state, status: Status::Ignored, message: None },
        },
    }
}

/// Whatever an event leads to, a drag in progress still names a separator,
/// and a request to move a separator names one and puts it strictly between
/// its neighbours.
pub proof fn lemma_step_keeps_order(
    separators: Seq<u32>,
    state: PointerState,
    event: PointerEvent,
    extent: i32,
    cursor: Option<Point>,
)
    requires
        separators_wf(separators),
        state.wf(),
    ensures
        step(separators, state, event, extent, cursor).state.wf(),
        step(separators, state, event, extent, cursor).message matches Some(
            Message::DraggedTask(selected, place),
        ) ==> {
            &&& selected < SEPARATORS
            &&& lower_neighbour(separators, selected as int) < place < upper_neighbour(
                separators,
                selected as int,
            )
            &&& place == dragged_to(
                inner(extent),
                (event->Moved_x - state.pending->Some_0->One_diff) as int,
            )
        },
{
    let w = inner(extent);
    match cursor {
        None => {},
        Some(at) => match event {
            PointerEvent::Pressed => {
                lemma_first_near(separators, w, at.x as int, 0);
                lemma_first_over(separators, w, at.x as int, 0);
            },
            PointerEvent::Moved { x } => {
                match state.pending {
                    Some(Pending::One { selected, diff }) => {
                        let candidate = x - diff;
                        if accepts(separators, w, selected as int, candidate) {
                            lemma_accepted_between(
                                lower_neighbour(separators, selected as int),
                                upper_neighbour(separators, selected as int),
                                w,
                                candidate,
                            );
                        }
                    },
                    None => {},
                }
            },
            _ => {},
        },
    }
}

/// The first separator near the pointer, if there is one, is a separator
/// near the pointer, and none before it is.
pub proof fn lemma_first_near(separators: Seq<u32>, w: int, x: int, from: int)
    requires
        0 <= from,
    ensures
        match first_near(separators, w, x, from) {
            Some(i) => from <= i < separators.len() && near(separators, w, x, i) && forall|j: int|
                from <= j < i ==> !near(separators, w, x, j),
            None => forall|j: int| from <= j < separators.len() ==> !near(separators, w, x, j),
        },
    decreases separators.len() - from,
{
    if from < separators.len() && !near(separators, w, x, from) {
        lemma_first_near(separators, w, x, from + 1);
    }
}

/// The first column under the pointer, if there is one, is a column under
/// the pointer, and none before it is.
pub proof fn lemma_first_over(separators: Seq<u32>, w: int, x: int, from: int)
    requires
        0 <= from,
    ensures
        match first_over(separators, w, x, from) {
            Some(c) => from <= c <= separators.len() && over(separators, w, x, c) && forall|j: int|
                from <= j < c ==> !over(separators, w, x, j),
            None => forall|j: int| from <= j <= separators.len() ==> !over(separators, w, x, j),
        },
    decreases separators.len() + 1 - from,
{
    if from <= separators.len() && !over(separators, w, x, from) {
        lemma_first_over(separators, w, x, from + 1);
    }
}

impl TasksListChart {
    /// The separators are those of a table.
    pub open spec fn wf(&self) -> bool {
        separators_wf(self.separators@)
    }

    /// Whether the separators are those of a table.
    pub fn is_well_formed(&self) -> (r: bool)
        ensures
            r == self.wf(),
    {
        if self.separators.len() != SEPARATORS {
            return false;
        }
        let mut i: usize = 0;
        while i < SEPARATORS
            invariant
                self.separators@.len() == SEPARATORS,
                i <= SEPARATORS,
                forall|k: int| 0 <= k < i ==> 0 < #[trigger] self.separators@[k] < SCALE,
                forall|k: int| 0 < k < i ==> self.separators@[k - 1] < #[trigger] self.separators@[k],
            decreases SEPARATORS - i,
        {
            let here = self.separators[i];
            if here == 0 || here as i64 >= SCALE {
                return false;
            }
            if i > 0 && self.separators[i - 1] >= here {
                proof {
                    assert(!(self.separators@[i - 1] < self.separators@[i as int]));
                }
                return false;
            }
            i = i + 1;
        }
        proof {
            let s = self.separators@;
            assert forall|a: int, b: int| 0 <= a < b < s.len() implies #[trigger] s[a] < #[trigger] s[b] by {
                lemma_chain(s, a, b);
            }
        }
        true
    }

    /// The first separator that the pointer at `x` is near.
    pub fn find_near(&self, w: i64, x: i32) -> (r: Option<usize>)
        requires
            self.wf(),
            -0x1_0000_0000 <= w <= 0x1_0000_0000,
        ensures
            match r {
                Some(i) => first_near(self.separators@, w as int, x as int, 0) == Some(i as int),
                None => first_near(self.separators@, w as int, x as int, 0) is None,
            },
    {
        let mut i: usize = 0;
        while i < self.separators.len()
            invariant
                self.wf(),
                -0x1_0000_0000 <= w <= 0x1_0000_0000,
                i <= self.separators@.len(),
                first_near(self.separators@, w as int, x as int, 0) == first_near(
                    self.separators@,
                    w as int,
                    x as int,
                    i as int,
                ),
            decreases self.separators@.len() - i,
        {
            let distance = x as i64 - separator_px(self.separators[i] as i64, w);
            if -GRAB <= distance && distance <= GRAB {
                return Some(i);
            }
            i = i + 1;
        }
        None
    }

    /// The left edge of column `c` for header clicks, in separator units.
    fn edge(&self, c: usize) -> (r: i64)
        requires
            self.wf(),
        ensures
            r == sort_edge(self.separators@, c as int),
            0 <= r <= SORT_REACH,
    {
        if c == 0 {
            0
        } else if c <= self.separators.len() {
            self.separators[c - 1] as i64
        } else {
            SORT_REACH
        }
    }

    /// The first column that the pointer at `x` is over.
    pub fn find_over(&self, w: i64, x: i32) -> (r: Option<usize>)
        requires
            self.wf(),
            -0x1_0000_0000 <= w <= 0x1_0000_0000,
        ensures
            match r {
                Some(c) => first_over(self.separators@, w as int, x as int, 0) == Some(c as int),
                None => first_over(self.separators@, w as int, x as int, 0) is None,
            },
    {
        let mut c: usize = 0;
        while c <= self.separators.len()
            invariant
                self.wf(),
                -0x1_0000_0000 <= w <= 0x1_0000_0000,
                c <= self.separators@.len() + 1,
                first_over(self.separators@, w as int, x as int, 0) == first_over(
                    self.separators@,
                    w as int,
                    x as int,
                    c as int,
                ),
            decreases self.separators@.len() + 1 - c,
        {
            let left = separator_px(self.edge(c), w);
            let right = separator_px(self.edge(c + 1), w);
            if x as i64 > left + GRAB && (x as i64) < right - GRAB {
                return Some(c);
            }
            c = c + 1;
        }
        None
    }

    /// Whether separator `selected` may be dragged to the pixel position
    /// `candidate`.
    pub fn accepts_drag(&self, w: i64, selected: usize, candidate: i64) -> (r: bool)
        requires
            self.wf(),
            selected < SEPARATORS,
            -0x1_0000_0000 <= w <= 0x1_0000_0000,
        ensures
            r == accepts(self.separators@, w as int, selected as int, candidate as int),
    {
        let lower: i64 = if selected == 0 {
            0
        } else {
            self.separators[selected - 1] as i64
        };
        let upper: i64 = if selected + 1 >= self.separators.len() {
            SCALE
        } else {
            self.separators[selected + 1] as i64
        };
        w > 0 && candidate > separator_px(lower, w) + MIN_GAP && candidate < separator_px(upper, w)
            - MIN_GAP
    }

    /// Answers an event over the table; see [`step`]. The table itself is
    /// not changed: a drag asks for the move it stands for.
    pub fn update(
        &self,
        state: &mut PointerState,
        event: PointerEvent,
        extent: i32,
        cursor: Option<Point>,
    ) -> (r: (Status, Option<Message>))
        requires
            self.wf(),
            old(state).wf(),
        ensures
            final(state).wf(),
            (Outcome { state: *final(state), status: r.0, message: r.1 }) == step(
                self.separators@,
                *old(state),
                event,
                extent,
                cursor,
            ),
    {
        proof {
            lemma_step_keeps_order(self.separators@, *state, event, extent, cursor);
        }
        let at = match cursor {
            Some(at) => at,
            None => {
                return (Status::Ignored, None);
            },
        };
        let w = inner_width(extent);
        match event {
            PointerEvent::Pressed => {
                if state.pending.is_some() {
                    return (Status::Captured, None);
                }
                let header = PADDING <= at.y as i64 && at.y as i64 <= PADDING + LINE_HEIGHT;
                let grabbed = self.find_near(w, at.x);
                let column = self.find_over(w, at.x);
                proof {
                    lemma_first_near(self.separators@, w as int, at.x as int, 0);
                    lemma_first_over(self.separators@, w as int, at.x as int, 0);
                }
                if header && grabbed.is_some() {
                    let selected = grabbed.unwrap();
                    let diff = at.x as i64 - separator_px(self.separators[selected] as i64, w);
                    state.pending = Some(Pending::One { selected, diff: diff as i32 });
                    state.interaction = Interaction::ResizingHorizontally;
                    (Status::Captured, None)
                } else if header && column.is_some() {
                    state.interaction = Interaction::Pointer;
                    (Status::Captured, Some(Message::SortTasks(column.unwrap())))
                } else {
                    state.interaction = Interaction::Idle;
                    (Status::Captured, None)
                }
            },
            PointerEvent::Released => {
                state.pending = None;
                (Status::Captured, None)
            },
            PointerEvent::Moved { x } => {
                match state.pending {
                    Some(Pending::One { selected, diff }) => {
                        let candidate = x as i64 - diff as i64;
                        if self.accepts_drag(w, selected, candidate) {
                            proof {
                                lemma_accepted_between(
                                    lower_neighbour(self.separators@, selected as int),
                                    upper_neighbour(self.separators@, selected as int),
                                    w as int,
                                    candidate as int,
                                );
                            }
                            assert(-0x1_0000_0000 * 1_000_000 <= (candidate - PADDING) * SCALE
                                <= 0x1_0000_0000 * 1_000_000) by (nonlinear_arith)
                                requires
                                    -0x1_0000_0000 <= candidate - PADDING <= 0x1_0000_0000,
                                    SCALE == 1_000_000,
                            ;
                            let place = floor_div((candidate - PADDING) * SCALE, w);
                            (Status::Captured, Some(Message::DraggedTask(selected, place as u32)))
                        } else {
                            (Status::Captured, None)
                        }
                    },
                    None => {
                        let header = PADDING <= at.y as i64 && at.y as i64 <= PADDING
                            + LINE_HEIGHT;
                        let grabbed = self.find_near(w, x);
                        if header && grabbed.is_some() {
                            state.interaction = Interaction::ResizingHorizontally;
                        } else if header && at.x as i64 > PADDING + GRAB && (at.x as i64) < PADDING
                            + w - GRAB {
                            state.interaction = Interaction::Pointer;
                        } else {
                            state.interaction = Interaction::Idle;
                        }
                        (Status::Captured, None)
                    },
                }
            },
            PointerEvent::OtherMouse => (Status::Captured, None),
            PointerEvent::Other => (Status::Ignored, None),
        }
    }

    /// The look that the pointer should have over the table.
    pub fn mouse_interaction(&self, state: &PointerState) -> (r: Interaction)
        ensures
            r == state.interaction,
    {
        state.interaction
    }

    /// Moves separator `selected` to `place` if that is a separator and the
    /// place lies strictly between its neighbours; otherwise the table stays
    /// as it is. Says whether the separator moved.
    pub fn drag_separator(&mut self, selected: usize, place: u32) -> (r: bool)
        requires
            old(self).wf(),
        ensures
            final(self).wf(),
            r == (selected < SEPARATORS && lower_neighbour(old(self).separators@, selected as int)
                < place < upper_neighbour(old(self).separators@, selected as int)),
            final(self).separators@ == (if r {
                old(self).separators@.update(selected as int, place)
            } else {
                old(self).separators@
            }),
            final(self).process_info == old(self).process_info,
            final(self).item_sort == old(self).item_sort,
            final(self).rev == old(self).rev,
    {
        if selected >= self.separators.len() {
            return false;
        }
        let lower: i64 = if selected == 0 {
            0
        } else {
            self.separators[selected - 1] as i64
        };
        let upper: i64 = if selected + 1 >= self.separators.len() {
            SCALE
        } else {
            self.separators[selected + 1] as i64
        };
        if lower < place as i64 && (place as i64) < upper {
            self.separators[selected] = place;
            proof {
                let before = old(self).separators@;
                let after = self.separators@;
                assert forall|i: int, j: int| 0 <= i < j < after.len() implies #[trigger] after[i]
                    < #[trigger] after[j] by {
                    if i == selected {
                        if j > selected + 1 {
                            assert(before[selected + 1] < before[j]);
                        }
                    } else if j == selected {
                        if i < selected - 1 {
                            assert(before[i] < before[selected - 1]);
                        }
                    } else {
                        assert(before[i] < before[j]);
                    }
                }
                assert forall|i: int| 0 <= i < after.len() implies 0 < #[trigger] after[i]
                    < SCALE by {
                    if i != selected {
                        assert(after[i] == before[i]);
                    } else {
                        if selected > 0 {
                            assert(0 < before[selected - 1]);
                        }
                        if selected + 1 < before.len() {
                            assert(before[selected + 1] < SCALE);
                        }
                    }
                }
            }
            true
        } else {
            false
        }
    }
}

/// The number of glyphs that column `c` has room for in a drawing area of
/// width `w`: the width of the column by the width of a glyph, less two for
/// the dots that mark a cut; none in a drawing area without width.
pub open spec fn column_room(separators: Seq<u32>, w: int, c: int) -> int {
    let span = upper_neighbour(separators, c - 1) - lower_neighbour(separators, c);
    let glyphs = if w > 0 {
        (span * w) / (SCALE * GLYPH)
    } else {
        0
    };
    if glyphs > 2 {
        glyphs - 2
    } else {
        0
    }
}

/// The text as a cell with room for `room` glyphs shows it: whole if it
/// fits, else its first `room` characters and two dots.
pub open spec fn fitted(text: Seq<char>, room: int) -> Seq<char> {
    if text.len() > room {
        text.take(room) + ".."@
    } else {
        text
    }
}

/// The number of rows shown below the header in a drawing area of height
/// `h` for a list of `count` records: as many as fit above a last line kept
/// free.
pub open spec fn rows_shown(h: int, count: int) -> int {
    let fit = (h - LINE_HEIGHT) / (LINE_HEIGHT as int);
    if fit <= 0 {
        0
    } else if fit < count {
        fit
    } else {
        count
    }
}

/// The text as a cell with room for `room` glyphs shows it.
pub fn fit_text(text: &str, room: usize) -> (r: String)
    ensures
        r@ == fitted(text@, room as int),
{
    if text.unicode_len() > room {
        let mut r = String::from_str(text.substring_char(0, room));
        r.append("..");
        r
    } else {
        String::from_str(text)
    }
}

impl TasksListChart {
    /// The number of glyphs that column `c` has room for within bounds of
    /// width `extent`.
    pub fn column_capacity(&self, extent: i32, c: usize) -> (r: usize)
        requires
            self.wf(),
            c <= SEPARATORS,
        ensures
            r == column_room(self.separators@, inner(extent), c as int),
    {
        let w = inner_width(extent);
        let lower: i64 = if c == 0 {
            0
        } else {
            self.separators[c - 1] as i64
        };
        let upper: i64 = if c >= self.separators.len() {
            SCALE
        } else {
            self.separators[c] as i64
        };
        if w <= 0 {
            return 0;
        }
        let span = upper - lower;
        assert(0 <= span * w <= 1_000_000 * 0x1_0000_0000) by (nonlinear_arith)
            requires
                0 <= span <= 1_000_000,
                0 < w <= 0x1_0000_0000,
        ;
        let glyphs = (span * w) / (SCALE * GLYPH);
        if glyphs > 2 {
            (glyphs - 2) as usize
        } else {
            0
        }
    }

    /// Where the text of column `c` starts within bounds of width `extent`:
    /// two pixels right of the column's left edge.
    pub fn column_text_start(&self, extent: i32, c: usize) -> (r: i64)
        requires
            self.wf(),
            c <= SEPARATORS,
        ensures
            r == separator_at(lower_neighbour(self.separators@, c as int), inner(extent)) + 2_000,
    {
        let lower: i64 = if c == 0 {
            0
        } else {
            self.separators[c - 1] as i64
        };
        separator_px(lower, inner_width(extent)) + 2_000
    }

    /// The number of records shown within bounds of height `extent`.
    pub fn visible_rows(&self, extent: i32) -> (r: usize)
        ensures
            r == rows_shown(inner(extent), self.process_info@.len() as int),
    {
        let h = inner_width(extent);
        let fit = floor_div(h - LINE_HEIGHT, LINE_HEIGHT);
        if fit <= 0 {
            0
        } else if (fit as u64) < self.process_info.len() as u64 {
            fit as usize
        } else {
            self.process_info.len()
        }
    }
}

} // verus!
