//! Frames, the squares on which two frames differ, and the smallest
//! rectangle of squares that covers them.

use crate::board::{
    contains, highlight, highlight_uci, is_dark, lemma_board_diff, lemma_member_full_empty,
    lemma_member_or, lemma_member_single, lemma_member_xor, lemma_square_set, member, single,
    square_set, touches, uci_wf, Board, BoardView, Orientation, Square, Uci, EMPTY, FULL,
};
use crate::theme::SpriteKey;
use vstd::prelude::*;

verus! {

/// What a frame shows.
pub struct FrameView {
    /// The pieces.
    pub board: BoardView,
    /// The squares of the last move.
    pub highlighted: u64,
    /// The square of the king in check.
    pub checked: u64,
    /// How long the frame is shown, in hundredths of a second.
    pub delay: Option<u16>,
}

impl FrameView {
    /// The squares on which the two frames differ: in the king in check, in
    /// the highlight, or in one of the seven sets of the board.
    pub open spec fn diff(self, other: FrameView) -> u64 {
        (self.checked ^ other.checked) | (self.highlighted ^ other.highlighted) | self.board.diff(
            other.board,
        )
    }

    /// Whether the two frames show the same on `sq`.
    pub open spec fn same_at(self, other: FrameView, sq: u8) -> bool {
        &&& member(self.checked, sq) == member(other.checked, sq)
        &&& member(self.highlighted, sq) == member(other.highlighted, sq)
        &&& self.board.same_at(other.board, sq)
    }

    /// What is drawn on `sq`.
    pub open spec fn key_at(self, sq: u8) -> SpriteKey {
        SpriteKey {
            piece: self.board.piece_at(sq),
            dark_square: is_dark(sq),
            highlight: member(self.highlighted, sq),
            check: member(self.checked, sq),
        }
    }
}

/// The frame of a position with its last move and the square of the king in check.
pub open spec fn frame_of(
    board: BoardView,
    last_move: Option<Uci>,
    check: Option<Square>,
    delay: Option<u16>,
) -> FrameView {
    FrameView { board, highlighted: highlight(last_move), checked: square_set(check), delay }
}

/// A frame made of a position highlights the squares of the last move, at
/// most two, and marks the square of the king in check, at most one.
pub proof fn lemma_frame_of(
    board: BoardView,
    last_move: Option<Uci>,
    check: Option<Square>,
    delay: Option<u16>,
    sq: u8,
)
    requires
        sq < 64,
        uci_wf(last_move),
        check matches Some(c) ==> c.wf(),
    ensures
        member(frame_of(board, last_move, check, delay).highlighted, sq) <==> touches(
            last_move,
            sq,
        ),
        member(frame_of(board, last_move, check, delay).checked, sq) <==> (check matches Some(c)
            && c@ == sq),
{
    lemma_square_set(check, sq);
    match last_move {
        Some(Uci::Normal { from, to }) => {
            lemma_member_or(single(from@), single(to@), sq);
            lemma_member_single(from@, sq);
            lemma_member_single(to@, sq);
        },
        Some(Uci::Put { to }) => {
            lemma_member_single(to@, sq);
        },
        _ => {
            lemma_member_full_empty(sq);
        },
    }
}

/// The squares to draw for `frame` when `prev` is on screen: all of them
/// if nothing is, else those on which the two differ.
pub open spec fn changed(prev: Option<FrameView>, frame: FrameView) -> u64 {
    match prev {
        Some(p) => p.diff(frame),
        None => FULL,
    }
}

/// A square is in the difference of two frames exactly if they do not show the same on it.
pub proof fn lemma_frame_diff(a: FrameView, b: FrameView, sq: u8)
    requires
        sq < 64,
    ensures
        member(a.diff(b), sq) == !a.same_at(b, sq),
{
    let c = a.checked ^ b.checked;
    let h = a.highlighted ^ b.highlighted;
    lemma_member_xor(a.checked, b.checked, sq);
    lemma_member_xor(a.highlighted, b.highlighted, sq);
    lemma_board_diff(a.board, b.board, sq);
    lemma_member_or(c, h, sq);
    lemma_member_or(c | h, a.board.diff(b.board), sq);
}

/// One board state to render.
#[derive(Clone, Copy, Debug)]
pub struct RenderFrame {
    board: Board,
    highlighted: u64,
    checked: u64,
    delay: Option<u16>,
}

impl RenderFrame {
    /// What the frame shows.
    pub closed spec fn view(&self) -> FrameView {
        FrameView {
            board: self.board@,
            highlighted: self.highlighted,
            checked: self.checked,
            delay: self.delay,
        }
    }

    /// The frame of a position: the squares of the last move are
    /// highlighted, and the square `check`, if given, holds the king in check.
    pub fn new(
        board: Board,
        last_move: Option<Uci>,
        check: Option<Square>,
        delay: Option<u16>,
    ) -> (frame: RenderFrame)
        requires
            uci_wf(last_move),
            check matches Some(sq) ==> sq.wf(),
        ensures
            frame@ == frame_of(board@, last_move, check, delay),
    {
        let checked = match check {
            Some(sq) => sq.to_set(),
            None => EMPTY,
        };
        RenderFrame { board, highlighted: highlight_uci(last_move), checked, delay }
    }

    /// The pieces.
    pub fn board(&self) -> (board: &Board)
        ensures
            board@ == self@.board,
    {
        &self.board
    }

    /// The squares of the last move.
    pub fn highlighted(&self) -> (bits: u64)
        ensures
            bits == self@.highlighted,
    {
        self.highlighted
    }

    /// The square of the king in check.
    pub fn checked(&self) -> (bits: u64)
        ensures
            bits == self@.checked,
    {
        self.checked
    }

    /// How long the frame is shown, in hundredths of a second.
    pub fn delay(&self) -> (delay: Option<u16>)
        ensures
            delay == self@.delay,
    {
        self.delay
    }

    /// The squares on which `self`, the frame on screen, and `next` differ.
    pub fn diff(&self, next: &RenderFrame) -> (bits: u64)
        ensures
            bits == self@.diff(next@),
            forall|sq: u8| sq < 64 ==> (#[trigger] member(bits, sq) <==> !self@.same_at(next@, sq)),
    {
        let bits = (self.checked ^ next.checked) | (self.highlighted ^ next.highlighted) | ((
        self.board.white() ^ next.board.white()) | (self.board.pawns() ^ next.board.pawns()) | (
        self.board.knights() ^ next.board.knights()) | (self.board.bishops()
            ^ next.board.bishops()) | (self.board.rooks() ^ next.board.rooks()) | (
        self.board.queens() ^ next.board.queens()) | (self.board.kings() ^ next.board.kings()));
        proof {
            assert forall|sq: u8| sq < 64 implies (#[trigger] member(bits, sq) <==> !self@.same_at(
                next@,
                sq,
            )) by {
                lemma_frame_diff(self@, next@, sq);
            }
        }
        bits
    }

    /// What is drawn on `sq`.
    pub fn key_at(&self, sq: Square) -> (key: SpriteKey)
        requires
            sq.wf(),
        ensures
            key == self@.key_at(sq@),
    {
        SpriteKey {
            piece: self.board.piece_at(sq),
            dark_square: sq.is_dark(),
            highlight: contains(self.highlighted, sq.index()),
            check: contains(self.checked, sq.index()),
        }
    }
}

/// The view of a frame that may be missing.
pub open spec fn frame_view(frame: Option<&RenderFrame>) -> Option<FrameView> {
    match frame {
        Some(f) => Some(f@),
        None => None,
    }
}

/// Whether a square to draw lies on column `x` of the canvas.
pub open spec fn col_changed(o: Orientation, diff: u64, x: int) -> bool {
    exists|sq: u8| #[trigger] member(diff, sq) && o.spec_x(sq) == x
}

/// Whether a square to draw lies on row `y` of the canvas.
pub open spec fn row_changed(o: Orientation, diff: u64, y: int) -> bool {
    exists|sq: u8| #[trigger] member(diff, sq) && o.spec_y(sq) == y
}

/// For each column of the canvas, whether it holds a square to draw.
pub open spec fn cols(o: Orientation, diff: u64) -> Seq<bool> {
    Seq::new(8, |x: int| col_changed(o, diff, x))
}

/// For each row of the canvas, whether it holds a square to draw.
pub open spec fn rows(o: Orientation, diff: u64) -> Seq<bool> {
    Seq::new(8, |y: int| row_changed(o, diff, y))
}

/// The first place from `from` on at which `flags` is set, or 0.
pub open spec fn first_set(flags: Seq<bool>, from: int) -> int
    decreases flags.len() - from,
{
    if from < 0 || from >= flags.len() {
        0
    } else if flags[from] {
        from
    } else {
        first_set(flags, from + 1)
    }
}

/// The last place below `upto` at which `flags` is set, or 0.
pub open spec fn last_set(flags: Seq<bool>, upto: int) -> int
    decreases upto,
{
    if upto <= 0 || upto > flags.len() {
        0
    } else if flags[upto - 1] {
        upto - 1
    } else {
        last_set(flags, upto - 1)
    }
}

/// A rectangle of squares of the canvas: the columns from `x_min` up to, not
/// including, `x_max`, and the rows from `y_min` up to, not including, `y_max`.
pub struct TileBox {
    pub x_min: int,
    pub y_min: int,
    pub x_max: int,
    pub y_max: int,
}

impl TileBox {
    /// The rectangle is not empty and lies on the canvas.
    pub open spec fn wf(self) -> bool {
        0 <= self.x_min < self.x_max <= 8 && 0 <= self.y_min < self.y_max <= 8
    }

    /// The number of columns.
    pub open spec fn cols(self) -> int {
        self.x_max - self.x_min
    }

    /// The number of rows.
    pub open spec fn rows(self) -> int {
        self.y_max - self.y_min
    }
}

/// The smallest rectangle that covers the squares to draw; the
/// top left square alone if there is none.
pub open spec fn tile_box(o: Orientation, diff: u64) -> TileBox {
    TileBox {
        x_min: first_set(cols(o, diff), 0),
        y_min: first_set(rows(o, diff), 0),
        x_max: last_set(cols(o, diff), 8) + 1,
        y_max: last_set(rows(o, diff), 8) + 1,
    }
}

/// If `flags` is set at `at` and nowhere from `from` up to `at`, then `at`
/// is the first place from `from` on at which it is set.
pub proof fn lemma_first_set(flags: Seq<bool>, from: int, at: int)
    requires
        0 <= from <= at < flags.len(),
        flags[at],
        forall|k: int| from <= k < at ==> !flags[k],
    ensures
        first_set(flags, from) == at,
    decreases at - from,
{
    if from < at {
        lemma_first_set(flags, from + 1, at);
    }
}

/// If `flags` is set at `at` and nowhere behind `at` below `upto`, then `at`
/// is the last place below `upto` at which it is set.
pub proof fn lemma_last_set(flags: Seq<bool>, upto: int, at: int)
    requires
        0 <= at < upto <= flags.len(),
        flags[at],
        forall|k: int| at < k < upto ==> !flags[k],
    ensures
        last_set(flags, upto) == at,
    decreases upto - at,
{
    if at < upto - 1 {
        lemma_last_set(flags, upto - 1, at);
    }
}

/// The first place at which `flags` is set lies before every other, and the
/// last one behind every other; where `flags` is set nowhere, both are 0.
pub proof fn lemma_first_last(flags: Seq<bool>, from: int, upto: int)
    requires
        0 <= from <= flags.len(),
        0 <= upto <= flags.len(),
    ensures
        0 <= first_set(flags, from),
        forall|k: int|
            from <= k < flags.len() && #[trigger] flags[k] ==> from <= first_set(flags, from) <= k && flags[first_set(
                flags,
                from,
            )],
        (forall|k: int| from <= k < flags.len() ==> !flags[k]) ==> first_set(flags, from) == 0,
        0 <= last_set(flags, upto),
        forall|k: int|
            0 <= k < upto && #[trigger] flags[k] ==> k <= last_set(flags, upto) < upto && flags[last_set(
                flags,
                upto,
            )],
        (forall|k: int| 0 <= k < upto ==> !flags[k]) ==> last_set(flags, upto) == 0,
    decreases flags.len() - from, upto,
{
    if from < flags.len() {
        lemma_first_last(flags, from + 1, 0);
    }
    if upto > 0 {
        lemma_first_last(flags, flags.len() as int, upto - 1);
    }
}

/// The rectangle of the squares to draw is not empty and lies on the
/// canvas; it covers every square to draw, and if there is one, each of its
/// four edges holds one.
pub proof fn lemma_tile_box(o: Orientation, diff: u64)
    ensures
        tile_box(o, diff).wf(),
        forall|sq: u8| #[trigger]
            member(diff, sq) ==> tile_box(o, diff).x_min <= o.spec_x(sq) < tile_box(o, diff).x_max
                && tile_box(o, diff).y_min <= o.spec_y(sq) < tile_box(o, diff).y_max,
        (exists|sq: u8| member(diff, sq)) ==> {
            &&& col_changed(o, diff, tile_box(o, diff).x_min)
            &&& col_changed(o, diff, tile_box(o, diff).x_max - 1)
            &&& row_changed(o, diff, tile_box(o, diff).y_min)
            &&& row_changed(o, diff, tile_box(o, diff).y_max - 1)
        },
{
    let c = cols(o, diff);
    let r = rows(o, diff);
    lemma_first_last(c, 0, 8);
    lemma_first_last(r, 0, 8);
    assert forall|sq: u8| #[trigger] member(diff, sq) implies tile_box(o, diff).x_min <= o.spec_x(
        sq,
    ) < tile_box(o, diff).x_max && tile_box(o, diff).y_min <= o.spec_y(sq) < tile_box(
        o,
        diff,
    ).y_max by {
        assert(c[o.spec_x(sq)]);
        assert(r[o.spec_y(sq)]);
    }
    if exists|sq: u8| member(diff, sq) {
        let sq = choose|sq: u8| member(diff, sq);
        assert(c[o.spec_x(sq)]);
        assert(r[o.spec_y(sq)]);
    }
}

/// Without a square to draw, the rectangle is the top left square.
pub proof fn lemma_no_change(o: Orientation, diff: u64)
    requires
        forall|sq: u8| !member(diff, sq),
    ensures
        tile_box(o, diff) == (TileBox { x_min: 0, y_min: 0, x_max: 1, y_max: 1 }),
{
    lemma_first_last(cols(o, diff), 0, 8);
    lemma_first_last(rows(o, diff), 0, 8);
}

/// With every square to draw, the rectangle is the whole canvas.
pub proof fn lemma_full_box(o: Orientation)
    ensures
        tile_box(o, FULL) == (TileBox { x_min: 0, y_min: 0, x_max: 8, y_max: 8 }),
{
    let first = o.square_at(0, 0);
    let last = o.square_at(7, 7);
    lemma_member_full_empty(first);
    lemma_member_full_empty(last);
    assert(member(FULL, first) && o.spec_x(first) == 0 && o.spec_y(first) == 0);
    assert(member(FULL, last) && o.spec_x(last) == 7 && o.spec_y(last) == 7);
    lemma_tile_box(o, FULL);
}

/// With one square to draw, the rectangle is that square.
pub proof fn lemma_single_box(o: Orientation, diff: u64, sq: u8)
    requires
        sq < 64,
        forall|other: u8| #[trigger] member(diff, other) <==> other == sq,
    ensures
        tile_box(o, diff) == (TileBox {
            x_min: o.spec_x(sq),
            y_min: o.spec_y(sq),
            x_max: o.spec_x(sq) + 1,
            y_max: o.spec_y(sq) + 1,
        }),
{
    assert(member(diff, sq));
    lemma_tile_box(o, diff);
}

/// The rectangle of the squares to draw: its first column and row, and
/// the column and row behind its last.
pub fn bounding_box(o: Orientation, diff: u64) -> (b: (usize, usize, usize, usize))
    ensures
        b.0 == tile_box(o, diff).x_min,
        b.1 == tile_box(o, diff).y_min,
        b.2 == tile_box(o, diff).x_max,
        b.3 == tile_box(o, diff).y_max,
        tile_box(o, diff).wf(),
        forall|sq: u8| #[trigger]
            member(diff, sq) ==> b.0 <= o.spec_x(sq) < b.2 && b.1 <= o.spec_y(sq) < b.3,
{
    let mut found = false;
    let mut x_min: usize = 0;
    let mut y_min: usize = 0;
    let mut x_max: usize = 0;
    let mut y_max: usize = 0;
    let ghost mut at_x_min: u8 = 0;
    let ghost mut at_y_min: u8 = 0;
    let ghost mut at_x_max: u8 = 0;
    let ghost mut at_y_max: u8 = 0;
    let mut i: u8 = 0;
    while i < 64
        invariant
            i <= 64,
            !found ==> x_min == 0 && y_min == 0 && x_max == 0 && y_max == 0,
            !found ==> forall|sq: u8| sq < i ==> !#[trigger] member(diff, sq),
            found ==> member(diff, at_x_min) && o.spec_x(at_x_min) == x_min,
            found ==> member(diff, at_x_max) && o.spec_x(at_x_max) == x_max,
            found ==> member(diff, at_y_min) && o.spec_y(at_y_min) == y_min,
            found ==> member(diff, at_y_max) && o.spec_y(at_y_max) == y_max,
            x_min <= x_max < 8,
            y_min <= y_max < 8,
            forall|sq: u8|
                sq < i && #[trigger] member(diff, sq) ==> x_min <= o.spec_x(sq) <= x_max && y_min
                    <= o.spec_y(sq) <= y_max,
        decreases 64 - i,
    {
        if contains(diff, i) {
            let sq = Square::new(i).unwrap();
            let x = o.x(sq);
            let y = o.y(sq);
            if !found || x < x_min {
                x_min = x;
                proof {
                    at_x_min = i;
                }
            }
            if !found || x > x_max {
                x_max = x;
                proof {
                    at_x_max = i;
                }
            }
            if !found || y < y_min {
                y_min = y;
                proof {
                    at_y_min = i;
                }
            }
            if !found || y > y_max {
                y_max = y;
                proof {
                    at_y_max = i;
                }
            }
            found = true;
        }
        i += 1;
    }
    proof {
        let c = cols(o, diff);
        let r = rows(o, diff);
        if found {
            lemma_first_set(c, 0, x_min as int);
            lemma_last_set(c, 8, x_max as int);
            lemma_first_set(r, 0, y_min as int);
            lemma_last_set(r, 8, y_max as int);
        } else {
            lemma_no_change(o, diff);
        }
    }
    (x_min, y_min, x_max + 1, y_max + 1)
}

} // verus!
