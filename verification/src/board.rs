//! Squares, sets of squares, pieces and positions.
//!
//! A set of squares is a `u64`: bit `i` stands for square `i`, where square
//! `8 * rank + file` lies on the given rank and file (both counted from 0,
//! so square 0 is a1 and square 63 is h8).

use vstd::prelude::*;

verus! {

/// Whether square `sq` is a member of the set `bits`.
pub open spec fn member(bits: u64, sq: u8) -> bool {
    sq < 64 && (bits >> (sq as u64)) & 1 == 1
}

/// The set that holds `sq` and nothing else.
pub open spec fn single(sq: u8) -> u64 {
    1u64 << (sq as u64)
}

/// The set of all 64 squares.
pub const FULL: u64 = 0xffff_ffff_ffff_ffff;

/// The set without squares.
pub const EMPTY: u64 = 0;

/// Membership test.
pub fn contains(bits: u64, sq: u8) -> (found: bool)
    requires
        sq < 64,
    ensures
        found == member(bits, sq),
{
    (bits >> (sq as u64)) & 1 == 1
}

/// A square is in the symmetric difference of two sets exactly if it is in one of them only.
pub proof fn lemma_member_xor(a: u64, b: u64, sq: u8)
    requires
        sq < 64,
    ensures
        member(a ^ b, sq) == (member(a, sq) != member(b, sq)),
{
    let s = sq as u64;
    assert((((a ^ b) >> s) & 1 == 1) == (((a >> s) & 1 == 1) != ((b >> s) & 1 == 1)))
        by (bit_vector)
        requires
            s < 64,
    ;
}

/// A square is in the union of two sets exactly if it is in one of them.
pub proof fn lemma_member_or(a: u64, b: u64, sq: u8)
    requires
        sq < 64,
    ensures
        member(a | b, sq) == (member(a, sq) || member(b, sq)),
{
    let s = sq as u64;
    assert((((a | b) >> s) & 1 == 1) == (((a >> s) & 1 == 1) || ((b >> s) & 1 == 1)))
        by (bit_vector)
        requires
            s < 64,
    ;
}

/// Every square is in the full set and none in the empty one.
pub proof fn lemma_member_full_empty(sq: u8)
    requires
        sq < 64,
    ensures
        member(FULL, sq),
        !member(EMPTY, sq),
{
    let s = sq as u64;
    assert((0xffff_ffff_ffff_ffffu64 >> s) & 1 == 1) by (bit_vector)
        requires
            s < 64,
    ;
    assert((0u64 >> s) & 1 == 0) by (bit_vector);
}

/// The singleton of `sq` holds `sq` alone.
pub proof fn lemma_member_single(sq: u8, other: u8)
    requires
        sq < 64,
        other < 64,
    ensures
        member(single(sq), other) == (other == sq),
{
    let s = sq as u64;
    let t = other as u64;
    assert((((1u64 << s) >> t) & 1 == 1) == (t == s)) by (bit_vector)
        requires
            s < 64,
            t < 64,
    ;
}

/// One of the 64 squares of the board.
#[derive(Clone, Copy, Debug)]
pub struct Square {
    index: u8,
}

impl Square {
    /// The square's number, below 64.
    pub closed spec fn view(self) -> u8 {
        self.index
    }

    /// Holds of every square that `new` hands out.
    pub open spec fn wf(self) -> bool {
        self@ < 64
    }

    /// The square with the given number, if there is one.
    pub fn new(index: u8) -> (square: Option<Square>)
        ensures
            square.is_some() <==> index < 64,
            square matches Some(sq) ==> sq@ == index && sq.wf(),
    {
        if index < 64 {
            Some(Square { index })
        } else {
            None
        }
    }

    /// The square's number.
    pub fn index(self) -> (index: u8)
        ensures
            index == self@,
    {
        self.index
    }

    /// The file, from 0 for the a-file to 7 for the h-file.
    pub fn file(self) -> (file: u8)
        ensures
            file == file_of(self@),
    {
        self.index % 8
    }

    /// The rank, from 0 for the first rank to 7 for the eighth.
    pub fn rank(self) -> (rank: u8)
        ensures
            rank == rank_of(self@),
    {
        self.index / 8
    }

    /// Whether the square is a dark one, as a1 is.
    pub fn is_dark(self) -> (dark: bool)
        ensures
            dark == is_dark(self@),
    {
        (self.index / 8 + self.index % 8) % 2 == 0
    }

    /// The set that holds this square alone.
    pub fn to_set(self) -> (bits: u64)
        requires
            self.wf(),
        ensures
            bits == single(self@),
            forall|sq: u8| sq < 64 ==> (#[trigger] member(bits, sq) <==> sq == self@),
    {
        let bits = 1u64 << (self.index as u64);
        proof {
            assert forall|sq: u8| sq < 64 implies (#[trigger] member(bits, sq) <==> sq == self@) by {
                lemma_member_single(self@, sq);
            }
        }
        bits
    }
}

/// The file of square `sq`.
pub open spec fn file_of(sq: u8) -> u8 {
    sq % 8
}

/// The rank of square `sq`.
pub open spec fn rank_of(sq: u8) -> u8 {
    sq / 8
}

/// Dark squares are those whose rank and file add up to an even number.
pub open spec fn is_dark(sq: u8) -> bool {
    (rank_of(sq) + file_of(sq)) % 2 == 0
}

/// The side a piece belongs to.
#[derive(Clone, Copy, Debug, PartialEq, Eq, Structural)]
pub enum Color {
    Black,
    White,
}

impl Color {
    /// Whether this is the white side.
    pub fn is_white(self) -> (white: bool)
        ensures
            white == (self == Color::White),
    {
        match self {
            Color::White => true,
            Color::Black => false,
        }
    }

    /// White for `true`, black for `false`.
    pub fn from_white(white: bool) -> (color: Color)
        ensures
            color == (if white { Color::White } else { Color::Black }),
    {
        if white {
            Color::White
        } else {
            Color::Black
        }
    }
}

/// The kind of a piece.
#[derive(Clone, Copy, Debug, PartialEq, Eq, Structural)]
pub enum Role {
    Pawn,
    Knight,
    Bishop,
    Rook,
    Queen,
    King,
}

impl Role {
    /// The role's number: 1 for a pawn, then knight, bishop, rook, queen, and 6 for a king.
    pub open spec fn spec_index(self) -> int {
        match self {
            Role::Pawn => 1,
            Role::Knight => 2,
            Role::Bishop => 3,
            Role::Rook => 4,
            Role::Queen => 5,
            Role::King => 6,
        }
    }

    /// The role's number, from 1 to 6.
    pub fn index(self) -> (index: usize)
        ensures
            index == self.spec_index(),
    {
        match self {
            Role::Pawn => 1,
            Role::Knight => 2,
            Role::Bishop => 3,
            Role::Rook => 4,
            Role::Queen => 5,
            Role::King => 6,
        }
    }
}

/// A piece: its side and its kind.
#[derive(Clone, Copy, Debug, PartialEq, Eq, Structural)]
pub struct Piece {
    pub color: Color,
    pub role: Role,
}

/// The pieces on the board: one set of squares for each role, and the set of
/// squares that hold a white piece.
#[derive(Clone, Copy, Debug)]
pub struct Board {
    pawns: u64,
    knights: u64,
    bishops: u64,
    rooks: u64,
    queens: u64,
    kings: u64,
    white: u64,
}

/// What a board is made of, as plain sets.
pub struct BoardView {
    pub pawns: u64,
    pub knights: u64,
    pub bishops: u64,
    pub rooks: u64,
    pub queens: u64,
    pub kings: u64,
    pub white: u64,
}

impl BoardView {
    /// The squares that hold a piece.
    pub open spec fn occupied(self) -> u64 {
        self.pawns | self.knights | self.bishops | self.rooks | self.queens | self.kings
    }

    /// The sets form a partition: no square is in two role sets, and every
    /// white square is occupied.
    pub open spec fn wf(self) -> bool {
        &&& self.pawns & (self.knights | self.bishops | self.rooks | self.queens | self.kings) == 0
        &&& self.knights & (self.bishops | self.rooks | self.queens | self.kings) == 0
        &&& self.bishops & (self.rooks | self.queens | self.kings) == 0
        &&& self.rooks & (self.queens | self.kings) == 0
        &&& self.queens & self.kings == 0
        &&& self.white & !self.occupied() == 0
    }

    /// The role of the piece on `sq`, if there is one.
    pub open spec fn role_at(self, sq: u8) -> Option<Role> {
        if member(self.pawns, sq) {
            Some(Role::Pawn)
        } else if member(self.knights, sq) {
            Some(Role::Knight)
        } else if member(self.bishops, sq) {
            Some(Role::Bishop)
        } else if member(self.rooks, sq) {
            Some(Role::Rook)
        } else if member(self.queens, sq) {
            Some(Role::Queen)
        } else if member(self.kings, sq) {
            Some(Role::King)
        } else {
            None
        }
    }

    /// The piece on `sq`, if there is one: white if `sq` is in the white set.
    pub open spec fn piece_at(self, sq: u8) -> Option<Piece> {
        match self.role_at(sq) {
            Some(role) => Some(
                Piece { color: if member(self.white, sq) { Color::White } else { Color::Black }, role },
            ),
            None => None,
        }
    }

    /// The squares on which two boards differ in one of their seven sets.
    pub open spec fn diff(self, other: BoardView) -> u64 {
        (self.white ^ other.white) | (self.pawns ^ other.pawns) | (self.knights ^ other.knights)
            | (self.bishops ^ other.bishops) | (self.rooks ^ other.rooks) | (self.queens
            ^ other.queens) | (self.kings ^ other.kings)
    }

    /// Whether two boards agree on `sq` in each of their seven sets.
    pub open spec fn same_at(self, other: BoardView, sq: u8) -> bool {
        &&& member(self.white, sq) == member(other.white, sq)
        &&& member(self.pawns, sq) == member(other.pawns, sq)
        &&& member(self.knights, sq) == member(other.knights, sq)
        &&& member(self.bishops, sq) == member(other.bishops, sq)
        &&& member(self.rooks, sq) == member(other.rooks, sq)
        &&& member(self.queens, sq) == member(other.queens, sq)
        &&& member(self.kings, sq) == member(other.kings, sq)
    }
}

/// A square is in the difference of two boards exactly if they disagree on it.
pub proof fn lemma_board_diff(a: BoardView, b: BoardView, sq: u8)
    requires
        sq < 64,
    ensures
        member(a.diff(b), sq) == !a.same_at(b, sq),
{
    let w = a.white ^ b.white;
    let p = a.pawns ^ b.pawns;
    let n = a.knights ^ b.knights;
    let bi = a.bishops ^ b.bishops;
    let r = a.rooks ^ b.rooks;
    let q = a.queens ^ b.queens;
    let k = a.kings ^ b.kings;
    lemma_member_xor(a.white, b.white, sq);
    lemma_member_xor(a.pawns, b.pawns, sq);
    lemma_member_xor(a.knights, b.knights, sq);
    lemma_member_xor(a.bishops, b.bishops, sq);
    lemma_member_xor(a.rooks, b.rooks, sq);
    lemma_member_xor(a.queens, b.queens, sq);
    lemma_member_xor(a.kings, b.kings, sq);
    lemma_member_or(w, p, sq);
    lemma_member_or(w | p, n, sq);
    lemma_member_or(w | p | n, bi, sq);
    lemma_member_or(w | p | n | bi, r, sq);
    lemma_member_or(w | p | n | bi | r, q, sq);
    lemma_member_or(w | p | n | bi | r | q, k, sq);
}

/// On a well-formed board a square is in at most one role set, and in the
/// white set only if it is in a role set.
pub proof fn lemma_partition(b: BoardView, sq: u8)
    requires
        b.wf(),
        sq < 64,
    ensures
        member(b.pawns, sq) ==> !member(b.knights, sq) && !member(b.bishops, sq) && !member(b.rooks, sq)
            && !member(b.queens, sq) && !member(b.kings, sq),
        member(b.knights, sq) ==> !member(b.bishops, sq) && !member(b.rooks, sq) && !member(b.queens, sq)
            && !member(b.kings, sq),
        member(b.bishops, sq) ==> !member(b.rooks, sq) && !member(b.queens, sq) && !member(b.kings, sq),
        member(b.rooks, sq) ==> !member(b.queens, sq) && !member(b.kings, sq),
        member(b.queens, sq) ==> !member(b.kings, sq),
        member(b.white, sq) ==> b.role_at(sq).is_some(),
{
    let s = sq as u64;
    let (p, n, bi, r, q, k, w) = (b.pawns, b.knights, b.bishops, b.rooks, b.queens, b.kings, b.white);
    assert(((p >> s) & 1 == 1) ==> !((n >> s) & 1 == 1) && !((bi >> s) & 1 == 1) && !((r >> s) & 1
        == 1) && !((q >> s) & 1 == 1) && !((k >> s) & 1 == 1)) by (bit_vector)
        requires
            s < 64,
            p & (n | bi | r | q | k) == 0,
    ;
    assert(((n >> s) & 1 == 1) ==> !((bi >> s) & 1 == 1) && !((r >> s) & 1 == 1) && !((q >> s) & 1
        == 1) && !((k >> s) & 1 == 1)) by (bit_vector)
        requires
            s < 64,
            n & (bi | r | q | k) == 0,
    ;
    assert(((bi >> s) & 1 == 1) ==> !((r >> s) & 1 == 1) && !((q >> s) & 1 == 1) && !((k >> s) & 1
        == 1)) by (bit_vector)
        requires
            s < 64,
            bi & (r | q | k) == 0,
    ;
    assert(((r >> s) & 1 == 1) ==> !((q >> s) & 1 == 1) && !((k >> s) & 1 == 1)) by (bit_vector)
        requires
            s < 64,
            r & (q | k) == 0,
    ;
    assert(((q >> s) & 1 == 1) ==> !((k >> s) & 1 == 1)) by (bit_vector)
        requires
            s < 64,
            q & k == 0,
    ;
    assert(((w >> s) & 1 == 1) ==> ((p >> s) & 1 == 1) || ((n >> s) & 1 == 1) || ((bi >> s) & 1
        == 1) || ((r >> s) & 1 == 1) || ((q >> s) & 1 == 1) || ((k >> s) & 1 == 1))
        by (bit_vector)
        requires
            s < 64,
            w & !(p | n | bi | r | q | k) == 0,
    ;
}

/// Two well-formed boards hold the same piece, or both none, on a square
/// exactly if they agree on it in each of their seven sets.
pub proof fn lemma_same_piece(a: BoardView, b: BoardView, sq: u8)
    requires
        a.wf(),
        b.wf(),
        sq < 64,
    ensures
        a.same_at(b, sq) <==> a.piece_at(sq) == b.piece_at(sq),
{
    lemma_partition(a, sq);
    lemma_partition(b, sq);
}

impl Board {
    /// The board as plain sets.
    pub closed spec fn view(self) -> BoardView {
        BoardView {
            pawns: self.pawns,
            knights: self.knights,
            bishops: self.bishops,
            rooks: self.rooks,
            queens: self.queens,
            kings: self.kings,
            white: self.white,
        }
    }

    /// The board without pieces.
    pub fn empty() -> (board: Board)
        ensures
            board@.wf(),
            board@ == (BoardView {
                pawns: 0,
                knights: 0,
                bishops: 0,
                rooks: 0,
                queens: 0,
                kings: 0,
                white: 0,
            }),
    {
        let board = Board {
            pawns: 0,
            knights: 0,
            bishops: 0,
            rooks: 0,
            queens: 0,
            kings: 0,
            white: 0,
        };
        assert(0u64 & (0u64 | 0u64 | 0u64 | 0u64 | 0u64) == 0 && 0u64 & (0u64 | 0u64 | 0u64 | 0u64)
            == 0 && 0u64 & (0u64 | 0u64 | 0u64) == 0 && 0u64 & (0u64 | 0u64) == 0 && 0u64 & 0u64
            == 0 && 0u64 & !(0u64 | 0u64 | 0u64 | 0u64 | 0u64 | 0u64) == 0) by (bit_vector);
        board
    }

    /// The board with the given role sets and white set, if they form a
    /// partition: no square in two role sets, every white square occupied.
    pub fn new(
        pawns: u64,
        knights: u64,
        bishops: u64,
        rooks: u64,
        queens: u64,
        kings: u64,
        white: u64,
    ) -> (board: Option<Board>)
        ensures
            board.is_some() <==> (BoardView {
                pawns,
                knights,
                bishops,
                rooks,
                queens,
                kings,
                white,
            }).wf(),
            board matches Some(b) ==> b@ == (BoardView {
                pawns,
                knights,
                bishops,
                rooks,
                queens,
                kings,
                white,
            }),
    {
        let occupied = pawns | knights | bishops | rooks | queens | kings;
        if pawns & (knights | bishops | rooks | queens | kings) == 0 && knights & (bishops | rooks
            | queens | kings) == 0 && bishops & (rooks | queens | kings) == 0 && rooks & (queens
            | kings) == 0 && queens & kings == 0 && white & !occupied == 0 {
            Some(Board { pawns, knights, bishops, rooks, queens, kings, white })
        } else {
            None
        }
    }

    /// The squares that hold a white piece.
    pub fn white(&self) -> (bits: u64)
        ensures
            bits == self@.white,
    {
        self.white
    }

    /// The squares that hold a pawn.
    pub fn pawns(&self) -> (bits: u64)
        ensures
            bits == self@.pawns,
    {
        self.pawns
    }

    /// The squares that hold a knight.
    pub fn knights(&self) -> (bits: u64)
        ensures
            bits == self@.knights,
    {
        self.knights
    }

    /// The squares that hold a bishop.
    pub fn bishops(&self) -> (bits: u64)
        ensures
            bits == self@.bishops,
    {
        self.bishops
    }

    /// The squares that hold a rook.
    pub fn rooks(&self) -> (bits: u64)
        ensures
            bits == self@.rooks,
    {
        self.rooks
    }

    /// The squares that hold a queen.
    pub fn queens(&self) -> (bits: u64)
        ensures
            bits == self@.queens,
    {
        self.queens
    }

    /// The squares that hold a king.
    pub fn kings(&self) -> (bits: u64)
        ensures
            bits == self@.kings,
    {
        self.kings
    }

    /// The piece on `sq`, if there is one.
    pub fn piece_at(&self, sq: Square) -> (piece: Option<Piece>)
        requires
            sq.wf(),
        ensures
            piece == self@.piece_at(sq@),
    {
        let i = sq.index();
        let role = if contains(self.pawns, i) {
            Role::Pawn
        } else if contains(self.knights, i) {
            Role::Knight
        } else if contains(self.bishops, i) {
            Role::Bishop
        } else if contains(self.rooks, i) {
            Role::Rook
        } else if contains(self.queens, i) {
            Role::Queen
        } else if contains(self.kings, i) {
            Role::King
        } else {
            return None;
        };
        Some(Piece { color: Color::from_white(contains(self.white, i)), role })
    }
}

/// Which side of the board faces the viewer.
#[derive(Clone, Copy, Debug, PartialEq, Eq, Structural)]
pub enum Orientation {
    White,
    Black,
}

impl Orientation {
    /// The column of the canvas, counted from the left, on which `sq` is drawn.
    pub open spec fn spec_x(self, sq: u8) -> int {
        match self {
            Orientation::White => file_of(sq) as int,
            Orientation::Black => 7 - file_of(sq),
        }
    }

    /// The row of the canvas, counted from the top, on which `sq` is drawn.
    pub open spec fn spec_y(self, sq: u8) -> int {
        match self {
            Orientation::White => 7 - rank_of(sq),
            Orientation::Black => rank_of(sq) as int,
        }
    }

    /// The square drawn on column `x` and row `y` of the canvas.
    pub open spec fn square_at(self, x: int, y: int) -> u8 {
        match self {
            Orientation::White => (8 * (7 - y) + x) as u8,
            Orientation::Black => (8 * y + (7 - x)) as u8,
        }
    }

    /// One of the two values, by orientation.
    pub fn fold<T>(self, white: T, black: T) -> (chosen: T)
        ensures
            chosen == (if self == Orientation::White { white } else { black }),
    {
        match self {
            Orientation::White => white,
            Orientation::Black => black,
        }
    }

    /// The column of the canvas on which `sq` is drawn, from 0 to 7.
    pub fn x(self, sq: Square) -> (x: usize)
        requires
            sq.wf(),
        ensures
            x == self.spec_x(sq@),
            x < 8,
    {
        let file = sq.file() as usize;
        self.fold(file, 7 - file)
    }

    /// The row of the canvas on which `sq` is drawn, from 0 to 7.
    pub fn y(self, sq: Square) -> (y: usize)
        requires
            sq.wf(),
        ensures
            y == self.spec_y(sq@),
            y < 8,
    {
        let rank = sq.rank() as usize;
        self.fold(7 - rank, rank)
    }
}

/// A square's column and row determine it, and every cell of the canvas
/// shows exactly one square.
pub proof fn lemma_square_at(o: Orientation, sq: u8)
    requires
        sq < 64,
    ensures
        0 <= o.spec_x(sq) < 8,
        0 <= o.spec_y(sq) < 8,
        o.square_at(o.spec_x(sq), o.spec_y(sq)) == sq,
{
}

/// The square drawn on a cell of the canvas is drawn on that cell.
pub proof fn lemma_cell_of_square_at(o: Orientation, x: int, y: int)
    requires
        0 <= x < 8,
        0 <= y < 8,
    ensures
        o.square_at(x, y) < 64,
        o.spec_x(o.square_at(x, y)) == x,
        o.spec_y(o.square_at(x, y)) == y,
{
}

/// Turning the board round mirrors it: the square on file `f` and rank `r`
/// is drawn, with white below, where the square on file `7 - f` and rank
/// `7 - r` is drawn with black below.
pub proof fn lemma_orientation_symmetry(sq: u8)
    requires
        sq < 64,
    ensures
        Orientation::White.spec_x(sq) == Orientation::Black.spec_x((63 - sq) as u8),
        Orientation::White.spec_y(sq) == Orientation::Black.spec_y((63 - sq) as u8),
        file_of((63 - sq) as u8) == 7 - file_of(sq),
        rank_of((63 - sq) as u8) == 7 - rank_of(sq),
        Orientation::Black.square_at(
            Orientation::White.spec_x(sq),
            Orientation::White.spec_y(sq),
        ) == 63 - sq,
{
}

/// A move in the notation of chess engines, as far as rendering needs it.
#[derive(Clone, Copy, Debug)]
pub enum Uci {
    /// A piece goes from one square to another.
    Normal { from: Square, to: Square },
    /// A piece is put on a square.
    Put { to: Square },
    /// No move.
    Null,
}

/// Whether `sq` is one of the squares that a move touches.
pub open spec fn touches(uci: Option<Uci>, sq: u8) -> bool {
    match uci {
        Some(Uci::Normal { from, to }) => sq == from@ || sq == to@,
        Some(Uci::Put { to }) => sq == to@,
        _ => false,
    }
}

/// Whether the squares that a move names are squares of the board.
pub open spec fn uci_wf(uci: Option<Uci>) -> bool {
    match uci {
        Some(Uci::Normal { from, to }) => from.wf() && to.wf(),
        Some(Uci::Put { to }) => to.wf(),
        _ => true,
    }
}

/// The set of the squares that a move touches.
pub open spec fn highlight(uci: Option<Uci>) -> u64 {
    match uci {
        Some(Uci::Normal { from, to }) => single(from@) | single(to@),
        Some(Uci::Put { to }) => single(to@),
        _ => EMPTY,
    }
}

/// The set that holds the given square, if there is one, and nothing else.
pub open spec fn square_set(square: Option<Square>) -> u64 {
    match square {
        Some(sq) => single(sq@),
        None => EMPTY,
    }
}

/// The set of the given square holds that square alone.
pub proof fn lemma_square_set(square: Option<Square>, sq: u8)
    requires
        sq < 64,
        square matches Some(s) ==> s.wf(),
    ensures
        member(square_set(square), sq) <==> (square matches Some(s) && s@ == sq),
{
    match square {
        Some(s) => lemma_member_single(s@, sq),
        None => lemma_member_full_empty(sq),
    }
}

/// The squares to highlight for the last move: where it started and where
/// it ended; for a piece put on the board, where it was put.
pub fn highlight_uci(uci: Option<Uci>) -> (bits: u64)
    requires
        uci_wf(uci),
    ensures
        bits == highlight(uci),
        forall|sq: u8| sq < 64 ==> (#[trigger] member(bits, sq) <==> touches(uci, sq)),
{
    match uci {
        Some(Uci::Normal { from, to }) => {
            let a = from.to_set();
            let b = to.to_set();
            proof {
                assert forall|sq: u8| sq < 64 implies (#[trigger] member(a | b, sq) <==> touches(
                    uci,
                    sq,
                )) by {
                    lemma_member_or(a, b, sq);
                }
            }
            a | b
        },
        Some(Uci::Put { to }) => to.to_set(),
        _ => {
            proof {
                assert forall|sq: u8| sq < 64 implies (#[trigger] member(EMPTY, sq) <==> touches(
                    uci,
                    sq,
                )) by {
                    lemma_member_full_empty(sq);
                }
            }
            EMPTY
        },
    }
}

} // verus!
