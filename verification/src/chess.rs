//! Standard chess as a [`GameLogic`] collaborator: a 12×10 mailbox board
//! (two sentinel rows above and below and one sentinel file each side of
//! the 8×8 grid, for edge detection), packed square contents, legal-move
//! generation, and exactly inverse move application and undo.

use vstd::prelude::*;
use crate::game::{GameLogic, Player};
use crate::score::AbsScore;
use crate::tt::StateIdent;

verus! {

pub const PAWN: u8 = 1;

pub const ROOK: u8 = 2;

pub const KNIGHT: u8 = 3;

pub const BISHOP: u8 = 4;

pub const QUEEN: u8 = 5;

pub const KING: u8 = 6;

pub const PIECE_MASK: u8 = 15;

pub const MOVED: u8 = 16;

pub const OWNER: u8 = 32;

pub const OCCUPIED: u8 = 64;

pub const OUTSIDE: u8 = 128;

/// One square of the mailbox board, packed into a byte: four bits of
/// piece kind, then flags for moved, owner, occupied and outside.
#[derive(Debug, Clone, Copy, PartialEq, Eq, Structural)]
pub struct SquareContents {
    pub state: u8,
}

impl SquareContents {
    /// A sentinel square beyond the edge of the board.
    pub fn outside() -> (r: Self)
        ensures
            r.state == OUTSIDE,
    {
        Self { state: OUTSIDE }
    }

    /// Whether this square lies beyond the edge, at the specification
    /// level.
    pub open spec fn spec_is_outside(self) -> bool {
        self.state & OUTSIDE != 0
    }

    /// Whether this square lies beyond the edge.
    pub fn is_outside(self) -> (r: bool)
        ensures
            r == self.spec_is_outside(),
    {
        self.state & OUTSIDE != 0
    }

    /// An empty playable square.
    pub fn empty() -> (r: Self)
        ensures
            r.state == 0,
    {
        Self { state: 0 }
    }

    /// Whether no piece stands here, at the specification level.
    pub open spec fn spec_is_empty(self) -> bool {
        self.state & OCCUPIED == 0
    }

    /// Whether no piece stands here.
    pub fn is_empty(self) -> (r: bool)
        requires
            !self.spec_is_outside(),
        ensures
            r == self.spec_is_empty(),
    {
        self.state & OCCUPIED == 0
    }

    /// The same square with its piece marked as having moved.
    pub fn moved(self) -> (r: Self)
        ensures
            r.state == self.state | MOVED,
    {
        Self { state: self.state | MOVED }
    }

    /// Whether the piece here has moved, at the specification level.
    pub open spec fn spec_is_moved(self) -> bool {
        self.state & MOVED != 0
    }

    /// Whether the piece here has moved.
    pub fn is_moved(self) -> (r: bool)
        requires
            !self.spec_is_outside(),
        ensures
            r == self.spec_is_moved(),
    {
        self.state & MOVED != 0
    }

    /// A white pawn that has not moved.
    pub fn white_pawn() -> (r: Self)
        ensures
            r.state == PAWN | OCCUPIED,
    {
        Self { state: PAWN | OCCUPIED }
    }

    /// A white rook that has not moved.
    pub fn white_rook() -> (r: Self)
        ensures
            r.state == ROOK | OCCUPIED,
    {
        Self { state: ROOK | OCCUPIED }
    }

    /// A white knight that has not moved.
    pub fn white_knight() -> (r: Self)
        ensures
            r.state == KNIGHT | OCCUPIED,
    {
        Self { state: KNIGHT | OCCUPIED }
    }

    /// A white bishop that has not moved.
    pub fn white_bishop() -> (r: Self)
        ensures
            r.state == BISHOP | OCCUPIED,
    {
        Self { state: BISHOP | OCCUPIED }
    }

    /// A white queen that has not moved.
    pub fn white_queen() -> (r: Self)
        ensures
            r.state == QUEEN | OCCUPIED,
    {
        Self { state: QUEEN | OCCUPIED }
    }

    /// A white king that has not moved.
    pub fn white_king() -> (r: Self)
        ensures
            r.state == KING | OCCUPIED,
    {
        Self { state: KING | OCCUPIED }
    }

    /// A black pawn that has not moved.
    pub fn black_pawn() -> (r: Self)
        ensures
            r.state == PAWN | OCCUPIED | OWNER,
    {
        Self { state: PAWN | OCCUPIED | OWNER }
    }

    /// A black rook that has not moved.
    pub fn black_rook() -> (r: Self)
        ensures
            r.state == ROOK | OCCUPIED | OWNER,
    {
        Self { state: ROOK | OCCUPIED | OWNER }
    }

    /// A black knight that has not moved.
    pub fn black_knight() -> (r: Self)
        ensures
            r.state == KNIGHT | OCCUPIED | OWNER,
    {
        Self { state: KNIGHT | OCCUPIED | OWNER }
    }

    /// A black bishop that has not moved.
    pub fn black_bishop() -> (r: Self)
        ensures
            r.state == BISHOP | OCCUPIED | OWNER,
    {
        Self { state: BISHOP | OCCUPIED | OWNER }
    }

    /// A black queen that has not moved.
    pub fn black_queen() -> (r: Self)
        ensures
            r.state == QUEEN | OCCUPIED | OWNER,
    {
        Self { state: QUEEN | OCCUPIED | OWNER }
    }

    /// A black king that has not moved.
    pub fn black_king() -> (r: Self)
        ensures
            r.state == KING | OCCUPIED | OWNER,
    {
        Self { state: KING | OCCUPIED | OWNER }
    }

    /// Who owns the piece here, at the specification level.
    pub open spec fn spec_owner(self) -> Option<Player> {
        if self.state & OCCUPIED == 0 {
            None
        } else if self.state & OWNER == 0 {
            Some(Player::First)
        } else {
            Some(Player::Second)
        }
    }

    /// Who owns the piece here: white is the first player, black the
    /// second.
    pub fn owner(self) -> (r: Option<Player>)
        ensures
            r == self.spec_owner(),
    {
        if self.state & OCCUPIED == 0 {
            None
        } else if self.state & OWNER == 0 {
            Some(Player::First)
        } else {
            Some(Player::Second)
        }
    }

    /// The piece kind bits.
    pub open spec fn spec_piece_raw(self) -> u8 {
        self.state & PIECE_MASK
    }

    /// The piece kind bits.
    pub fn piece_raw(self) -> (r: u8)
        ensures
            r == self.spec_piece_raw(),
    {
        self.state & PIECE_MASK
    }
}

/// A square of the 12×10 mailbox, by flat index.
#[derive(Debug, Clone, Copy, PartialEq, Eq, Structural)]
pub struct Pos {
    pub idx: usize,
}

/// Whether a flat index addresses one of the 64 playable squares.
pub open spec fn inner(idx: int) -> bool {
    &&& 0 <= idx < 120
    &&& 2 <= idx / 10 <= 9
    &&& 1 <= idx % 10 <= 8
}

impl Pos {
    /// The mailbox square of a board coordinate.
    pub fn from_grid(row: usize, col: usize) -> (r: Self)
        requires
            row < 8,
            col < 8,
        ensures
            r.idx == 10 * (row + 2) + col + 1,
            inner(r.idx as int),
    {
        Self { idx: 10 * (row + 2) + col + 1 }
    }

    /// The board coordinate of this square, or nothing for a sentinel or
    /// out-of-range index.
    pub fn to_grid(self) -> (r: Option<(usize, usize)>)
        ensures
            r matches Some(rc) ==> inner(self.idx as int) && rc.0 == self.idx / 10 - 2 && rc.1
                == self.idx % 10 - 1 && rc.0 < 8 && rc.1 < 8,
            r is None ==> !inner(self.idx as int),
    {
        let r_ = self.idx / 10;
        let c = self.idx % 10;
        if r_ <= 1 || c == 0 {
            None
        } else {
            let rr = r_ - 2;
            let cc = c - 1;
            if rr < 8 && cc < 8 {
                Some((rr, cc))
            } else {
                None
            }
        }
    }
}

/// A displacement between mailbox squares.
#[derive(Debug, Clone, Copy, PartialEq, Eq, Structural)]
pub struct DPos {
    pub idx: i32,
}

impl DPos {
    /// The displacement of a coordinate offset.
    pub fn from_grid(row: i32, col: i32) -> (r: Self)
        requires
            -12 <= row <= 12,
            -12 <= col <= 12,
        ensures
            r.idx == 10 * row + col,
    {
        Self { idx: 10 * row + col }
    }
}

impl Pos {
    /// Step by a displacement; the caller keeps the result on the
    /// mailbox.
    pub fn step(self, d: DPos) -> (r: Pos)
        requires
            d.idx > i32::MIN,
            0 <= self.idx + d.idx < 120,
        ensures
            r.idx == self.idx + d.idx,
    {
        if d.idx >= 0 {
            Pos { idx: self.idx + (d.idx as usize) }
        } else {
            Pos { idx: self.idx - ((-d.idx) as usize) }
        }
    }

    /// Step backwards by a displacement.
    pub fn step_back(self, d: DPos) -> (r: Pos)
        requires
            d.idx > i32::MIN,
            0 <= self.idx - d.idx < 120,
        ensures
            r.idx == self.idx - d.idx,
    {
        if d.idx >= 0 {
            Pos { idx: self.idx - (d.idx as usize) }
        } else {
            Pos { idx: self.idx + ((-d.idx) as usize) }
        }
    }
}

/// Rotate a 64-bit word left by `k` bits.
pub open spec fn spec_rotl64(x: u64, k: u32) -> u64 {
    (x << (k % 64) as u64) | (x >> (((64 - (k % 64)) % 64) as u64))
}

fn rotl64(x: u64, k: u32) -> (r: u64)
    ensures
        r == spec_rotl64(x, k),
{
    let s = k % 64;
    (x << (s as u64)) | (x >> ((((64 - s) % 64)) as u64))
}

/// The incremental digest contribution of changing one square.
pub open spec fn spec_sq_delta(a: SquareContents, b: SquareContents, row: int, col: int) -> u64 {
    spec_rotl64((a.state ^ b.state) as u64, (19 * (8 * row + col)) as u32)
}

/// Two toggles of the same squares cancel out of the digest, whatever
/// order the second pair comes in.
proof fn lemma_xor_cancel2(h: u64, a: u64, b: u64)
    ensures
        h ^ a ^ b ^ a ^ b == h,
{
    assert(h ^ a ^ b ^ a ^ b == h) by (bit_vector);
}

proof fn lemma_xor_cancel3(h: u64, a: u64, b: u64, c: u64)
    ensures
        h ^ a ^ b ^ c ^ a ^ c ^ b == h,
{
    assert(h ^ a ^ b ^ c ^ a ^ c ^ b == h) by (bit_vector);
}

proof fn lemma_xor_cancel4(h: u64, a: u64, b: u64, c: u64, d: u64)
    ensures
        h ^ a ^ b ^ c ^ d ^ b ^ a ^ d ^ c == h,
{
    assert(h ^ a ^ b ^ c ^ d ^ b ^ a ^ d ^ c == h) by (bit_vector);
}

/// The byte toggle is symmetric, so the undo contribution matches the
/// apply contribution exactly.
proof fn lemma_xor8_comm(a: u8, b: u8)
    ensures
        (a ^ b) == (b ^ a),
{
    assert((a ^ b) == (b ^ a)) by (bit_vector);
}

/// The playable contents of the mailbox, with an incrementally
/// maintained digest of the inner squares.
#[derive(Debug)]
pub struct BoardContent {
    pub pieces: Vec<SquareContents>,
    pub hash_bits: u64,
}

/// The mathematical view of the mailbox contents.
pub struct BoardContentView {
    pub pieces: Seq<SquareContents>,
    pub hash_bits: u64,
}

impl View for BoardContent {
    type V = BoardContentView;

    open spec fn view(&self) -> BoardContentView {
        BoardContentView { pieces: self.pieces@, hash_bits: self.hash_bits }
    }
}

impl BoardContentView {
    /// 120 squares, sentinels exactly where the mailbox has no playable
    /// square.
    pub open spec fn wf(self) -> bool {
        &&& self.pieces.len() == 120
        &&& forall|i: int|
            0 <= i < 120 ==> ((#[trigger] self.pieces[i]).spec_is_outside() <==> !inner(i))
    }

    /// The view after one square changes.
    pub open spec fn spec_set(self, pos: Pos, content: SquareContents) -> Self {
        BoardContentView {
            pieces: self.pieces.update(pos.idx as int, content),
            hash_bits: self.hash_bits ^ spec_sq_delta(
                self.pieces[pos.idx as int],
                content,
                pos.idx as int / 10 - 2,
                pos.idx as int % 10 - 1,
            ),
        }
    }
}

impl BoardContent {
    /// An empty mailbox: sentinels outside, empty squares inside, digest
    /// zero.
    pub fn new() -> (r: Self)
        ensures
            r@.wf(),
            r@.hash_bits == 0,
            forall|i: int| 0 <= i < 120 && inner(i) ==> (#[trigger] r@.pieces[i]).state == 0,
    {
        let mut pieces: Vec<SquareContents> = Vec::new();
        let mut i: usize = 0;
        while i < 120
            invariant
                i <= 120,
                pieces@.len() == i,
                forall|j: int|
                    0 <= j < i ==> ((#[trigger] pieces@[j]).spec_is_outside() <==> !inner(j)),
                forall|j: int| 0 <= j < i && inner(j) ==> (#[trigger] pieces@[j]).state == 0,
            decreases 120 - i,
        {
            let p = Pos { idx: i };
            match p.to_grid() {
                Some(_) => {
                    pieces.push(SquareContents::empty());
                    proof {
                        assert(0u8 & OUTSIDE == 0u8) by (bit_vector);
                    }
                },
                None => {
                    pieces.push(SquareContents::outside());
                    proof {
                        assert(128u8 & 128u8 != 0u8) by (bit_vector);
                    }
                },
            }
            i += 1;
        }
        Self { pieces, hash_bits: 0 }
    }

    /// The contents of a square.
    pub fn get(&self, pos: Pos) -> (r: SquareContents)
        requires
            pos.idx < self@.pieces.len(),
        ensures
            r == self@.pieces[pos.idx as int],
    {
        self.pieces[pos.idx]
    }

    /// Replace the contents of a playable square and fold the change into
    /// the digest.
    pub fn set(&mut self, pos: Pos, content: SquareContents)
        requires
            old(self)@.wf(),
            inner(pos.idx as int),
            !content.spec_is_outside(),
        ensures
            final(self)@ == old(self)@.spec_set(pos, content),
            final(self)@.wf(),
    {
        let row = pos.idx / 10 - 2;
        let col = pos.idx % 10 - 1;
        let prev = self.pieces[pos.idx];
        let delta = rotl64(((prev.state ^ content.state)) as u64, (19 * (8 * (row as u32) + (
        col as u32))));
        self.hash_bits = self.hash_bits ^ delta;
        self.pieces.set(pos.idx, content);
    }

    /// The digest of the inner squares.
    pub fn hash_bits(&self) -> (r: u64)
        ensures
            r == self@.hash_bits,
    {
        self.hash_bits
    }
}

/// What stands on a displayed square, for a front end to draw.
#[derive(Debug, Clone, Copy, PartialEq, Eq, Hash, Structural)]
pub enum Piece {
    Empty,
    WhitePawn,
    WhiteBerolinaPawn,
    WhiteRook,
    WhiteKnight,
    WhiteBishop,
    WhiteQueen,
    WhiteKing,
    WhiteGrasshopper,
    BlackPawn,
    BlackBerolinaPawn,
    BlackRook,
    BlackKnight,
    BlackBishop,
    BlackQueen,
    BlackKing,
    BlackGrasshopper,
}

impl SquareContents {
    /// The piece drawn for this square, at the specification level.
    pub open spec fn spec_piece(self) -> Piece {
        if self.spec_owner() is None {
            Piece::Empty
        } else {
            let white = self.spec_owner() == Some(Player::First);
            if self.spec_piece_raw() == PAWN {
                if white {
                    Piece::WhitePawn
                } else {
                    Piece::BlackPawn
                }
            } else if self.spec_piece_raw() == ROOK {
                if white {
                    Piece::WhiteRook
                } else {
                    Piece::BlackRook
                }
            } else if self.spec_piece_raw() == KNIGHT {
                if white {
                    Piece::WhiteKnight
                } else {
                    Piece::BlackKnight
                }
            } else if self.spec_piece_raw() == BISHOP {
                if white {
                    Piece::WhiteBishop
                } else {
                    Piece::BlackBishop
                }
            } else if self.spec_piece_raw() == QUEEN {
                if white {
                    Piece::WhiteQueen
                } else {
                    Piece::BlackQueen
                }
            } else if self.spec_piece_raw() == KING {
                if white {
                    Piece::WhiteKing
                } else {
                    Piece::BlackKing
                }
            } else {
                Piece::Empty
            }
        }
    }

    /// The piece drawn for this square.  A square holding an unknown
    /// piece code is drawn empty.
    pub fn piece(self) -> (r: Piece)
        ensures
            r == self.spec_piece(),
    {
        match self.owner() {
            None => Piece::Empty,
            Some(p) => {
                let white = matches!(p, Player::First);
                let pr = self.piece_raw();
                if pr == PAWN {
                    if white {
                        Piece::WhitePawn
                    } else {
                        Piece::BlackPawn
                    }
                } else if pr == ROOK {
                    if white {
                        Piece::WhiteRook
                    } else {
                        Piece::BlackRook
                    }
                } else if pr == KNIGHT {
                    if white {
                        Piece::WhiteKnight
                    } else {
                        Piece::BlackKnight
                    }
                } else if pr == BISHOP {
                    if white {
                        Piece::WhiteBishop
                    } else {
                        Piece::BlackBishop
                    }
                } else if pr == QUEEN {
                    if white {
                        Piece::WhiteQueen
                    } else {
                        Piece::BlackQueen
                    }
                } else if pr == KING {
                    if white {
                        Piece::WhiteKing
                    } else {
                        Piece::BlackKing
                    }
                } else {
                    Piece::Empty
                }
            },
        }
    }
}

/// What the player at the front end just did.
#[derive(Debug, Clone, Copy)]
pub enum MoveSelectionAction {
    Reset,
    ClickSquare { row: usize, col: usize },
}

/// Where click-to-move selection stands: nothing chosen yet, or a piece
/// waiting for its destination.
#[derive(Debug, Clone, Copy)]
pub enum MoveSelectionState {
    Initial,
    PieceSelected { row: usize, col: usize },
}

/// A chess position: the board, where each king stands, how many plies
/// have been played, and — after a pawn double push — the phantom
/// capture square and the ply it was created on.
#[derive(Debug)]
pub struct BoardState {
    pub board: BoardContent,
    pub white_king: Pos,
    pub black_king: Pos,
    pub move_num: usize,
    pub en_croissant_info: Option<(Pos, usize)>,
}

/// The mathematical view of a position.
pub struct BoardStateView {
    pub board: BoardContentView,
    pub white_king: Pos,
    pub black_king: Pos,
    pub move_num: int,
    pub en_croissant_info: Option<(Pos, int)>,
}

/// The view of an en-passant record.
pub open spec fn croissant_view(o: Option<(Pos, usize)>) -> Option<(Pos, int)> {
    match o {
        Some((p, n)) => Some((p, n as int)),
        None => None,
    }
}

impl View for BoardState {
    type V = BoardStateView;

    open spec fn view(&self) -> BoardStateView {
        BoardStateView {
            board: self.board@,
            white_king: self.white_king,
            black_king: self.black_king,
            move_num: self.move_num as int,
            en_croissant_info: croissant_view(self.en_croissant_info),
        }
    }
}

impl BoardStateView {
    /// The mailbox is well formed and both kings stand on playable
    /// squares.
    pub open spec fn wf(self) -> bool {
        &&& self.board.wf()
        &&& inner(self.white_king.idx as int)
        &&& inner(self.black_king.idx as int)
        &&& 0 <= self.move_num < usize::MAX
        &&& match self.en_croissant_info {
            Some((p, _)) => inner(p.idx as int),
            None => true,
        }
    }
}

impl PartialEq for BoardState {
    /// Two positions are the same for caching and repetition purposes
    /// when the boards match, the same side is to move, and any live
    /// phantom capture square matches; the ply counts themselves need
    /// not agree.
    fn eq(&self, other: &Self) -> (r: bool) {
        if self.board.hash_bits != other.board.hash_bits {
            return false;
        }
        if self.board.pieces.len() != other.board.pieces.len() {
            proof {
                assert(self@.board.pieces != other@.board.pieces);
            }
            return false;
        }
        let mut i: usize = 0;
        while i < self.board.pieces.len()
            invariant
                i <= self.board.pieces@.len(),
                self.board.pieces@.len() == other.board.pieces@.len(),
                forall|j: int| 0 <= j < i ==> self.board.pieces@[j] == other.board.pieces@[j],
            decreases self.board.pieces@.len() - i,
        {
            if self.board.pieces[i].state != other.board.pieces[i].state {
                return false;
            }
            i += 1;
        }
        proof {
            assert(self@.board.pieces =~= other@.board.pieces);
        }
        if self.move_num % 2 != other.move_num % 2 {
            return false;
        }
        match (self.en_croissant_info, other.en_croissant_info) {
            (Some((p1, _)), Some((p2, _))) => p1.idx == p2.idx,
            (None, None) => true,
            _ => false,
        }
    }
}

impl vstd::std_specs::cmp::PartialEqSpecImpl for BoardState {
    open spec fn obeys_eq_spec() -> bool {
        true
    }

    open spec fn eq_spec(&self, other: &Self) -> bool {
        &&& self@.board.pieces == other@.board.pieces
        &&& self@.board.hash_bits == other@.board.hash_bits
        &&& self@.move_num % 2 == other@.move_num % 2
        &&& match (self@.en_croissant_info, other@.en_croissant_info) {
            (Some((p1, _)), Some((p2, _))) => p1 == p2,
            (None, None) => true,
            _ => false,
        }
    }
}

impl Eq for BoardState {

}

/// The square after its piece moves.
pub open spec fn spec_moved(c: SquareContents) -> SquareContents {
    SquareContents { state: c.state | MOVED }
}

/// An atomic board transition.  Each variant records everything needed to
/// undo it exactly: the squares it touches and their contents before the
/// move.
#[derive(Debug, Clone, Copy, PartialEq, Eq)]
pub enum Move {
    Teleport {
        from: Pos,
        from_content: SquareContents,
        to: Pos,
        to_content: SquareContents,
        capture: bool,
        king_move: bool,
    },
    PawnDoublePush {
        from: Pos,
        from_content: SquareContents,
        croissant: Pos,
        prev_en_croissant_info: Option<(Pos, usize)>,
        to: Pos,
        to_content: SquareContents,
    },
    PawnEnCroissantCapture {
        from: Pos,
        from_content: SquareContents,
        to: Pos,
        to_content: SquareContents,
        capture: Pos,
        capture_content: SquareContents,
    },
    Castle {
        king_from: Pos,
        king_from_content: SquareContents,
        king_to: Pos,
        king_to_content: SquareContents,
        rook_from: Pos,
        rook_from_content: SquareContents,
        rook_to: Pos,
        rook_to_content: SquareContents,
    },
}

/// Whether `m` records the position `s` faithfully, so that applying and
/// then undoing it restores `s` exactly: the touched squares are
/// playable and distinct, the recorded contents are what actually stands
/// there, and a king move starts from where the king is tracked.
pub open spec fn chess_move_ok(s: BoardStateView, m: Move) -> bool {
    &&& s.move_num < usize::MAX - 1
    &&& match m {
        Move::Teleport { from, from_content, to, to_content, capture, king_move } => {
            &&& inner(from.idx as int)
            &&& inner(to.idx as int)
            &&& from != to
            &&& s.board.pieces[from.idx as int] == from_content
            &&& s.board.pieces[to.idx as int] == to_content
            &&& (king_move ==> match from_content.spec_owner() {
                Some(Player::First) => s.white_king == from,
                Some(Player::Second) => s.black_king == from,
                None => false,
            })
        },
        Move::PawnDoublePush { from, from_content, croissant, prev_en_croissant_info, to, to_content } => {
            &&& inner(from.idx as int)
            &&& inner(to.idx as int)
            &&& inner(croissant.idx as int)
            &&& from != to
            &&& s.board.pieces[from.idx as int] == from_content
            &&& s.board.pieces[to.idx as int] == to_content
            &&& croissant_view(prev_en_croissant_info) == s.en_croissant_info
        },
        Move::PawnEnCroissantCapture { from, from_content, to, to_content, capture, capture_content } => {
            &&& inner(from.idx as int)
            &&& inner(to.idx as int)
            &&& inner(capture.idx as int)
            &&& from != to
            &&& from != capture
            &&& to != capture
            &&& s.board.pieces[from.idx as int] == from_content
            &&& s.board.pieces[to.idx as int] == to_content
            &&& s.board.pieces[capture.idx as int] == capture_content
        },
        Move::Castle {
            king_from,
            king_from_content,
            king_to,
            king_to_content,
            rook_from,
            rook_from_content,
            rook_to,
            rook_to_content,
        } => {
            &&& inner(king_from.idx as int)
            &&& inner(king_to.idx as int)
            &&& inner(rook_from.idx as int)
            &&& inner(rook_to.idx as int)
            &&& king_from != king_to
            &&& king_from != rook_from
            &&& king_from != rook_to
            &&& king_to != rook_from
            &&& king_to != rook_to
            &&& rook_from != rook_to
            &&& s.board.pieces[king_from.idx as int] == king_from_content
            &&& s.board.pieces[king_to.idx as int] == king_to_content
            &&& s.board.pieces[rook_from.idx as int] == rook_from_content
            &&& s.board.pieces[rook_to.idx as int] == rook_to_content
            &&& match king_from_content.spec_owner() {
                Some(Player::First) => s.white_king == king_from,
                Some(Player::Second) => s.black_king == king_from,
                None => false,
            }
        },
    }
}

/// The position after `m` is played on `s`.
pub open spec fn chess_apply(s: BoardStateView, m: Move) -> BoardStateView {
    match m {
        Move::Teleport { from, from_content, to, to_content, capture, king_move } => {
            let b = s.board.spec_set(from, SquareContents { state: 0 }).spec_set(
                to,
                spec_moved(from_content),
            );
            BoardStateView {
                board: b,
                white_king: if king_move && from_content.spec_owner() == Some(Player::First) {
                    to
                } else {
                    s.white_king
                },
                black_king: if king_move && from_content.spec_owner() == Some(Player::Second) {
                    to
                } else {
                    s.black_king
                },
                move_num: s.move_num + 1,
                en_croissant_info: s.en_croissant_info,
            }
        },
        Move::PawnDoublePush { from, from_content, croissant, prev_en_croissant_info, to, to_content } => {
            let b = s.board.spec_set(from, SquareContents { state: 0 }).spec_set(
                to,
                spec_moved(from_content),
            );
            BoardStateView {
                board: b,
                white_king: s.white_king,
                black_king: s.black_king,
                move_num: s.move_num + 1,
                en_croissant_info: Some((croissant, s.move_num)),
            }
        },
        Move::PawnEnCroissantCapture { from, from_content, to, to_content, capture, capture_content } => {
            let b = s.board.spec_set(from, SquareContents { state: 0 }).spec_set(
                to,
                spec_moved(from_content),
            ).spec_set(capture, SquareContents { state: 0 });
            BoardStateView {
                board: b,
                white_king: s.white_king,
                black_king: s.black_king,
                move_num: s.move_num + 1,
                en_croissant_info: s.en_croissant_info,
            }
        },
        Move::Castle {
            king_from,
            king_from_content,
            king_to,
            king_to_content,
            rook_from,
            rook_from_content,
            rook_to,
            rook_to_content,
        } => {
            let b = s.board.spec_set(king_from, SquareContents { state: 0 }).spec_set(
                king_to,
                spec_moved(king_from_content),
            ).spec_set(rook_from, SquareContents { state: 0 }).spec_set(
                rook_to,
                spec_moved(rook_from_content),
            );
            BoardStateView {
                board: b,
                white_king: if king_from_content.spec_owner() == Some(Player::First) {
                    king_to
                } else {
                    s.white_king
                },
                black_king: if king_from_content.spec_owner() == Some(Player::Second) {
                    king_to
                } else {
                    s.black_king
                },
                move_num: s.move_num + 1,
                en_croissant_info: s.en_croissant_info,
            }
        },
    }
}

proof fn lemma_moved_not_outside(a: u8)
    requires
        a & OUTSIDE == 0,
    ensures
        (a | MOVED) & OUTSIDE == 0,
        0u8 & OUTSIDE == 0,
{
    assert(a & 128u8 == 0u8 ==> ((a | 16u8) & 128u8 == 0u8 && 0u8 & 128u8 == 0u8))
        by (bit_vector);
}

/// A faithfully recorded move keeps the position well formed.
pub proof fn lemma_apply_wf(s: BoardStateView, m: Move)
    requires
        s.wf(),
        chess_move_ok(s, m),
    ensures
        chess_apply(s, m).wf(),
{
    assert forall|a: u8| a & 128u8 == 0u8 implies ((a | 16u8) & 128u8 == 0u8) by {
        assert(a & 128u8 == 0u8 ==> ((a | 16u8) & 128u8 == 0u8)) by (bit_vector);
    }
    assert(0u8 & 128u8 == 0u8) by (bit_vector);
    let s2 = chess_apply(s, m);
    assert forall|i: int| 0 <= i < 120 implies ((#[trigger] s2.board.pieces[i]).spec_is_outside()
        <==> !inner(i)) by {
        assert(s.board.pieces[i].spec_is_outside() <==> !inner(i));
    }
}

/// The concrete rules object for standard chess.
#[derive(Debug, Clone, Copy, Default)]
pub struct StandardChessGame;

/// A playable square's flat index lies between the first and last inner
/// cells, so any jump of at most 21 stays on the mailbox.
proof fn lemma_inner_bounds(idx: int)
    requires
        inner(idx),
    ensures
        21 <= idx <= 98,
{
}

/// The knight's eight jumps.
fn knight_offsets() -> (r: Vec<DPos>)
    ensures
        forall|k: int|
            0 <= k < r@.len() ==> -21 <= (#[trigger] r@[k]).idx <= 21 && r@[k].idx != 0,
{
    let mut v: Vec<DPos> = Vec::new();
    v.push(DPos::from_grid(1, 2));
    v.push(DPos::from_grid(-1, 2));
    v.push(DPos::from_grid(-2, 1));
    v.push(DPos::from_grid(-2, -1));
    v.push(DPos::from_grid(-1, -2));
    v.push(DPos::from_grid(1, -2));
    v.push(DPos::from_grid(2, -1));
    v.push(DPos::from_grid(2, 1));
    v
}

/// The king's eight steps.
fn king_offsets() -> (r: Vec<DPos>)
    ensures
        forall|k: int|
            0 <= k < r@.len() ==> -21 <= (#[trigger] r@[k]).idx <= 21 && r@[k].idx != 0,
{
    let mut v: Vec<DPos> = Vec::new();
    v.push(DPos::from_grid(0, 1));
    v.push(DPos::from_grid(-1, 1));
    v.push(DPos::from_grid(-1, 0));
    v.push(DPos::from_grid(-1, -1));
    v.push(DPos::from_grid(0, -1));
    v.push(DPos::from_grid(1, -1));
    v.push(DPos::from_grid(1, 0));
    v.push(DPos::from_grid(1, 1));
    v
}

/// The rook's four directions.
fn rook_dirs() -> (r: Vec<DPos>)
    ensures
        forall|k: int|
            0 <= k < r@.len() ==> -11 <= (#[trigger] r@[k]).idx <= 11 && r@[k].idx != 0,
{
    let mut v: Vec<DPos> = Vec::new();
    v.push(DPos::from_grid(0, 1));
    v.push(DPos::from_grid(-1, 0));
    v.push(DPos::from_grid(0, -1));
    v.push(DPos::from_grid(1, 0));
    v
}

/// The bishop's four directions.
fn bishop_dirs() -> (r: Vec<DPos>)
    ensures
        forall|k: int|
            0 <= k < r@.len() ==> -11 <= (#[trigger] r@[k]).idx <= 11 && r@[k].idx != 0,
{
    let mut v: Vec<DPos> = Vec::new();
    v.push(DPos::from_grid(1, 1));
    v.push(DPos::from_grid(-1, 1));
    v.push(DPos::from_grid(1, -1));
    v.push(DPos::from_grid(-1, -1));
    v
}

/// The queen's eight directions.
fn queen_dirs() -> (r: Vec<DPos>)
    ensures
        forall|k: int|
            0 <= k < r@.len() ==> -11 <= (#[trigger] r@[k]).idx <= 11 && r@[k].idx != 0,
{
    let mut v: Vec<DPos> = Vec::new();
    v.push(DPos::from_grid(0, 1));
    v.push(DPos::from_grid(-1, 0));
    v.push(DPos::from_grid(0, -1));
    v.push(DPos::from_grid(1, 0));
    v.push(DPos::from_grid(1, 1));
    v.push(DPos::from_grid(-1, 1));
    v.push(DPos::from_grid(1, -1));
    v.push(DPos::from_grid(-1, -1));
    v
}

/// All moves in `out` faithfully record `s`.
pub open spec fn all_moves_ok(s: BoardStateView, out: Seq<Move>) -> bool {
    forall|k: int| 0 <= k < out.len() ==> chess_move_ok(s, #[trigger] out[k])
}

/// Push the non-sliding moves of the piece on `from` reached through
/// `offsets`, skipping quiet moves when only captures are wanted.
fn push_jump_moves(
    board: &BoardState,
    from: Pos,
    from_content: SquareContents,
    offsets: &Vec<DPos>,
    king_move: bool,
    captures_only: bool,
    moves: &mut Vec<Move>,
)
    requires
        board@.wf(),
        inner(from.idx as int),
        board@.board.pieces[from.idx as int] == from_content,
        from_content.spec_owner() is Some,
        board@.move_num < usize::MAX - 1,
        forall|k: int|
            0 <= k < offsets@.len() ==> -21 <= (#[trigger] offsets@[k]).idx <= 21 && offsets@[k].idx
                != 0,
        king_move ==> match from_content.spec_owner() {
            Some(Player::First) => board@.white_king == from,
            Some(Player::Second) => board@.black_king == from,
            None => false,
        },
        all_moves_ok(board@, old(moves)@),
    ensures
        all_moves_ok(board@, final(moves)@),
{
    let owner = match from_content.owner() {
        Some(o) => o,
        None => unreached(),
    };
    let mut k: usize = 0;
    while k < offsets.len()
        invariant
            board@.wf(),
            inner(from.idx as int),
            board@.board.pieces[from.idx as int] == from_content,
            board@.move_num < usize::MAX - 1,
            Some(owner) == from_content.spec_owner(),
            k <= offsets@.len(),
            forall|j: int|
                0 <= j < offsets@.len() ==> -21 <= (#[trigger] offsets@[j]).idx <= 21
                    && offsets@[j].idx != 0,
            king_move ==> match from_content.spec_owner() {
                Some(Player::First) => board@.white_king == from,
                Some(Player::Second) => board@.black_king == from,
                None => false,
            },
            all_moves_ok(board@, moves@),
        decreases offsets@.len() - k,
    {
        proof {
            lemma_inner_bounds(from.idx as int);
        }
        let to = from.step(offsets[k]);
        let to_content = board.board.get(to);
        if !to_content.is_outside() {
            let to_owner = to_content.owner();
            let same_owner = match to_owner {
                Some(o) => matches!((o, owner), (Player::First, Player::First) | (Player::Second, Player::Second)),
                None => false,
            };
            if !same_owner {
                let capture = to_owner.is_some();
                if !captures_only || capture {
                    let ghost pre = moves@;
                    moves.push(
                        Move::Teleport { from, from_content, to, to_content, capture, king_move },
                    );
                    proof {
                        assert(chess_move_ok(board@, moves@.last()));
                        assert forall|j: int| 0 <= j < moves@.len() implies chess_move_ok(
                            board@,
                            #[trigger] moves@[j],
                        ) by {
                            if j < pre.len() {
                                assert(moves@[j] == pre[j]);
                            }
                        }
                    }
                }
            }
        }
        k += 1;
    }
}

/// Push the sliding moves of the piece on `from` along `dir`: empty
/// squares until the first occupied one, which is captured if hostile.
fn push_sliding_moves(
    board: &BoardState,
    from: Pos,
    from_content: SquareContents,
    dir: DPos,
    captures_only: bool,
    moves: &mut Vec<Move>,
)
    requires
        board@.wf(),
        inner(from.idx as int),
        board@.board.pieces[from.idx as int] == from_content,
        from_content.spec_owner() is Some,
        board@.move_num < usize::MAX - 1,
        -11 <= dir.idx <= 11,
        dir.idx != 0,
        all_moves_ok(board@, old(moves)@),
    ensures
        all_moves_ok(board@, final(moves)@),
{
    let owner = match from_content.owner() {
        Some(o) => o,
        None => unreached(),
    };
    proof {
        lemma_inner_bounds(from.idx as int);
    }
    let mut to = from.step(dir);
    let mut running = true;
    while running
        invariant
            board@.wf(),
            inner(from.idx as int),
            board@.board.pieces[from.idx as int] == from_content,
            board@.move_num < usize::MAX - 1,
            Some(owner) == from_content.spec_owner(),
            -11 <= dir.idx <= 11,
            dir.idx != 0,
            0 <= to.idx < 120,
            dir.idx > 0 ==> to.idx > from.idx,
            dir.idx < 0 ==> to.idx < from.idx,
            all_moves_ok(board@, moves@),
        decreases
                (if dir.idx > 0 {
                    120 - to.idx
                } else {
                    to.idx + 1
                }),
                (if running {
                    1int
                } else {
                    0int
                }),
    {
        let to_content = board.board.get(to);
        if to_content.is_outside() {
            running = false;
        } else {
            let to_owner = to_content.owner();
            match to_owner {
                Some(o) => {
                    let same_owner = matches!(
                        (o, owner),
                        (Player::First, Player::First) | (Player::Second, Player::Second)
                    );
                    if !same_owner {
                        let ghost pre = moves@;
                        moves.push(
                            Move::Teleport {
                                from,
                                from_content,
                                to,
                                to_content,
                                capture: true,
                                king_move: false,
                            },
                        );
                        proof {
                            assert(chess_move_ok(board@, moves@.last()));
                            assert forall|j: int| 0 <= j < moves@.len() implies chess_move_ok(
                                board@,
                                #[trigger] moves@[j],
                            ) by {
                                if j < pre.len() {
                                    assert(moves@[j] == pre[j]);
                                }
                            }
                        }
                    }
                    running = false;
                },
                None => {
                    if !captures_only {
                        let ghost pre = moves@;
                        moves.push(
                            Move::Teleport {
                                from,
                                from_content,
                                to,
                                to_content,
                                capture: false,
                                king_move: false,
                            },
                        );
                        proof {
                            assert(chess_move_ok(board@, moves@.last()));
                            assert forall|j: int| 0 <= j < moves@.len() implies chess_move_ok(
                                board@,
                                #[trigger] moves@[j],
                            ) by {
                                if j < pre.len() {
                                    assert(moves@[j] == pre[j]);
                                }
                            }
                        }
                    }
                    proof {
                        lemma_inner_bounds(to.idx as int);
                    }
                    to = to.step(dir);
                },
            }
        }
    }
}

/// Push the pawn moves from `from`: one or two quiet steps forward, the
/// two diagonal captures, and the en-passant capture when the phantom
/// square matches.
fn push_pawn_moves(
    board: &BoardState,
    turn: Player,
    from: Pos,
    from_content: SquareContents,
    captures_only: bool,
    moves: &mut Vec<Move>,
)
    requires
        board@.wf(),
        inner(from.idx as int),
        board@.board.pieces[from.idx as int] == from_content,
        from_content.spec_owner() == Some(turn),
        board@.move_num < usize::MAX - 1,
        all_moves_ok(board@, old(moves)@),
    ensures
        all_moves_ok(board@, final(moves)@),
{
    proof {
        lemma_inner_bounds(from.idx as int);
    }
    let forward = DPos::from_grid(
        match turn {
            Player::First => -1,
            Player::Second => 1,
        },
        0,
    );
    let one_step = from.step(forward);
    if !captures_only {
        // one square ahead
        let one_step_content = board.board.get(one_step);
        if !one_step_content.is_outside() && one_step_content.is_empty() {
            let ghost pre = moves@;
            moves.push(
                Move::Teleport {
                    from,
                    from_content,
                    to: one_step,
                    to_content: one_step_content,
                    capture: false,
                    king_move: false,
                },
            );
            proof {
                assert(chess_move_ok(board@, moves@.last()));
                assert forall|j: int| 0 <= j < moves@.len() implies chess_move_ok(
                    board@,
                    #[trigger] moves@[j],
                ) by {
                    if j < pre.len() {
                        assert(moves@[j] == pre[j]);
                    }
                }
            }
            // two squares ahead for an unmoved pawn
            if !from_content.is_moved() {
                proof {
                    lemma_inner_bounds(one_step.idx as int);
                }
                let two_step = one_step.step(forward);
                let two_step_content = board.board.get(two_step);
                if !two_step_content.is_outside() && two_step_content.is_empty() {
                    let ghost pre2 = moves@;
                    moves.push(
                        Move::PawnDoublePush {
                            from,
                            from_content,
                            croissant: one_step,
                            prev_en_croissant_info: board.en_croissant_info,
                            to: two_step,
                            to_content: two_step_content,
                        },
                    );
                    proof {
                        assert(chess_move_ok(board@, moves@.last()));
                        assert forall|j: int| 0 <= j < moves@.len() implies chess_move_ok(
                            board@,
                            #[trigger] moves@[j],
                        ) by {
                            if j < pre2.len() {
                                assert(moves@[j] == pre2[j]);
                            }
                        }
                    }
                }
            }
        }
    }
    // the two diagonal captures, en passant included
    let mut side: usize = 0;
    while side < 2
        invariant
            board@.wf(),
            inner(from.idx as int),
            21 <= from.idx <= 98,
            board@.board.pieces[from.idx as int] == from_content,
            from_content.spec_owner() == Some(turn),
            board@.move_num < usize::MAX - 1,
            forward.idx == 10 || forward.idx == -10,
            11 <= one_step.idx <= 108,
            one_step.idx == from.idx + forward.idx,
            side <= 2,
            all_moves_ok(board@, moves@),
        decreases 2 - side,
    {
        let diag = if side == 0 {
            DPos::from_grid(0, -1)
        } else {
            DPos::from_grid(0, 1)
        };
        let target = one_step.step(diag);
        let target_content = board.board.get(target);
        if !target_content.is_outside() {
            let hostile = match target_content.owner() {
                Some(o) => !matches!(
                    (o, turn),
                    (Player::First, Player::First) | (Player::Second, Player::Second)
                ),
                None => false,
            };
            if hostile {
                let ghost pre = moves@;
                moves.push(
                    Move::Teleport {
                        from,
                        from_content,
                        to: target,
                        to_content: target_content,
                        capture: true,
                        king_move: false,
                    },
                );
                proof {
                    assert(chess_move_ok(board@, moves@.last()));
                    assert forall|j: int| 0 <= j < moves@.len() implies chess_move_ok(
                        board@,
                        #[trigger] moves@[j],
                    ) by {
                        if j < pre.len() {
                            assert(moves@[j] == pre[j]);
                        }
                    }
                }
            } else if target_content.is_empty() {
                if let Some((en_croissant_pos, en_croissant_move_num)) = board.en_croissant_info {
                    if en_croissant_move_num < usize::MAX && en_croissant_move_num + 1
                        == board.move_num && en_croissant_pos.idx == target.idx {
                        let capture = target.step_back(forward);
                        let capture_content = board.board.get(capture);
                        if !capture_content.is_outside() {
                            let ghost pre = moves@;
                            moves.push(
                                Move::PawnEnCroissantCapture {
                                    from,
                                    from_content,
                                    capture,
                                    capture_content,
                                    to: target,
                                    to_content: target_content,
                                },
                            );
                            proof {
                                assert(chess_move_ok(board@, moves@.last()));
                                assert forall|j: int| 0 <= j < moves@.len() implies chess_move_ok(
                                    board@,
                                    #[trigger] moves@[j],
                                ) by {
                                    if j < pre.len() {
                                        assert(moves@[j] == pre[j]);
                                    }
                                }
                            }
                        }
                    }
                }
            }
        }
        side += 1;
    }
}

impl StandardChessGame {
    /// Play `m` on `board`.
    pub fn apply_move(&self, board: &mut BoardState, m: &Move)
        requires
            old(board)@.wf(),
            chess_move_ok(old(board)@, *m),
        ensures
            final(board)@ == chess_apply(old(board)@, *m),
            final(board)@.wf(),
    {
        match m {
            Move::Teleport { from, from_content, to, to_content, capture, king_move } => {
                proof {
                    lemma_moved_not_outside(from_content.state);
                }
                if *king_move {
                    match from_content.owner() {
                        Some(Player::First) => {
                            board.white_king = *to;
                        },
                        Some(Player::Second) => {
                            board.black_king = *to;
                        },
                        None => {
                            proof {
                                assert(false);
                            }
                        },
                    }
                }
                board.board.set(*from, SquareContents::empty());
                board.board.set(*to, from_content.moved());
            },
            Move::PawnDoublePush { from, from_content, croissant, prev_en_croissant_info, to, to_content } => {
                proof {
                    lemma_moved_not_outside(from_content.state);
                }
                board.board.set(*from, SquareContents::empty());
                board.board.set(*to, from_content.moved());
                board.en_croissant_info = Some((*croissant, board.move_num));
            },
            Move::PawnEnCroissantCapture {
                from,
                from_content,
                to,
                to_content,
                capture,
                capture_content,
            } => {
                proof {
                    lemma_moved_not_outside(from_content.state);
                }
                board.board.set(*from, SquareContents::empty());
                board.board.set(*to, from_content.moved());
                board.board.set(*capture, SquareContents::empty());
            },
            Move::Castle {
                king_from,
                king_from_content,
                king_to,
                king_to_content,
                rook_from,
                rook_from_content,
                rook_to,
                rook_to_content,
            } => {
                proof {
                    lemma_moved_not_outside(king_from_content.state);
                    lemma_moved_not_outside(rook_from_content.state);
                }
                board.board.set(*king_from, SquareContents::empty());
                board.board.set(*king_to, king_from_content.moved());
                board.board.set(*rook_from, SquareContents::empty());
                board.board.set(*rook_to, rook_from_content.moved());
                match king_from_content.owner() {
                    Some(Player::First) => {
                        board.white_king = *king_to;
                    },
                    Some(Player::Second) => {
                        board.black_king = *king_to;
                    },
                    None => {
                        proof {
                            assert(false);
                        }
                    },
                }
            },
        }
        board.move_num = board.move_num + 1;
    }

    /// Every move the side to move could make if checks were ignored:
    /// the full pseudo-legal set, or only the captures.
    pub fn pseudolegal_moves(&self, turn: Player, board: &BoardState, captures_only: bool) -> (r:
        Vec<Move>)
        requires
            board@.wf(),
        ensures
            all_moves_ok(board@, r@),
    {
        let mut moves: Vec<Move> = Vec::new();
        // no further ply can be recorded once the ply counter is at its
        // machine limit
        if board.move_num >= usize::MAX - 1 {
            return moves;
        }
        let knights = knight_offsets();
        let kings = king_offsets();
        let rooks = rook_dirs();
        let bishops = bishop_dirs();
        let queens = queen_dirs();
        let mut row: usize = 0;
        while row < 8
            invariant
                board@.wf(),
                board@.move_num < usize::MAX - 1,
                row <= 8,
                forall|k: int|
                    0 <= k < knights@.len() ==> -21 <= (#[trigger] knights@[k]).idx <= 21
                        && knights@[k].idx != 0,
                forall|k: int|
                    0 <= k < kings@.len() ==> -21 <= (#[trigger] kings@[k]).idx <= 21
                        && kings@[k].idx != 0,
                forall|k: int|
                    0 <= k < rooks@.len() ==> -11 <= (#[trigger] rooks@[k]).idx <= 11
                        && rooks@[k].idx != 0,
                forall|k: int|
                    0 <= k < bishops@.len() ==> -11 <= (#[trigger] bishops@[k]).idx <= 11
                        && bishops@[k].idx != 0,
                forall|k: int|
                    0 <= k < queens@.len() ==> -11 <= (#[trigger] queens@[k]).idx <= 11
                        && queens@[k].idx != 0,
                all_moves_ok(board@, moves@),
            decreases 8 - row,
        {
            let mut col: usize = 0;
            while col < 8
                invariant
                    board@.wf(),
                    board@.move_num < usize::MAX - 1,
                    row < 8,
                    col <= 8,
                    forall|k: int|
                        0 <= k < knights@.len() ==> -21 <= (#[trigger] knights@[k]).idx <= 21
                            && knights@[k].idx != 0,
                    forall|k: int|
                        0 <= k < kings@.len() ==> -21 <= (#[trigger] kings@[k]).idx <= 21
                            && kings@[k].idx != 0,
                    forall|k: int|
                        0 <= k < rooks@.len() ==> -11 <= (#[trigger] rooks@[k]).idx <= 11
                            && rooks@[k].idx != 0,
                    forall|k: int|
                        0 <= k < bishops@.len() ==> -11 <= (#[trigger] bishops@[k]).idx <= 11
                            && bishops@[k].idx != 0,
                    forall|k: int|
                        0 <= k < queens@.len() ==> -11 <= (#[trigger] queens@[k]).idx <= 11
                            && queens@[k].idx != 0,
                    all_moves_ok(board@, moves@),
                decreases 8 - col,
            {
                let from = Pos::from_grid(row, col);
                let from_content = board.board.get(from);
                let mine = match from_content.owner() {
                    Some(o) => matches!(
                        (o, turn),
                        (Player::First, Player::First) | (Player::Second, Player::Second)
                    ),
                    None => false,
                };
                if mine {
                    let pr = from_content.piece_raw();
                    if pr == PAWN {
                        push_pawn_moves(board, turn, from, from_content, captures_only, &mut moves);
                    } else if pr == KNIGHT {
                        push_jump_moves(
                            board,
                            from,
                            from_content,
                            &knights,
                            false,
                            captures_only,
                            &mut moves,
                        );
                    } else if pr == KING {
                        // a king move is only recorded from the square the
                        // king is tracked on
                        let king_sq = match turn {
                            Player::First => board.white_king,
                            Player::Second => board.black_king,
                        };
                        if king_sq.idx == from.idx {
                            push_jump_moves(
                                board,
                                from,
                                from_content,
                                &kings,
                                true,
                                captures_only,
                                &mut moves,
                            );
                        }
                    } else if pr == ROOK {
                        let mut d: usize = 0;
                        while d < rooks.len()
                            invariant
                                board@.wf(),
                                board@.move_num < usize::MAX - 1,
                                inner(from.idx as int),
                                board@.board.pieces[from.idx as int] == from_content,
                                from_content.spec_owner() is Some,
                                d <= rooks@.len(),
                                forall|k: int|
                                    0 <= k < rooks@.len() ==> -11 <= (#[trigger] rooks@[k]).idx
                                        <= 11 && rooks@[k].idx != 0,
                                all_moves_ok(board@, moves@),
                            decreases rooks@.len() - d,
                        {
                            push_sliding_moves(
                                board,
                                from,
                                from_content,
                                rooks[d],
                                captures_only,
                                &mut moves,
                            );
                            d += 1;
                        }
                    } else if pr == BISHOP {
                        let mut d: usize = 0;
                        while d < bishops.len()
                            invariant
                                board@.wf(),
                                board@.move_num < usize::MAX - 1,
                                inner(from.idx as int),
                                board@.board.pieces[from.idx as int] == from_content,
                                from_content.spec_owner() is Some,
                                d <= bishops@.len(),
                                forall|k: int|
                                    0 <= k < bishops@.len() ==> -11 <= (
                                    #[trigger] bishops@[k]).idx <= 11 && bishops@[k].idx != 0,
                                all_moves_ok(board@, moves@),
                            decreases bishops@.len() - d,
                        {
                            push_sliding_moves(
                                board,
                                from,
                                from_content,
                                bishops[d],
                                captures_only,
                                &mut moves,
                            );
                            d += 1;
                        }
                    } else if pr == QUEEN {
                        let mut d: usize = 0;
                        while d < queens.len()
                            invariant
                                board@.wf(),
                                board@.move_num < usize::MAX - 1,
                                inner(from.idx as int),
                                board@.board.pieces[from.idx as int] == from_content,
                                from_content.spec_owner() is Some,
                                d <= queens@.len(),
                                forall|k: int|
                                    0 <= k < queens@.len() ==> -11 <= (#[trigger] queens@[k]).idx
                                        <= 11 && queens@[k].idx != 0,
                                all_moves_ok(board@, moves@),
                            decreases queens@.len() - d,
                        {
                            push_sliding_moves(
                                board,
                                from,
                                from_content,
                                queens[d],
                                captures_only,
                                &mut moves,
                            );
                            d += 1;
                        }
                    }
                }
                col += 1;
            }
            row += 1;
        }
        if !captures_only {
            self.push_castle_moves(turn, board, &mut moves);
        }
        moves
    }

    /// Push the castle moves available to `turn`: king and rook both
    /// unmoved, the squares between them clear.
    fn push_castle_moves(&self, turn: Player, board: &BoardState, moves: &mut Vec<Move>)
        requires
            board@.wf(),
            board@.move_num < usize::MAX - 1,
            all_moves_ok(board@, old(moves)@),
        ensures
            all_moves_ok(board@, final(moves)@),
    {
        let castle_row: usize = match turn {
            Player::First => 7,
            Player::Second => 0,
        };
        let king_from = Pos::from_grid(castle_row, 4);
        let king_from_content = board.board.get(king_from);
        if king_from_content.is_empty() || king_from_content.is_moved() {
            return ;
        }
        let owner_ok = match king_from_content.owner() {
            Some(Player::First) => matches!(turn, Player::First) && board.white_king.idx
                == king_from.idx,
            Some(Player::Second) => matches!(turn, Player::Second) && board.black_king.idx
                == king_from.idx,
            None => false,
        };
        if !owner_ok {
            return ;
        }
        // queenside
        {
            let rook_from = Pos::from_grid(castle_row, 0);
            let rook_from_content = board.board.get(rook_from);
            if !rook_from_content.is_empty() && !rook_from_content.is_moved() {
                let rook_mid = Pos::from_grid(castle_row, 1);
                let rook_mid_content = board.board.get(rook_mid);
                let king_to = Pos::from_grid(castle_row, 2);
                let king_to_content = board.board.get(king_to);
                let rook_to = Pos::from_grid(castle_row, 3);
                let rook_to_content = board.board.get(rook_to);
                if rook_mid_content.is_empty() && king_to_content.is_empty()
                    && rook_to_content.is_empty() {
                    let ghost pre = moves@;
                    moves.push(
                        Move::Castle {
                            king_from,
                            king_from_content,
                            king_to,
                            king_to_content,
                            rook_from,
                            rook_from_content,
                            rook_to,
                            rook_to_content,
                        },
                    );
                    proof {
                        assert(chess_move_ok(board@, moves@.last()));
                        assert forall|j: int| 0 <= j < moves@.len() implies chess_move_ok(
                            board@,
                            #[trigger] moves@[j],
                        ) by {
                            if j < pre.len() {
                                assert(moves@[j] == pre[j]);
                            }
                        }
                    }
                }
            }
        }
        // kingside
        {
            let rook_from = Pos::from_grid(castle_row, 7);
            let rook_from_content = board.board.get(rook_from);
            if !rook_from_content.is_empty() && !rook_from_content.is_moved() {
                let king_to = Pos::from_grid(castle_row, 6);
                let king_to_content = board.board.get(king_to);
                let rook_to = Pos::from_grid(castle_row, 5);
                let rook_to_content = board.board.get(rook_to);
                if king_to_content.is_empty() && rook_to_content.is_empty() {
                    let ghost pre = moves@;
                    moves.push(
                        Move::Castle {
                            king_from,
                            king_from_content,
                            king_to,
                            king_to_content,
                            rook_from,
                            rook_from_content,
                            rook_to,
                            rook_to_content,
                        },
                    );
                    proof {
                        assert(chess_move_ok(board@, moves@.last()));
                        assert forall|j: int| 0 <= j < moves@.len() implies chess_move_ok(
                            board@,
                            #[trigger] moves@[j],
                        ) by {
                            if j < pre.len() {
                                assert(moves@[j] == pre[j]);
                            }
                        }
                    }
                }
            }
        }
    }

    /// Take `m` back: the exact inverse of [`Self::apply_move`].
    #[verifier::rlimit(100)]
    pub fn undo_move_on(&self, board: &mut BoardState, m: &Move, Ghost(prev): Ghost<BoardStateView>)
        requires
            prev.wf(),
            chess_move_ok(prev, *m),
            old(board)@ == chess_apply(prev, *m),
        ensures
            final(board)@ == prev,
    {
        proof {
            lemma_apply_wf(prev, *m);
        }
        board.move_num = board.move_num - 1;
        match m {
            Move::Teleport { from, from_content, to, to_content, capture, king_move } => {
                if *king_move {
                    match from_content.owner() {
                        Some(Player::First) => {
                            board.white_king = *from;
                        },
                        Some(Player::Second) => {
                            board.black_king = *from;
                        },
                        None => {
                            proof {
                                assert(false);
                            }
                        },
                    }
                }
                board.board.set(*from, *from_content);
                board.board.set(*to, *to_content);
                proof {
                    lemma_xor8_comm(from_content.state, 0u8);
                    lemma_xor8_comm(to_content.state, spec_moved(*from_content).state);
                    lemma_xor_cancel2(
                        prev.board.hash_bits,
                        spec_sq_delta(
                            *from_content,
                            SquareContents { state: 0 },
                            from.idx as int / 10 - 2,
                            from.idx as int % 10 - 1,
                        ),
                        spec_sq_delta(
                            *to_content,
                            spec_moved(*from_content),
                            to.idx as int / 10 - 2,
                            to.idx as int % 10 - 1,
                        ),
                    );
                    assert(board@.board.pieces =~= prev.board.pieces);
                }
            },
            Move::PawnDoublePush { from, from_content, croissant, prev_en_croissant_info, to, to_content } => {
                board.board.set(*from, *from_content);
                board.board.set(*to, *to_content);
                board.en_croissant_info = *prev_en_croissant_info;
                proof {
                    lemma_xor8_comm(from_content.state, 0u8);
                    lemma_xor8_comm(to_content.state, spec_moved(*from_content).state);
                    lemma_xor_cancel2(
                        prev.board.hash_bits,
                        spec_sq_delta(
                            *from_content,
                            SquareContents { state: 0 },
                            from.idx as int / 10 - 2,
                            from.idx as int % 10 - 1,
                        ),
                        spec_sq_delta(
                            *to_content,
                            spec_moved(*from_content),
                            to.idx as int / 10 - 2,
                            to.idx as int % 10 - 1,
                        ),
                    );
                    assert(board@.board.pieces =~= prev.board.pieces);
                }
            },
            Move::PawnEnCroissantCapture {
                from,
                from_content,
                to,
                to_content,
                capture,
                capture_content,
            } => {
                board.board.set(*from, *from_content);
                board.board.set(*capture, *capture_content);
                board.board.set(*to, *to_content);
                proof {
                    lemma_xor8_comm(from_content.state, 0u8);
                    lemma_xor8_comm(to_content.state, spec_moved(*from_content).state);
                    lemma_xor8_comm(capture_content.state, 0u8);
                    lemma_xor_cancel3(
                        prev.board.hash_bits,
                        spec_sq_delta(
                            *from_content,
                            SquareContents { state: 0 },
                            from.idx as int / 10 - 2,
                            from.idx as int % 10 - 1,
                        ),
                        spec_sq_delta(
                            *to_content,
                            spec_moved(*from_content),
                            to.idx as int / 10 - 2,
                            to.idx as int % 10 - 1,
                        ),
                        spec_sq_delta(
                            *capture_content,
                            SquareContents { state: 0 },
                            capture.idx as int / 10 - 2,
                            capture.idx as int % 10 - 1,
                        ),
                    );
                    assert(board@.board.pieces =~= prev.board.pieces);
                }
            },
            Move::Castle {
                king_from,
                king_from_content,
                king_to,
                king_to_content,
                rook_from,
                rook_from_content,
                rook_to,
                rook_to_content,
            } => {
                board.board.set(*king_to, *king_to_content);
                board.board.set(*king_from, *king_from_content);
                board.board.set(*rook_to, *rook_to_content);
                board.board.set(*rook_from, *rook_from_content);
                match king_from_content.owner() {
                    Some(Player::First) => {
                        board.white_king = *king_from;
                    },
                    Some(Player::Second) => {
                        board.black_king = *king_from;
                    },
                    None => {
                        proof {
                            assert(false);
                        }
                    },
                }
                proof {
                    lemma_xor8_comm(king_from_content.state, 0u8);
                    lemma_xor8_comm(king_to_content.state, spec_moved(*king_from_content).state);
                    lemma_xor8_comm(rook_from_content.state, 0u8);
                    lemma_xor8_comm(rook_to_content.state, spec_moved(*rook_from_content).state);
                    lemma_xor_cancel4(
                        prev.board.hash_bits,
                        spec_sq_delta(
                            *king_from_content,
                            SquareContents { state: 0 },
                            king_from.idx as int / 10 - 2,
                            king_from.idx as int % 10 - 1,
                        ),
                        spec_sq_delta(
                            *king_to_content,
                            spec_moved(*king_from_content),
                            king_to.idx as int / 10 - 2,
                            king_to.idx as int % 10 - 1,
                        ),
                        spec_sq_delta(
                            *rook_from_content,
                            SquareContents { state: 0 },
                            rook_from.idx as int / 10 - 2,
                            rook_from.idx as int % 10 - 1,
                        ),
                        spec_sq_delta(
                            *rook_to_content,
                            spec_moved(*rook_from_content),
                            rook_to.idx as int / 10 - 2,
                            rook_to.idx as int % 10 - 1,
                        ),
                    );
                    assert(board@.board.pieces =~= prev.board.pieces);
                }
            },
        }
    }
}

impl BoardState {
    /// Replace one playable square.
    pub fn set(&mut self, pos: Pos, content: SquareContents)
        requires
            old(self)@.wf(),
            inner(pos.idx as int),
            !content.spec_is_outside(),
        ensures
            final(self)@.board == old(self)@.board.spec_set(pos, content),
            final(self)@.wf(),
            final(self).white_king == old(self).white_king,
            final(self).black_king == old(self).black_king,
            final(self).move_num == old(self).move_num,
            final(self).en_croissant_info == old(self).en_croissant_info,
    {
        self.board.set(pos, content);
    }

    /// The contents of a square.
    pub fn get(&self, pos: Pos) -> (r: SquareContents)
        requires
            pos.idx < self@.board.pieces.len(),
        ensures
            r == self@.board.pieces[pos.idx as int],
    {
        self.board.get(pos)
    }

    /// The cache digest of this position: the board digest mixed with the
    /// phantom capture square and the side to move.
    pub fn hash_bits(&self) -> (r: u64)
        ensures
            r == vstd::wrapping::u64_specs::wrapping_add(
                match self@.en_croissant_info {
                    Some((p, _)) => vstd::wrapping::u64_specs::wrapping_add(
                        self@.board.hash_bits,
                        p.idx as u64,
                    ),
                    None => self@.board.hash_bits,
                },
                (self.move_num % 2) as u64,
            ),
    {
        let base = match self.en_croissant_info {
            Some((p, _)) => self.board.hash_bits().wrapping_add(p.idx as u64),
            None => self.board.hash_bits(),
        };
        base.wrapping_add((self.move_num % 2) as u64)
    }

    /// The position the engine's demonstration game starts from: rooks
    /// and kings only, ready to castle, at the specification level.
    pub open spec fn spec_initial_square(idx: int) -> SquareContents {
        if idx == 21 || idx == 28 {
            SquareContents { state: 98u8 }  // an unmoved black rook
        } else if idx == 25 {
            SquareContents { state: 102u8 }  // the unmoved black king
        } else if idx == 91 || idx == 98 {
            SquareContents { state: 66u8 }  // an unmoved white rook
        } else if idx == 95 {
            SquareContents { state: 70u8 }  // the unmoved white king
        } else {
            SquareContents { state: 0u8 }
        }
    }

    /// The position the engine's demonstration game starts from: rooks
    /// and kings only, ready to castle.  The first player is to move, no
    /// phantom capture square is live, and each tracked king square holds
    /// the king of its own side.
    pub fn initial_state_standard_chess() -> (r: Self)
        ensures
            r@.wf(),
            r@.move_num == 0,
            r@.en_croissant_info is None,
            r.white_king == (Pos { idx: 95usize }),
            r.black_king == (Pos { idx: 25usize }),
            forall|i: int|
                0 <= i < 120 && inner(i) ==> #[trigger] r@.board.pieces[i]
                    == Self::spec_initial_square(i),
            r@.board.pieces[95].spec_piece_raw() == KING,
            r@.board.pieces[95].spec_owner() == Some(Player::First),
            r@.board.pieces[25].spec_piece_raw() == KING,
            r@.board.pieces[25].spec_owner() == Some(Player::Second),
    {
        proof {
            assert(98u8 & 128u8 == 0u8 && 102u8 & 128u8 == 0u8 && 66u8 & 128u8 == 0u8 && 70u8
                & 128u8 == 0u8 && (2u8 | 64u8 | 32u8) == 98u8 && (6u8 | 64u8 | 32u8) == 102u8 && (
            2u8 | 64u8) == 66u8 && (6u8 | 64u8) == 70u8) by (bit_vector);
        }
        let mut board = BoardContent::new();
        board.set(Pos::from_grid(0, 0), SquareContents::black_rook());
        board.set(Pos::from_grid(0, 4), SquareContents::black_king());
        board.set(Pos::from_grid(0, 7), SquareContents::black_rook());
        board.set(Pos::from_grid(7, 0), SquareContents::white_rook());
        board.set(Pos::from_grid(7, 4), SquareContents::white_king());
        board.set(Pos::from_grid(7, 7), SquareContents::white_rook());
        proof {
            assert(70u8 & 15u8 == 6u8 && 70u8 & 64u8 != 0u8 && 70u8 & 32u8 == 0u8 && 102u8 & 15u8
                == 6u8 && 102u8 & 64u8 != 0u8 && 102u8 & 32u8 != 0u8) by (bit_vector);
        }
        BoardState {
            board,
            white_king: Pos::from_grid(7, 4),
            black_king: Pos::from_grid(0, 4),
            move_num: 0,
            en_croissant_info: None,
        }
    }
}

impl StandardChessGame {
    /// The enemy pieces attacking `pos`, found by filtering the
    /// opponent's pseudo-legal piece moves for ones that land there.
    pub fn attackers_naive(&self, turn: Player, board: &BoardState, pos: Pos) -> (r: Vec<Pos>)
        requires
            board@.wf(),
    {
        let mut attackers: Vec<Pos> = Vec::new();
        let moves = self.pseudolegal_moves(turn.flip(), board, false);
        let mut k: usize = 0;
        while k < moves.len()
            invariant
                k <= moves@.len(),
            decreases moves@.len() - k,
        {
            if let Move::Teleport { from, to, .. } = moves[k] {
                if to.idx == pos.idx {
                    attackers.push(from);
                }
            }
            k += 1;
        }
        attackers
    }

    /// The enemy pieces attacking `pos`, found by scanning outward from
    /// the square itself: knight and king jumps, the two pawn diagonals,
    /// and the eight sliding rays.
    pub fn attackers(&self, turn: Player, board: &BoardState, pos: Pos) -> (r: Vec<Pos>)
        requires
            board@.wf(),
            inner(pos.idx as int),
        ensures
            forall|k: int| 0 <= k < r@.len() ==> inner((#[trigger] r@[k]).idx as int),
    {
        let mut attackers: Vec<Pos> = Vec::new();
        let enemy = turn.flip();
        proof {
            lemma_inner_bounds(pos.idx as int);
        }
        // knight and king jumps
        let knights = knight_offsets();
        let kings = king_offsets();
        let mut pass: usize = 0;
        while pass < 2
            invariant
                board@.wf(),
                inner(pos.idx as int),
                21 <= pos.idx <= 98,
                pass <= 2,
                forall|k: int|
                    0 <= k < knights@.len() ==> -21 <= (#[trigger] knights@[k]).idx <= 21
                        && knights@[k].idx != 0,
                forall|k: int|
                    0 <= k < kings@.len() ==> -21 <= (#[trigger] kings@[k]).idx <= 21
                        && kings@[k].idx != 0,
                forall|k: int| 0 <= k < attackers@.len() ==> inner((#[trigger] attackers@[k]).idx as int),
            decreases 2 - pass,
        {
            let (offsets, wanted): (&Vec<DPos>, u8) = if pass == 0 {
                (&knights, KNIGHT)
            } else {
                (&kings, KING)
            };
            let mut k: usize = 0;
            while k < offsets.len()
                invariant
                    board@.wf(),
                    inner(pos.idx as int),
                    21 <= pos.idx <= 98,
                    k <= offsets@.len(),
                    forall|j: int|
                        0 <= j < offsets@.len() ==> -21 <= (#[trigger] offsets@[j]).idx <= 21
                            && offsets@[j].idx != 0,
                    forall|j: int|
                        0 <= j < attackers@.len() ==> inner((#[trigger] attackers@[j]).idx as int),
                decreases offsets@.len() - k,
            {
                let other = pos.step(offsets[k]);
                let content = board.board.get(other);
                if !content.is_outside() {
                    let hostile = match content.owner() {
                        Some(o) => matches!(
                            (o, enemy),
                            (Player::First, Player::First) | (Player::Second, Player::Second)
                        ),
                        None => false,
                    };
                    if hostile && content.piece_raw() == wanted {
                        attackers.push(other);
                    }
                }
                k += 1;
            }
            pass += 1;
        }
        // pawn diagonals: an enemy pawn attacks along our own forward
        // direction's diagonals
        let forward = DPos::from_grid(
            match turn {
                Player::First => -1,
                Player::Second => 1,
            },
            0,
        );
        let mut side: usize = 0;
        while side < 2
            invariant
                board@.wf(),
                inner(pos.idx as int),
                21 <= pos.idx <= 98,
                side <= 2,
                forward.idx == 10 || forward.idx == -10,
                forall|j: int|
                    0 <= j < attackers@.len() ==> inner((#[trigger] attackers@[j]).idx as int),
            decreases 2 - side,
        {
            let diag = if side == 0 {
                DPos::from_grid(0, -1)
            } else {
                DPos::from_grid(0, 1)
            };
            let step1 = pos.step(diag);
            let other = step1.step(forward);
            let content = board.board.get(other);
            if !content.is_outside() {
                let hostile = match content.owner() {
                    Some(o) => matches!(
                        (o, enemy),
                        (Player::First, Player::First) | (Player::Second, Player::Second)
                    ),
                    None => false,
                };
                if hostile && content.piece_raw() == PAWN {
                    attackers.push(other);
                }
            }
            side += 1;
        }
        // sliding rays: the first occupied square decides
        let rooklike = rook_dirs();
        let bishoplike = bishop_dirs();
        let mut pass: usize = 0;
        while pass < 2
            invariant
                board@.wf(),
                inner(pos.idx as int),
                21 <= pos.idx <= 98,
                pass <= 2,
                forall|k: int|
                    0 <= k < rooklike@.len() ==> -11 <= (#[trigger] rooklike@[k]).idx <= 11
                        && rooklike@[k].idx != 0,
                forall|k: int|
                    0 <= k < bishoplike@.len() ==> -11 <= (#[trigger] bishoplike@[k]).idx <= 11
                        && bishoplike@[k].idx != 0,
                forall|j: int|
                    0 <= j < attackers@.len() ==> inner((#[trigger] attackers@[j]).idx as int),
            decreases 2 - pass,
        {
            let (dirs, second_kind): (&Vec<DPos>, u8) = if pass == 0 {
                (&rooklike, ROOK)
            } else {
                (&bishoplike, BISHOP)
            };
            let mut d: usize = 0;
            while d < dirs.len()
                invariant
                    board@.wf(),
                    inner(pos.idx as int),
                    21 <= pos.idx <= 98,
                    d <= dirs@.len(),
                    forall|k: int|
                        0 <= k < dirs@.len() ==> -11 <= (#[trigger] dirs@[k]).idx <= 11
                            && dirs@[k].idx != 0,
                    forall|j: int|
                        0 <= j < attackers@.len() ==> inner(
                            (#[trigger] attackers@[j]).idx as int,
                        ),
                decreases dirs@.len() - d,
            {
                let dir = dirs[d];
                let mut other = pos.step(dir);
                let mut running = true;
                while running
                    invariant
                        board@.wf(),
                        0 <= other.idx < 120,
                        -11 <= dir.idx <= 11,
                        dir.idx != 0,
                        forall|j: int|
                            0 <= j < attackers@.len() ==> inner(
                                (#[trigger] attackers@[j]).idx as int,
                            ),
                    decreases
                            (if dir.idx > 0 {
                                120 - other.idx
                            } else {
                                other.idx + 1
                            }),
                            (if running {
                                1int
                            } else {
                                0int
                            }),
                {
                    let content = board.board.get(other);
                    if content.is_outside() {
                        running = false;
                    } else {
                        match content.owner() {
                            Some(o) => {
                                let hostile = matches!(
                                    (o, enemy),
                                    (Player::First, Player::First)
                                        | (Player::Second, Player::Second)
                                );
                                if hostile && (content.piece_raw() == QUEEN
                                    || content.piece_raw() == second_kind) {
                                    attackers.push(other);
                                }
                                running = false;
                            },
                            None => {
                                proof {
                                    lemma_inner_bounds(other.idx as int);
                                }
                                other = other.step(dir);
                            },
                        }
                    }
                }
                d += 1;
            }
            pass += 1;
        }
        attackers
    }

    /// Whether `player`'s king is attacked.
    pub fn is_check(&self, player: Player, board: &BoardState) -> (r: bool)
        requires
            board@.wf(),
    {
        let king_pos = match player {
            Player::First => board.white_king,
            Player::Second => board.black_king,
        };
        let att = self.attackers(player, board, king_pos);
        !att.is_empty()
    }

    /// The legal moves of `turn`: the pseudo-legal ones that do not leave
    /// the mover in check, with castling also barred through or out of
    /// check.  The board is probed by playing each candidate and comes
    /// back exactly as it was.
    pub fn legal_moves(&self, turn: Player, board: &mut BoardState, captures_only: bool) -> (r:
        Vec<Move>)
        requires
            old(board)@.wf(),
        ensures
            final(board)@ == old(board)@,
            all_moves_ok(old(board)@, r@),
    {
        let pseudo = self.pseudolegal_moves(turn, board, captures_only);
        let mut legal: Vec<Move> = Vec::new();
        let mut k: usize = 0;
        while k < pseudo.len()
            invariant
                old(board)@.wf(),
                board@ == old(board)@,
                k <= pseudo@.len(),
                all_moves_ok(old(board)@, pseudo@),
                all_moves_ok(old(board)@, legal@),
            decreases pseudo@.len() - k,
        {
            let mv = pseudo[k];
            let ghost prev = board@;
            self.apply_move(board, &mv);
            let mut is_legal = !self.is_check(turn, board);
            self.undo_move_on(board, &mv, Ghost(prev));
            if let Move::Teleport { .. } = mv {
            } else if let Move::Castle { king_from, rook_to, .. } = mv {
                // a king may not castle out of or through check
                let through = self.attackers(turn, board, rook_to);
                if !through.is_empty() {
                    is_legal = false;
                }
                let out_of = self.attackers(turn, board, king_from);
                if !out_of.is_empty() {
                    is_legal = false;
                }
            }
            if is_legal {
                let ghost pre = legal@;
                legal.push(mv);
                proof {
                    assert forall|j: int| 0 <= j < legal@.len() implies chess_move_ok(
                        old(board)@,
                        #[trigger] legal@[j],
                    ) by {
                        if j < pre.len() {
                            assert(legal@[j] == pre[j]);
                        } else {
                            assert(legal@[j] == pseudo@[k as int]);
                        }
                    }
                }
            }
            k += 1;
        }
        legal
    }

    /// Score the position for the first player: a decided game scores as
    /// a win, loss or draw; otherwise material plus mobility, in
    /// centipawn-like units.
    pub fn score_board(&self, board: &mut BoardState) -> (r: AbsScore)
        requires
            old(board)@.wf(),
        ensures
            final(board)@ == old(board)@,
            r.wf(),
    {
        let turn = if board.move_num % 2 == 0 {
            Player::First
        } else {
            Player::Second
        };
        let legal = self.legal_moves(turn, board, false);
        if legal.is_empty() {
            if self.is_check(turn, board) {
                match turn {
                    Player::First => AbsScore::SecondPlayerWin,
                    Player::Second => AbsScore::FirstPlayerWin,
                }
            } else {
                AbsScore::Draw
            }
        } else {
            let first_mob = self.pseudolegal_moves(Player::First, board, false);
            let second_mob = self.pseudolegal_moves(Player::Second, board, false);
            let mut total: i128 = (first_mob.len() as i128) - (second_mob.len() as i128);
            let mut row: usize = 0;
            while row < 8
                invariant
                    board@.wf(),
                    row <= 8,
                    -0x2_0000_0000_0000_0000 - 80000 * row <= total <= 0x2_0000_0000_0000_0000
                        + 80000 * row,
                decreases 8 - row,
            {
                let mut col: usize = 0;
                while col < 8
                    invariant
                        board@.wf(),
                        row < 8,
                        col <= 8,
                        -0x2_0000_0000_0000_0000 - 80000 * row - 10000 * col <= total
                            <= 0x2_0000_0000_0000_0000 + 80000 * row + 10000 * col,
                    decreases 8 - col,
                {
                    let pos = Pos::from_grid(row, col);
                    let content = board.get(pos);
                    let piece_value: i128 = if content.is_outside() {
                        0
                    } else if content.is_empty() {
                        0
                    } else {
                        let pr = content.piece_raw();
                        if pr == PAWN {
                            100
                        } else if pr == ROOK {
                            500
                        } else if pr == KNIGHT {
                            300
                        } else if pr == BISHOP {
                            300
                        } else if pr == QUEEN {
                            900
                        } else if pr == KING {
                            10000
                        } else {
                            0
                        }
                    };
                    match content.owner() {
                        Some(Player::First) => {
                            total = total + piece_value;
                        },
                        Some(Player::Second) => {
                            total = total - piece_value;
                        },
                        None => {},
                    }
                    col += 1;
                }
                row += 1;
            }
            let clamped: i64 = if total > (i64::MAX as i128) {
                i64::MAX
            } else if total < ((i64::MIN + 1) as i128) {
                i64::MIN + 1
            } else {
                total as i64
            };
            AbsScore::Heuristic(clamped)
        }
    }
}

impl StandardChessGame {
    /// The first move of the position that starts at `piece_pos` and
    /// lands on `pos` (a castle counts by its king's path), if any.
    fn find_move_between(
        &self,
        moves: &Vec<Move>,
        piece_pos: Pos,
        pos: Pos,
        Ghost(s): Ghost<BoardStateView>,
    ) -> (r: Option<Move>)
        requires
            all_moves_ok(s, moves@),
        ensures
            r matches Some(m) ==> chess_move_ok(s, m),
    {
        let mut k: usize = 0;
        while k < moves.len()
            invariant
                k <= moves@.len(),
                all_moves_ok(s, moves@),
            decreases moves@.len() - k,
        {
            match moves[k] {
                Move::Teleport { from, to, .. } => {
                    if from.idx == piece_pos.idx && to.idx == pos.idx {
                        return Some(moves[k]);
                    }
                },
                Move::PawnDoublePush { from, to, .. } => {
                    if from.idx == piece_pos.idx && to.idx == pos.idx {
                        return Some(moves[k]);
                    }
                },
                Move::PawnEnCroissantCapture { from, to, .. } => {
                    if from.idx == piece_pos.idx && to.idx == pos.idx {
                        return Some(moves[k]);
                    }
                },
                Move::Castle { king_from, king_to, .. } => {
                    if king_from.idx == piece_pos.idx && king_to.idx == pos.idx {
                        return Some(moves[k]);
                    }
                },
            }
            k += 1;
        }
        None
    }

    /// Drive click-to-move selection: clicking an own piece selects it,
    /// clicking a destination of the selected piece plays that move, and
    /// anything else reselects or resets.  A returned move is always one
    /// the game generates for this position.
    pub fn update_move_selection(
        &self,
        turn: Player,
        board: &BoardState,
        action: MoveSelectionAction,
        move_selection_state: &mut MoveSelectionState,
    ) -> (r: Option<Move>)
        requires
            board@.wf(),
        ensures
            r matches Some(m) ==> chess_move_ok(board@, m),
    {
        let mut scratch = self.clone_state(board);
        let moves = self.legal_moves(turn, &mut scratch, false);
        let current = *move_selection_state;
        match (action, current) {
            (MoveSelectionAction::ClickSquare { row, col }, MoveSelectionState::Initial) => {
                if row < 8 && col < 8 {
                    let pos = Pos::from_grid(row, col);
                    let own = match board.get(pos).owner() {
                        Some(o) => matches!(
                            (o, turn),
                            (Player::First, Player::First) | (Player::Second, Player::Second)
                        ),
                        None => false,
                    };
                    if own {
                        *move_selection_state = MoveSelectionState::PieceSelected { row, col };
                    } else {
                        *move_selection_state = MoveSelectionState::Initial;
                    }
                } else {
                    *move_selection_state = MoveSelectionState::Initial;
                }
                None
            },
            (
                MoveSelectionAction::ClickSquare { row, col },
                MoveSelectionState::PieceSelected { row: piece_row, col: piece_col },
            ) => {
                if row < 8 && col < 8 && piece_row < 8 && piece_col < 8 {
                    let pos = Pos::from_grid(row, col);
                    let piece_pos = Pos::from_grid(piece_row, piece_col);
                    if let Some(mv) = self.find_move_between(&moves, piece_pos, pos, Ghost(board@))
                        {
                        return Some(mv);
                    }
                    let own = match board.get(pos).owner() {
                        Some(o) => matches!(
                            (o, turn),
                            (Player::First, Player::First) | (Player::Second, Player::Second)
                        ),
                        None => false,
                    };
                    if own {
                        *move_selection_state = MoveSelectionState::PieceSelected { row, col };
                    } else {
                        *move_selection_state = MoveSelectionState::Initial;
                    }
                } else {
                    *move_selection_state = MoveSelectionState::Initial;
                }
                None
            },
            _ => {
                *move_selection_state = MoveSelectionState::Initial;
                None
            },
        }
    }

}

/// The cache identity of a chess position: every square's byte, the side
/// to move, and the phantom capture square if one is live.
pub open spec fn chess_ident(s: BoardStateView) -> Seq<u64> {
    Seq::new(120, |i: int| s.board.pieces[i].state as u64).push((s.move_num % 2) as u64).push(
        match s.en_croissant_info {
            Some((p, _)) => (p.idx + 1) as u64,
            None => 0u64,
        },
    )
}

impl GameLogic for StandardChessGame {
    type State = BoardState;

    type Move = Move;

    open spec fn wf_state(&self, s: BoardStateView) -> bool {
        s.wf()
    }

    open spec fn move_ok(&self, s: BoardStateView, m: Move) -> bool {
        chess_move_ok(s, m)
    }

    open spec fn spec_apply(&self, s: BoardStateView, m: Move) -> BoardStateView {
        chess_apply(s, m)
    }

    open spec fn spec_turn(&self, s: BoardStateView) -> Player {
        if s.move_num % 2 == 0 {
            Player::First
        } else {
            Player::Second
        }
    }

    open spec fn spec_ident(&self, s: BoardStateView) -> Seq<u64> {
        chess_ident(s)
    }

    /// Chess does not pin its move list down at the specification level
    /// ([`Self::obeys_move_spec`] is false), so this placeholder is never
    /// relied on.
    open spec fn spec_moves(&self, s: BoardStateView) -> Seq<Move> {
        Seq::empty()
    }

    /// Unused for the same reason as [`Self::spec_moves`].
    open spec fn spec_quiescence_moves(&self, s: BoardStateView) -> Seq<Move> {
        Seq::empty()
    }

    open spec fn obeys_move_spec() -> bool {
        false
    }

    /// Chess does not pin its score down at the specification level
    /// ([`Self::obeys_score_spec`] is false), so this placeholder is
    /// never relied on.
    open spec fn spec_score(&self, s: BoardStateView) -> AbsScore {
        AbsScore::Draw
    }

    open spec fn obeys_score_spec() -> bool {
        false
    }

    proof fn lemma_apply_turn(&self, s: BoardStateView, m: Move) {
    }

    fn initial_state(&self) -> (r: BoardState) {
        BoardState::initial_state_standard_chess()
    }

    fn clone_state(&self, s: &BoardState) -> (r: BoardState) {
        let mut pieces: Vec<SquareContents> = Vec::new();
        let mut i: usize = 0;
        while i < s.board.pieces.len()
            invariant
                i <= s.board.pieces@.len(),
                pieces@.len() == i,
                forall|j: int| 0 <= j < i ==> pieces@[j] == s.board.pieces@[j],
            decreases s.board.pieces@.len() - i,
        {
            pieces.push(s.board.pieces[i]);
            i += 1;
        }
        proof {
            assert(pieces@ =~= s.board.pieces@);
        }
        BoardState {
            board: BoardContent { pieces, hash_bits: s.board.hash_bits },
            white_king: s.white_king,
            black_king: s.black_king,
            move_num: s.move_num,
            en_croissant_info: s.en_croissant_info,
        }
    }

    fn turn(&self, s: &BoardState) -> (r: Player) {
        if s.move_num % 2 == 0 {
            Player::First
        } else {
            Player::Second
        }
    }

    fn state_ident(&self, s: &BoardState) -> (r: StateIdent) {
        let mut words: Vec<u64> = Vec::new();
        let mut i: usize = 0;
        while i < 120
            invariant
                self.wf_state(s@),
                i <= 120,
                words@.len() == i,
                forall|j: int| 0 <= j < i ==> words@[j] == s@.board.pieces[j].state as u64,
            decreases 120 - i,
        {
            words.push(s.board.pieces[i].state as u64);
            i += 1;
        }
        words.push((s.move_num % 2) as u64);
        match s.en_croissant_info {
            Some((p, _)) => {
                words.push((p.idx as u64) + 1);
            },
            None => {
                words.push(0);
            },
        }
        proof {
            assert(words@ =~= chess_ident(s@));
        }
        StateIdent::new(words)
    }

    fn move_eq(&self, a: &Move, b: &Move) -> (r: bool) {
        match (a, b) {
            (
                Move::Teleport { from: f1, from_content: fc1, to: t1, to_content: tc1, capture: c1, king_move: k1 },
                Move::Teleport { from: f2, from_content: fc2, to: t2, to_content: tc2, capture: c2, king_move: k2 },
            ) => {
                f1.idx == f2.idx && fc1.state == fc2.state && t1.idx == t2.idx && tc1.state
                    == tc2.state && c1 == c2 && k1 == k2
            },
            (
                Move::PawnDoublePush {
                    from: f1,
                    from_content: fc1,
                    croissant: cr1,
                    prev_en_croissant_info: p1,
                    to: t1,
                    to_content: tc1,
                },
                Move::PawnDoublePush {
                    from: f2,
                    from_content: fc2,
                    croissant: cr2,
                    prev_en_croissant_info: p2,
                    to: t2,
                    to_content: tc2,
                },
            ) => {
                let prev_eq = match (p1, p2) {
                    (Some((pa, na)), Some((pb, nb))) => pa.idx == pb.idx && na == nb,
                    (None, None) => true,
                    _ => false,
                };
                f1.idx == f2.idx && fc1.state == fc2.state && cr1.idx == cr2.idx && prev_eq
                    && t1.idx == t2.idx && tc1.state == tc2.state
            },
            (
                Move::PawnEnCroissantCapture {
                    from: f1,
                    from_content: fc1,
                    to: t1,
                    to_content: tc1,
                    capture: c1,
                    capture_content: cc1,
                },
                Move::PawnEnCroissantCapture {
                    from: f2,
                    from_content: fc2,
                    to: t2,
                    to_content: tc2,
                    capture: c2,
                    capture_content: cc2,
                },
            ) => {
                f1.idx == f2.idx && fc1.state == fc2.state && t1.idx == t2.idx && tc1.state
                    == tc2.state && c1.idx == c2.idx && cc1.state == cc2.state
            },
            (
                Move::Castle {
                    king_from: kf1,
                    king_from_content: kfc1,
                    king_to: kt1,
                    king_to_content: ktc1,
                    rook_from: rf1,
                    rook_from_content: rfc1,
                    rook_to: rt1,
                    rook_to_content: rtc1,
                },
                Move::Castle {
                    king_from: kf2,
                    king_from_content: kfc2,
                    king_to: kt2,
                    king_to_content: ktc2,
                    rook_from: rf2,
                    rook_from_content: rfc2,
                    rook_to: rt2,
                    rook_to_content: rtc2,
                },
            ) => {
                kf1.idx == kf2.idx && kfc1.state == kfc2.state && kt1.idx == kt2.idx && ktc1.state
                    == ktc2.state && rf1.idx == rf2.idx && rfc1.state == rfc2.state && rt1.idx
                    == rt2.idx && rtc1.state == rtc2.state
            },
            _ => false,
        }
    }

    fn generate_moves(&self, s: &mut BoardState) -> (r: Vec<Move>) {
        let turn = if s.move_num % 2 == 0 {
            Player::First
        } else {
            Player::Second
        };
        self.legal_moves(turn, s, false)
    }

    fn generate_quiescence_moves(&self, s: &mut BoardState) -> (r: Vec<Move>) {
        let turn = if s.move_num % 2 == 0 {
            Player::First
        } else {
            Player::Second
        };
        self.legal_moves(turn, s, true)
    }

    fn score(&self, s: &mut BoardState) -> (r: AbsScore) {
        self.score_board(s)
    }

    fn make_move(&self, s: &mut BoardState, m: &Move) {
        self.apply_move(s, m);
    }

    fn unmake_move(&self, s: &mut BoardState, m: &Move, Ghost(prev): Ghost<BoardStateView>) {
        self.undo_move_on(s, m, Ghost(prev));
    }
}

} // verus!
