use vstd::prelude::*;

use crate::board::{Board, BoardView};
use crate::error::{reason, ChessError};
use crate::piece::{copy_team, Piece, PieceRef};
use crate::tile::{Tile, TileRef};
use crate::vec2::Vec2;

verus! {

/// An absolute board position; `y == 0` is the physically bottom row.
#[derive(Clone, Copy, Debug, PartialEq, Eq, Structural)]
pub struct Coord {
    pub x: u32,
    pub y: u32,
}

impl Coord {
    pub fn new(x: u32, y: u32) -> (r: Self)
        ensures
            r.x == x,
            r.y == y,
    {
        Self { x, y }
    }

    pub fn x(&self) -> (r: u32)
        ensures
            r == self.x,
    {
        self.x
    }

    pub fn y(&self) -> (r: u32)
        ensures
            r == self.y,
    {
        self.y
    }

    pub fn set_x(&mut self, x: u32)
        ensures
            *final(self) == (Coord { x, y: old(self).y }),
    {
        self.x = x;
    }

    pub fn set_y(&mut self, y: u32)
        ensures
            *final(self) == (Coord { x: old(self).x, y }),
    {
        self.y = y;
    }

    pub fn add(&self, other: &Coord) -> (r: Self)
        requires
            self.x + other.x <= u32::MAX,
            self.y + other.y <= u32::MAX,
        ensures
            r.x == self.x + other.x,
            r.y == self.y + other.y,
    {
        Self { x: self.x + other.x(), y: self.y + other.y() }
    }

    /// Whether translating by `v` keeps both axes non-negative.
    pub open spec fn can_translate(&self, v: Vec2) -> bool {
        self.x + v.x >= 0 && self.y + v.y >= 0
    }

    /// Translates by a signed displacement; fails when an axis would become
    /// negative.
    pub fn translate(&self, vec: &Vec2) -> (r: Result<Self, ChessError>)
        requires
            self.x + vec.x <= u32::MAX,
            self.y + vec.y <= u32::MAX,
        ensures
            self.can_translate(*vec) <==> r is Ok,
            r is Ok ==> r->Ok_0.x == self.x + vec.x && r->Ok_0.y == self.y + vec.y,
            r is Err ==> r->Err_0.is_coord_translation(),
    {
        let nx: i64 = self.x as i64 + vec.x as i64;
        let ny: i64 = self.y as i64 + vec.y as i64;
        if nx < 0 || ny < 0 {
            return Err(
                ChessError::CoordTranslationError {
                    why: reason("Resultant coordinate has a value under 0."),
                },
            );
        }
        Ok(Self { x: nx as u32, y: ny as u32 })
    }
}

} // verus!

verus! {

/// A proposed transition of one piece between two tiles.
#[derive(Clone, Copy, Debug, PartialEq, Eq, Structural)]
pub struct Move {
    pub from: Coord,
    pub to: Coord,
    /// The displacement of the piece in its team's frame.
    pub rel_translation: Vec2,
    pub piece: Piece,
    pub from_tile: Tile,
    pub target_tile: Tile,
}

/// The record of an executed move, enough to undo it.
#[derive(Clone, Copy, Debug, PartialEq, Eq, Structural)]
pub struct MoveLog {
    pub from: Coord,
    pub to: Coord,
    pub moved_piece: Piece,
    pub killed_piece: Option<Piece>,
    pub promoted_to: Option<Piece>,
    pub moved_from: Tile,
    pub moved_to: Tile,
    /// The moved piece's frame position before the move.
    pub previous_rel_pos: Option<Coord>,
}

/// The move counter after a move; it wraps so that undoing is exact.
pub open spec fn next_move_num(n: u32) -> u32 {
    if n == u32::MAX {
        0
    } else {
        (n + 1) as u32
    }
}

/// The move counter before a move.
pub open spec fn prev_move_num(n: u32) -> u32 {
    if n == 0 {
        u32::MAX
    } else {
        (n - 1) as u32
    }
}

/// The frame position after a displacement; None when an axis would leave
/// the range of `u32`.
pub open spec fn moved_rel_pos(rel: Option<Coord>, d: Vec2) -> Option<Option<Coord>> {
    match rel {
        None => Some(None),
        Some(c) => if 0 <= c.x + d.x <= u32::MAX && 0 <= c.y + d.y <= u32::MAX {
            Some(Some(Coord { x: (c.x + d.x) as u32, y: (c.y + d.y) as u32 }))
        } else {
            None
        },
    }
}

/// The move names two distinct tiles of the board, and its piece stands on
/// the first.
pub open spec fn tiles_ready(b: BoardView, m: Move) -> bool {
    &&& b.valid_tile(m.from_tile)
    &&& b.valid_tile(m.target_tile)
    &&& m.from_tile != m.target_tile
    &&& b.tiles[m.from_tile.index as int].piece == Some(m.piece)
}

/// The move can be executed on the board.
pub open spec fn can_execute(b: BoardView, m: Move) -> bool {
    &&& tiles_ready(b, m)
    &&& moved_rel_pos(b.piece_at(m.piece).rel_pos, m.rel_translation) is Some
}

/// The board after a move: an occupant of the target tile is killed and
/// removed, the piece moves with its cached team from the source tile to the
/// target tile, and its frame position and move counter advance.
pub open spec fn executed(b: BoardView, m: Move) -> BoardView {
    let f = m.from_tile.index as int;
    let t = m.target_tile.index as int;
    let b1 = match b.tiles[t].piece {
        Some(v) => b.with_piece(v, PieceRef { alive: false, ..b.piece_at(v) }),
        None => b,
    };
    let mover = b.piece_at(m.piece);
    b1.with_tile(t, TileRef { piece: Some(m.piece), team_on_tile: b.tiles[f].team_on_tile }).with_tile(
        f,
        TileRef::empty(),
    ).with_piece(
        m.piece,
        PieceRef {
            rel_pos: moved_rel_pos(mover.rel_pos, m.rel_translation)->Some_0,
            move_num: next_move_num(mover.move_num),
            ..mover
        },
    )
}

/// The record of a move executed on the board.
pub open spec fn log_of(b: BoardView, m: Move) -> MoveLog {
    MoveLog {
        from: m.from,
        to: m.to,
        moved_piece: m.piece,
        killed_piece: b.tiles[m.target_tile.index as int].piece,
        promoted_to: None,
        moved_from: m.from_tile,
        moved_to: m.target_tile,
        previous_rel_pos: b.piece_at(m.piece).rel_pos,
    }
}

/// The piece expected on the destination tile when undoing.
pub open spec fn returning_piece(l: MoveLog) -> Piece {
    match l.promoted_to {
        Some(p) => p,
        None => l.moved_piece,
    }
}

/// The record can be undone on the board.
pub open spec fn can_reverse(b: BoardView, l: MoveLog) -> bool {
    &&& b.valid_tile(l.moved_from)
    &&& b.valid_tile(l.moved_to)
    &&& l.moved_from != l.moved_to
    &&& b.tiles[l.moved_to.index as int].piece == Some(returning_piece(l))
    &&& b.tiles[l.moved_from.index as int].piece is None
    &&& b.valid_piece(l.moved_piece)
    &&& l.promoted_to is Some ==> b.off_board(l.moved_piece) && b.piece_at(l.moved_piece).alive
    &&& l.killed_piece is Some ==> {
        let k = l.killed_piece->Some_0;
        &&& b.valid_piece(k)
        &&& k != l.moved_piece
        &&& b.off_board(k)
    }
}

/// The board after undoing: the piece (or, after a promotion, the original
/// piece) returns to the source tile, its frame position and move counter
/// are restored, and a killed piece is revived on the destination tile.
pub open spec fn reversed(b: BoardView, l: MoveLog) -> BoardView {
    let f = l.moved_from.index as int;
    let t = l.moved_to.index as int;
    let back = match l.promoted_to {
        Some(_) => TileRef::holding(l.moved_piece, b.piece_at(l.moved_piece).team),
        None => b.tiles[t],
    };
    let mover = b.piece_at(l.moved_piece);
    let b2 = b.with_tile(f, back).with_tile(t, TileRef::empty()).with_piece(
        l.moved_piece,
        PieceRef { rel_pos: l.previous_rel_pos, move_num: prev_move_num(mover.move_num), ..mover },
    );
    match l.killed_piece {
        Some(k) => b2.with_piece(k, PieceRef { alive: true, ..b2.piece_at(k) }).with_tile(
            t,
            TileRef::holding(k, b2.piece_at(k).team),
        ),
        None => b2,
    }
}

} // verus!

verus! {

/// Updating one piece leaves every other handle's piece alone.
pub proof fn lemma_with_piece_other(b: BoardView, p: Piece, v: PieceRef, q: Piece)
    requires
        b.valid_piece(p),
        b.valid_piece(q),
    ensures
        b.with_piece(p, v).valid_piece(q),
        b.with_piece(p, v).piece_at(q) == if q == p {
            v
        } else {
            b.piece_at(q)
        },
        b.with_piece(p, v).pieces.len() == b.pieces.len(),
        forall|k: int| 0 <= k < b.pieces.len() ==> #[trigger] b.with_piece(p, v).pieces[k].len() == b.pieces[k].len(),
{
}

/// Executing a move keeps the board well formed.
pub proof fn lemma_executed_wf(b: BoardView, m: Move)
    requires
        b.wf(),
        can_execute(b, m),
    ensures
        executed(b, m).wf(),
        executed(b, m).same_shape(b),
{
    let f = m.from_tile.index as int;
    let t = m.target_tile.index as int;
    let r = executed(b, m);
    let mover = b.piece_at(m.piece);
    assert(b.tile_wf(b.tiles[f]));
    assert(b.tile_wf(b.tiles[t]));
    let b1 = match b.tiles[t].piece {
        Some(v) => b.with_piece(v, PieceRef { alive: false, ..b.piece_at(v) }),
        None => b,
    };
    let mover2 = PieceRef {
        rel_pos: moved_rel_pos(mover.rel_pos, m.rel_translation)->Some_0,
        move_num: next_move_num(mover.move_num),
        ..mover
    };
    let b2 = b1.with_tile(t, TileRef { piece: Some(m.piece), team_on_tile: b.tiles[f].team_on_tile }).with_tile(
        f,
        TileRef::empty(),
    );
    assert(r == b2.with_piece(m.piece, mover2));
    if b.tiles[t].piece is Some {
        let v = b.tiles[t].piece->Some_0;
        assert(v != m.piece);
        lemma_with_piece_other(b, v, PieceRef { alive: false, ..b.piece_at(v) }, m.piece);
    }
    // piece lookups in r
    assert forall|q: Piece| #[trigger] b.valid_piece(q) implies r.valid_piece(q) && r.piece_at(q) == if q
        == m.piece {
        mover2
    } else if b.tiles[t].piece == Some(q) {
        PieceRef { alive: false, ..b.piece_at(q) }
    } else {
        b.piece_at(q)
    } by {
        if b.tiles[t].piece is Some {
            let v = b.tiles[t].piece->Some_0;
            lemma_with_piece_other(b, v, PieceRef { alive: false, ..b.piece_at(v) }, q);
        }
        lemma_with_piece_other(b2, m.piece, mover2, q);
    }
    assert forall|k: int| 0 <= k < r.pieces.len() implies #[trigger] r.pieces[k].len()
        == b.pieces[k].len() by {
        if b.tiles[t].piece is Some {
            let v = b.tiles[t].piece->Some_0;
            lemma_with_piece_other(b, v, PieceRef { alive: false, ..b.piece_at(v) }, m.piece);
        }
        lemma_with_piece_other(b2, m.piece, mover2, m.piece);
    }
    assert forall|k: int| 0 <= k < r.tiles.len() implies r.tile_wf(#[trigger] r.tiles[k]) by {
        assert(b.tile_wf(b.tiles[k]));
        if k != f && k != t {
            assert(r.tiles[k] == b.tiles[k]);
            if b.tiles[k].piece is Some {
                let q = b.tiles[k].piece->Some_0;
                assert(q != m.piece);
                assert(b.tiles[t].piece != Some(q));
            }
        }
    }
    assert forall|x: int, y: int|
        0 <= x < r.tiles.len() && 0 <= y < r.tiles.len() && #[trigger] r.tiles[x].piece is Some
            && r.tiles[x].piece == #[trigger] r.tiles[y].piece implies x == y by {
        if x != t && y != t {
            assert(r.tiles[x] == b.tiles[x] && r.tiles[y] == b.tiles[y]);
        } else if x == t && y != t {
            assert(b.tiles[y].piece == Some(m.piece));
        } else if x != t && y == t {
            assert(b.tiles[x].piece == Some(m.piece));
        }
    }
}

/// Undoing a record keeps the board well formed.
pub proof fn lemma_reversed_wf(b: BoardView, l: MoveLog)
    requires
        b.wf(),
        can_reverse(b, l),
    ensures
        reversed(b, l).wf(),
        reversed(b, l).same_shape(b),
{
    let f = l.moved_from.index as int;
    let t = l.moved_to.index as int;
    let r = reversed(b, l);
    let mover = b.piece_at(l.moved_piece);
    assert(b.tile_wf(b.tiles[f]));
    assert(b.tile_wf(b.tiles[t]));
    let back = match l.promoted_to {
        Some(_) => TileRef::holding(l.moved_piece, b.piece_at(l.moved_piece).team),
        None => b.tiles[t],
    };
    let mover2 = PieceRef {
        rel_pos: l.previous_rel_pos,
        move_num: prev_move_num(mover.move_num),
        ..mover
    };
    let b1 = b.with_tile(f, back).with_tile(t, TileRef::empty());
    let b2 = b1.with_piece(l.moved_piece, mover2);
    lemma_with_piece_other(b1, l.moved_piece, mover2, l.moved_piece);
    assert forall|q: Piece| #[trigger] b.valid_piece(q) implies b2.valid_piece(q) && b2.piece_at(q)
        == if q == l.moved_piece {
        mover2
    } else {
        b.piece_at(q)
    } by {
        lemma_with_piece_other(b1, l.moved_piece, mover2, q);
    }
    if l.killed_piece is Some {
        let k = l.killed_piece->Some_0;
        let kp = PieceRef { alive: true, ..b2.piece_at(k) };
        assert(r == b2.with_piece(k, kp).with_tile(t, TileRef::holding(k, kp.team)));
        assert forall|q: Piece| #[trigger] b.valid_piece(q) implies r.valid_piece(q) && r.piece_at(q)
            == if q == k {
            kp
        } else if q == l.moved_piece {
            mover2
        } else {
            b.piece_at(q)
        } by {
            lemma_with_piece_other(b2, k, kp, q);
        }
        assert forall|j: int| 0 <= j < r.pieces.len() implies #[trigger] r.pieces[j].len()
            == b.pieces[j].len() by {
            lemma_with_piece_other(b2, k, kp, k);
        }
    } else {
        assert(r == b2);
    }
    assert forall|j: int| 0 <= j < r.tiles.len() implies r.tile_wf(#[trigger] r.tiles[j]) by {
        assert(b.tile_wf(b.tiles[j]));
        if j != f && j != t {
            assert(r.tiles[j] == b.tiles[j]);
            if b.tiles[j].piece is Some {
                let q = b.tiles[j].piece->Some_0;
                assert(l.killed_piece != Some(q));
                if l.promoted_to is Some {
                    assert(q != l.moved_piece);
                } else {
                    assert(q != l.moved_piece);
                }
            }
        }
    }
    assert forall|x: int, y: int|
        0 <= x < r.tiles.len() && 0 <= y < r.tiles.len() && #[trigger] r.tiles[x].piece is Some
            && r.tiles[x].piece == #[trigger] r.tiles[y].piece implies x == y by {
        if x != t && y != t && x != f && y != f {
            assert(r.tiles[x] == b.tiles[x] && r.tiles[y] == b.tiles[y]);
        } else if x == f && y != f && y != t {
            assert(r.tiles[y] == b.tiles[y]);
            if l.promoted_to is None {
                assert(b.tiles[t].piece == r.tiles[x].piece);
            }
        } else if y == f && x != f && x != t {
            assert(r.tiles[x] == b.tiles[x]);
            if l.promoted_to is None {
                assert(b.tiles[t].piece == r.tiles[y].piece);
            }
        } else if x == t && y != t && y != f {
            assert(r.tiles[y] == b.tiles[y]);
        } else if y == t && x != t && x != f {
            assert(r.tiles[x] == b.tiles[x]);
        }
    }
}

} // verus!

verus! {

/// Executing a move onto a tile held by another piece kills that piece and
/// takes it off the board, leaves the destination holding only the moving
/// piece and the origin vacant, and changes no other tile.
pub proof fn lemma_capture(b: BoardView, m: Move)
    requires
        b.wf(),
        can_execute(b, m),
        b.tiles[m.target_tile.index as int].piece is Some,
    ensures
        ({
            let v = b.tiles[m.target_tile.index as int].piece->Some_0;
            let e = executed(b, m);
            &&& e.valid_piece(v)
            &&& !e.piece_at(v).alive
            &&& e.off_board(v)
            &&& e.tiles[m.target_tile.index as int].piece == Some(m.piece)
            &&& e.tiles[m.from_tile.index as int] == TileRef::empty()
            &&& forall|k: int|
                0 <= k < b.tiles.len() && k != m.from_tile.index && k != m.target_tile.index
                    ==> #[trigger] e.tiles[k] == b.tiles[k]
        }),
{
    let v = b.tiles[m.target_tile.index as int].piece->Some_0;
    let f = m.from_tile.index as int;
    let t = m.target_tile.index as int;
    let mover = b.piece_at(m.piece);
    assert(b.tile_wf(b.tiles[t]));
    assert(v != m.piece);
    let b1 = b.with_piece(v, PieceRef { alive: false, ..b.piece_at(v) });
    let mover2 = PieceRef {
        rel_pos: moved_rel_pos(mover.rel_pos, m.rel_translation)->Some_0,
        move_num: next_move_num(mover.move_num),
        ..mover
    };
    let b2 = b1.with_tile(t, TileRef { piece: Some(m.piece), team_on_tile: b.tiles[f].team_on_tile }).with_tile(
        f,
        TileRef::empty(),
    );
    lemma_with_piece_other(b, v, PieceRef { alive: false, ..b.piece_at(v) }, v);
    lemma_with_piece_other(b2, m.piece, mover2, v);
    let e = executed(b, m);
    assert forall|k: int| 0 <= k < e.tiles.len() implies #[trigger] e.tiles[k].piece != Some(v) by {
        if k != f && k != t {
            assert(e.tiles[k] == b.tiles[k]);
        }
    }
}

/// Executing a move and at once undoing its record restores the board
/// exactly: the captured piece is alive again on the destination tile, the
/// moving piece is back on its origin with its old position and counter,
/// and nothing else changed.
pub proof fn lemma_execute_then_reverse(b: BoardView, m: Move)
    requires
        b.wf(),
        can_execute(b, m),
    ensures
        can_reverse(executed(b, m), log_of(b, m)),
        reversed(executed(b, m), log_of(b, m)) == b,
{
    let f = m.from_tile.index as int;
    let t = m.target_tile.index as int;
    let e = executed(b, m);
    let l = log_of(b, m);
    let mover = b.piece_at(m.piece);
    lemma_executed_wf(b, m);
    assert(b.tile_wf(b.tiles[f]));
    assert(b.tile_wf(b.tiles[t]));
    let b1 = match b.tiles[t].piece {
        Some(v) => b.with_piece(v, PieceRef { alive: false, ..b.piece_at(v) }),
        None => b,
    };
    let mover2 = PieceRef {
        rel_pos: moved_rel_pos(mover.rel_pos, m.rel_translation)->Some_0,
        move_num: next_move_num(mover.move_num),
        ..mover
    };
    let b2 = b1.with_tile(t, TileRef { piece: Some(m.piece), team_on_tile: b.tiles[f].team_on_tile }).with_tile(
        f,
        TileRef::empty(),
    );
    if b.tiles[t].piece is Some {
        let v = b.tiles[t].piece->Some_0;
        lemma_with_piece_other(b, v, PieceRef { alive: false, ..b.piece_at(v) }, m.piece);
        lemma_with_piece_other(b2, m.piece, mover2, v);
        assert(e.off_board(v));
    }
    lemma_with_piece_other(b2, m.piece, mover2, m.piece);
    assert(can_reverse(e, l));
    let r = reversed(e, l);
    let e1 = e.with_tile(f, e.tiles[t]).with_tile(t, TileRef::empty());
    let mover3 = PieceRef { rel_pos: l.previous_rel_pos, move_num: prev_move_num(mover2.move_num), ..mover2 };
    assert(mover3 == mover);
    let e2 = e1.with_piece(m.piece, mover3);
    assert(r.tiles =~= b.tiles) by {
        assert forall|k: int| 0 <= k < b.tiles.len() implies r.tiles[k] == b.tiles[k] by {
            if k == t && b.tiles[t].piece is Some {
                let v = b.tiles[t].piece->Some_0;
                lemma_with_piece_other(e1, m.piece, mover3, v);
                lemma_with_piece_other(b, v, PieceRef { alive: false, ..b.piece_at(v) }, v);
                lemma_with_piece_other(b2, m.piece, mover2, v);
            }
        }
    }
    assert(r.pieces =~~= b.pieces) by {
        assert forall|s: int| 0 <= s < b.pieces.len() implies r.pieces[s] =~= b.pieces[s] by {
            assert forall|i: int| 0 <= i < b.pieces[s].len() implies r.pieces[s][i] == b.pieces[s][i] by {
                let q = Piece { set: s as usize, index: i as usize };
                assert(b.valid_piece(q));
                if b.tiles[t].piece is Some {
                    let v = b.tiles[t].piece->Some_0;
                    lemma_with_piece_other(b, v, PieceRef { alive: false, ..b.piece_at(v) }, q);
                    lemma_with_piece_other(b2, m.piece, mover2, q);
                    lemma_with_piece_other(e1, m.piece, mover3, q);
                    lemma_with_piece_other(e1, m.piece, mover3, v);
                    lemma_with_piece_other(e2, v, PieceRef { alive: true, ..e2.piece_at(v) }, q);
                    assert(r.piece_at(q) == b.piece_at(q));
                } else {
                    lemma_with_piece_other(b2, m.piece, mover2, q);
                    lemma_with_piece_other(e1, m.piece, mover3, q);
                    assert(r.piece_at(q) == b.piece_at(q));
                }
            }
        }
    }
}

} // verus!

verus! {

impl Move {
    pub fn new(
        piece: Piece,
        from: Coord,
        to: Coord,
        rel_translation: Vec2,
        from_tile: Tile,
        target_tile: Tile,
    ) -> (r: Self)
        ensures
            r == (Move { from, to, rel_translation, piece, from_tile, target_tile }),
    {
        Self { from, to, rel_translation, piece, from_tile, target_tile }
    }

    pub fn from(&self) -> (r: Coord)
        ensures
            r == self.from,
    {
        self.from
    }

    pub fn to(&self) -> (r: Coord)
        ensures
            r == self.to,
    {
        self.to
    }

    pub fn rel_translation(&self) -> (r: Vec2)
        ensures
            r == self.rel_translation,
    {
        self.rel_translation
    }

    pub fn piece(&self) -> (r: Piece)
        ensures
            r == self.piece,
    {
        self.piece
    }

    pub fn from_tile(&self) -> (r: Tile)
        ensures
            r == self.from_tile,
    {
        self.from_tile
    }

    pub fn target_tile(&self) -> (r: Tile)
        ensures
            r == self.target_tile,
    {
        self.target_tile
    }

    /// Executes the move on `board` (see `executed`) and returns its record.
    /// Fails, changing nothing, with a tile error when the move does not
    /// name two distinct tiles with its piece on the first, and with a
    /// coordinate error when the piece's frame position cannot take the
    /// displacement.
    pub fn execute(self, board: &mut Board) -> (r: Result<MoveLog, ChessError>)
        requires
            old(board).wf(),
        ensures
            final(board).wf(),
            r is Ok <==> can_execute(old(board)@, self),
            r is Ok ==> final(board)@ == executed(old(board)@, self) && r->Ok_0 == log_of(
                old(board)@,
                self,
            ),
            r is Err ==> final(board)@ == old(board)@,
            r is Err ==> (r->Err_0.is_tile_action() <==> !tiles_ready(old(board)@, self)),
            r is Err ==> (r->Err_0.is_coord_translation() <==> tiles_ready(old(board)@, self)),
    {
        let ghost b = board@;
        let n = board.tiles.len();
        let f = self.from_tile.index;
        let t = self.target_tile.index;
        if f >= n || t >= n || f == t || board.tiles[f].piece != Some(self.piece) {
            return Err(
                ChessError::TileActionError {
                    why: reason("The move does not start from its piece's tile."),
                },
            );
        }
        proof {
            assert(b.tile_wf(b.tiles[f as int]));
            assert(b.tile_wf(b.tiles[t as int]));
        }
        let rel = board.piece(self.piece).rel_pos;
        let d = self.rel_translation;
        let new_rel = match rel {
            None => None,
            Some(c) => {
                if c.x as i64 + d.x as i64 > u32::MAX as i64 || c.y as i64 + d.y as i64
                    > u32::MAX as i64 {
                    return Err(
                        ChessError::CoordTranslationError {
                            why: reason("Resultant coordinate is out of range."),
                        },
                    );
                }
                match c.translate(&d) {
                    Ok(c2) => Some(c2),
                    Err(e) => {
                        return Err(e);
                    },
                }
            },
        };
        let move_num = board.piece(self.piece).move_num;
        let victim = board.tiles[t].piece;
        match victim {
            Some(v) => {
                board.set_alive(v, false);
            },
            None => {},
        }
        let team = copy_team(&board.tiles[f].team_on_tile);
        board.set_tile(self.target_tile, TileRef { piece: Some(self.piece), team_on_tile: team });
        board.set_tile(self.from_tile, TileRef { piece: None, team_on_tile: None });
        let next = if move_num == u32::MAX {
            0
        } else {
            move_num + 1
        };
        proof {
            if victim is Some {
                let v = victim->Some_0;
                lemma_with_piece_other(b, v, PieceRef { alive: false, ..b.piece_at(v) }, self.piece);
            }
        }
        board.set_motion(self.piece, new_rel, next);
        proof {
            lemma_executed_wf(b, self);
        }
        Ok(
            MoveLog {
                from: self.from,
                to: self.to,
                moved_piece: self.piece,
                killed_piece: victim,
                promoted_to: None,
                moved_from: self.from_tile,
                moved_to: self.target_tile,
                previous_rel_pos: rel,
            },
        )
    }
}

impl MoveLog {
    /// Undoes the logged move on `board` (see `reversed`). Records must be
    /// undone in the reverse order of execution, each once; a record that
    /// does not fit the board fails with a tile error, changing nothing.
    pub fn reverse(self, board: &mut Board) -> (r: Result<(), ChessError>)
        requires
            old(board).wf(),
        ensures
            final(board).wf(),
            r is Ok <==> can_reverse(old(board)@, self),
            r is Ok ==> final(board)@ == reversed(old(board)@, self),
            r is Err ==> final(board)@ == old(board)@ && r->Err_0.is_tile_action(),
    {
        let ghost b = board@;
        let n = board.tiles.len();
        let f = self.moved_from.index;
        let t = self.moved_to.index;
        let back_piece = match self.promoted_to {
            Some(p) => p,
            None => self.moved_piece,
        };
        let fail = ChessError::TileActionError {
            why: reason("The move record does not fit the board."),
        };
        if f >= n || t >= n || f == t || board.tiles[t].piece != Some(back_piece)
            || board.tiles[f].piece.is_some() {
            return Err(fail);
        }
        let mp = self.moved_piece;
        if mp.set >= board.piece_sets.len() || mp.index >= board.piece_sets[mp.set].pieces.len() {
            return Err(fail);
        }
        if self.promoted_to.is_some() {
            if !board.is_off_board(mp) || !board.piece(mp).alive {
                return Err(fail);
            }
        }
        match self.killed_piece {
            Some(k) => {
                if k.set >= board.piece_sets.len() || k.index >= board.piece_sets[k.set].pieces.len()
                    || k == mp || !board.is_off_board(k) {
                    return Err(fail);
                }
            },
            None => {},
        }
        proof {
            assert(can_reverse(b, self));
            lemma_reversed_wf(b, self);
        }
        let back = match self.promoted_to {
            Some(_) => TileRef {
                piece: Some(mp),
                team_on_tile: copy_team(&board.piece(mp).team),
            },
            None => TileRef {
                piece: board.tiles[t].piece,
                team_on_tile: copy_team(&board.tiles[t].team_on_tile),
            },
        };
        board.set_tile(self.moved_from, back);
        board.set_tile(self.moved_to, TileRef { piece: None, team_on_tile: None });
        let move_num = board.piece(mp).move_num;
        let prev = if move_num == 0 {
            u32::MAX
        } else {
            move_num - 1
        };
        board.set_motion(mp, self.previous_rel_pos, prev);
        match self.killed_piece {
            Some(k) => {
                board.set_alive(k, true);
                let team = copy_team(&board.piece(k).team);
                board.set_tile(self.moved_to, TileRef { piece: Some(k), team_on_tile: team });
            },
            None => {},
        }
        Ok(())
    }
}

} // verus!
