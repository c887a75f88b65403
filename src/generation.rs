use vstd::prelude::*;

use crate::board::{frame_to_abs, in_frame, lemma_index_in_range, Board, BoardView};
use crate::moves::{Coord, Move};
use crate::piece::Piece;
use crate::piece_rules::{lemma_step_rotates, rotate, Distance, MoveRules, MoveVec, NthMoveRules};
use crate::team::StartInfo;
use crate::tile::Tile;
use crate::vec2::Vec2;

verus! {

/// What a moving piece finds on a tile.
#[derive(Clone, Copy, Debug, PartialEq, Eq, Structural)]
pub enum Occupancy {
    Vacant,
    /// A piece of the mover's own team.
    Friend,
    /// Any other piece.
    Enemy,
}

/// How a ray treats the pieces it meets.
#[derive(Clone, Copy, Debug, PartialEq, Eq, Structural)]
pub enum RayKind {
    /// Stops at the first piece.
    Blunt,
    /// Passes over every piece.
    LineJump,
    /// Passes through enemies while the points passed through stay within
    /// the budget; stops at a friend.
    Pierce { max_points: u16 },
}

/// The fixed data of one piece's move generation: the board, the team's
/// name and edge, the piece, its board position, and whether vacant tiles
/// (`rv`) and enemy tiles (`re`) are recorded as destinations.
pub struct Walk {
    pub b: BoardView,
    pub name: Seq<char>,
    pub si: StartInfo,
    pub h: Piece,
    pub fx: int,
    pub fy: int,
    pub rv: bool,
    pub re: bool,
}

/// What stands on the in-bounds tile `(x, y)` from the view of team `name`.
pub open spec fn occupancy(b: BoardView, name: Seq<char>, x: int, y: int) -> Occupancy {
    let t = b.tiles[b.tile_index(x, y)];
    match t.piece {
        None => Occupancy::Vacant,
        Some(_) => if t.team_on_tile is Some && t.team_on_tile->Some_0.name@ == name {
            Occupancy::Friend
        } else {
            Occupancy::Enemy
        },
    }
}

/// The points of the piece on the occupied, in-bounds tile `(x, y)`.
pub open spec fn points_at(b: BoardView, x: int, y: int) -> int {
    b.piece_at(b.tiles[b.tile_index(x, y)].piece->Some_0).points as int
}

/// The move of the walk's piece to `(x, y)`, a displacement of `(rx, ry)` in
/// its team's frame.
pub open spec fn move_to(w: Walk, x: int, y: int, rx: int, ry: int) -> Move {
    Move {
        from: Coord { x: w.fx as u32, y: w.fy as u32 },
        to: Coord { x: x as u32, y: y as u32 },
        rel_translation: Vec2 { x: rx as i32, y: ry as i32 },
        piece: w.h,
        from_tile: Tile { index: w.b.tile_index(w.fx, w.fy) as usize },
        target_tile: Tile { index: w.b.tile_index(x, y) as usize },
    }
}

/// Appends a move unless the list already holds a move of the same piece to
/// the same destination.
pub open spec fn add_move(acc: Seq<Move>, m: Move) -> Seq<Move> {
    if exists|i: int| 0 <= i < acc.len() && acc[i].piece == m.piece && acc[i].to == m.to {
        acc
    } else {
        acc.push(m)
    }
}

pub open spec fn add_if(acc: Seq<Move>, c: bool, m: Move) -> Seq<Move> {
    if c {
        add_move(acc, m)
    } else {
        acc
    }
}

/// The obstruction rule on one tile reached by a single translation of
/// `(rx, ry)` in the team's frame: a vacant tile is recorded when `rv`, an
/// enemy tile when `re`, a friendly tile never.
pub open spec fn single_moves(acc: Seq<Move>, w: Walk, rx: int, ry: int) -> Seq<Move> {
    let d = rotate(w.si, rx, ry);
    let x = w.fx + d.0;
    let y = w.fy + d.1;
    if !w.b.in_bounds(x, y) {
        acc
    } else {
        match occupancy(w.b, w.name, x, y) {
            Occupancy::Vacant => add_if(acc, w.rv, move_to(w, x, y, rx, ry)),
            Occupancy::Friend => acc,
            Occupancy::Enemy => add_if(acc, w.re, move_to(w, x, y, rx, ry)),
        }
    }
}

/// A ray from the tile `(x, y)` onward, at most `k` more tiles, moving by
/// `(dx, dy)` on the board and `(rdx, rdy)` in the team's frame; `(rx, ry)`
/// is the frame displacement of `(x, y)` and `spent` the points already
/// pierced. The ray ends at the board's edge.
pub open spec fn ray_moves(
    acc: Seq<Move>,
    w: Walk,
    kind: RayKind,
    dx: int,
    dy: int,
    rdx: int,
    rdy: int,
    x: int,
    y: int,
    rx: int,
    ry: int,
    k: int,
    spent: int,
) -> Seq<Move>
    decreases k,
{
    if k <= 0 || !w.b.in_bounds(x, y) {
        acc
    } else {
        let m = move_to(w, x, y, rx, ry);
        match occupancy(w.b, w.name, x, y) {
            Occupancy::Vacant => ray_moves(
                add_if(acc, w.rv, m),
                w,
                kind,
                dx,
                dy,
                rdx,
                rdy,
                x + dx,
                y + dy,
                rx + rdx,
                ry + rdy,
                k - 1,
                spent,
            ),
            Occupancy::Friend => match kind {
                RayKind::LineJump => ray_moves(
                    acc,
                    w,
                    kind,
                    dx,
                    dy,
                    rdx,
                    rdy,
                    x + dx,
                    y + dy,
                    rx + rdx,
                    ry + rdy,
                    k - 1,
                    spent,
                ),
                _ => acc,
            },
            Occupancy::Enemy => {
                let a = add_if(acc, w.re, m);
                match kind {
                    RayKind::Blunt => a,
                    RayKind::LineJump => ray_moves(
                        a,
                        w,
                        kind,
                        dx,
                        dy,
                        rdx,
                        rdy,
                        x + dx,
                        y + dy,
                        rx + rdx,
                        ry + rdy,
                        k - 1,
                        spent,
                    ),
                    RayKind::Pierce { max_points } => {
                        let s = spent + points_at(w.b, x, y);
                        if s <= max_points {
                            ray_moves(
                                a,
                                w,
                                kind,
                                dx,
                                dy,
                                rdx,
                                rdy,
                                x + dx,
                                y + dy,
                                rx + rdx,
                                ry + rdy,
                                k - 1,
                                s,
                            )
                        } else {
                            a
                        }
                    },
                }
            },
        }
    }
}

/// How many tiles a ray may visit: its distance, or for an unbounded ray
/// `width + height`, which always reaches past the board's edge.
pub open spec fn reach(b: BoardView, d: Distance) -> int {
    match d {
        Distance::Finite { distance } => distance as int,
        Distance::Infinite => b.width + b.height,
    }
}

/// One ray of a rule, starting one step from the piece.
pub open spec fn vec_moves(acc: Seq<Move>, w: Walk, kind: RayKind, v: MoveVec) -> Seq<Move> {
    let rs = v.direction.step();
    let s = rotate(w.si, rs.0, rs.1);
    ray_moves(acc, w, kind, s.0, s.1, rs.0, rs.1, w.fx + s.0, w.fy + s.1, rs.0, rs.1, reach(w.b, v.distance), 0)
}

/// The rays `vs[i..]` in order.
pub open spec fn vecs_moves(acc: Seq<Move>, w: Walk, kind: RayKind, vs: Seq<MoveVec>, i: int) -> Seq<Move>
    decreases vs.len() - i,
{
    if i >= vs.len() {
        acc
    } else {
        vecs_moves(vec_moves(acc, w, kind, vs[i]), w, kind, vs, i + 1)
    }
}

/// How far a radius scan needs to look: the radius, but no further than
/// `width + height`, past which no tile is on the board.
pub open spec fn radius_reach(b: BoardView, t: u32) -> int {
    if t as int <= b.width + b.height {
        t as int
    } else {
        b.width + b.height
    }
}

/// The radius scan over frame displacements `(i, j)` with `-r <= i, j <= r`,
/// `i` outer and `j` inner, both ascending, from `(i, j)` on; the piece's
/// own tile is skipped.
pub open spec fn radius_moves(acc: Seq<Move>, w: Walk, r: int, i: int, j: int) -> Seq<Move>
    decreases r + 1 - i, r + 1 - j,
{
    if i > r || r < 0 {
        acc
    } else if j > r {
        radius_moves(acc, w, r, i + 1, -r)
    } else {
        let a = if i == 0 && j == 0 {
            acc
        } else {
            single_moves(acc, w, i, j)
        };
        radius_moves(a, w, r, i, j + 1)
    }
}

/// The eight reflections of a knight-style jump, in the team's frame:
/// `radius` along x then `offset` along y, then the same along y then x.
pub open spec fn knight_offsets(r: int, o: int) -> Seq<(int, int)> {
    seq![(r, o), (r, -o), (-r, o), (-r, -o), (o, r), (o, -r), (-o, r), (-o, -r)]
}

/// The single translations `ds[i..]` in order.
pub open spec fn jumps_moves(acc: Seq<Move>, w: Walk, ds: Seq<(int, int)>, i: int) -> Seq<Move>
    decreases ds.len() - i,
{
    if i >= ds.len() {
        acc
    } else {
        jumps_moves(single_moves(acc, w, ds[i].0, ds[i].1), w, ds, i + 1)
    }
}

/// The destinations of one rule.
pub open spec fn rule_moves(acc: Seq<Move>, w: Walk, rule: MoveRules) -> Seq<Move> {
    match rule {
        MoveRules::Jump { translation } => single_moves(acc, w, translation.x as int, translation.y as int),
        MoveRules::LineJump { move_info } => vecs_moves(acc, w, RayKind::LineJump, move_info@, 0),
        MoveRules::Pierce { move_info, max_points } => vecs_moves(
            acc,
            w,
            RayKind::Pierce { max_points },
            move_info@,
            0,
        ),
        MoveRules::Blunt { move_info } => vecs_moves(acc, w, RayKind::Blunt, move_info@, 0),
        MoveRules::Radius { tiles } => {
            let r = radius_reach(w.b, tiles);
            radius_moves(acc, w, r, -r, -r)
        },
        MoveRules::KnightJump { radius, offset } => jumps_moves(
            acc,
            w,
            knight_offsets(radius as int, offset as int),
            0,
        ),
    }
}

/// The rules `rs[i..]` in order.
pub open spec fn rules_moves(acc: Seq<Move>, w: Walk, rs: Seq<MoveRules>, i: int) -> Seq<Move>
    decreases rs.len() - i,
{
    if i >= rs.len() {
        acc
    } else {
        rules_moves(rule_moves(acc, w, rs[i]), w, rs, i + 1)
    }
}

/// The move-number rules `ns[i..]` that apply on move number `num`.
pub open spec fn nth_moves(acc: Seq<Move>, w: Walk, ns: Seq<NthMoveRules>, num: u32, i: int) -> Seq<Move>
    decreases ns.len() - i,
{
    if i >= ns.len() {
        acc
    } else if ns[i].nth_move == num {
        nth_moves(rules_moves(acc, w, ns[i].move_rules@, 0), w, ns, num, i + 1)
    } else {
        nth_moves(acc, w, ns, num, i + 1)
    }
}

/// The walk of piece `h` of a team with name `name` and edge `si`, from its
/// board position `(fx, fy)`.
pub open spec fn walk_of(b: BoardView, name: Seq<char>, si: StartInfo, h: Piece, fx: int, fy: int, rv: bool, re: bool) -> Walk {
    Walk { b, name, si, h, fx, fy, rv, re }
}

/// The board position of a piece: its frame position turned into board
/// terms, when it has one inside the frame.
pub open spec fn origin(b: BoardView, si: StartInfo, h: Piece) -> Option<(int, int)> {
    let p = b.piece_at(h);
    match p.rel_pos {
        Some(c) => if in_frame(b.width as int, b.height as int, si, c.x as int, c.y as int) {
            Some(frame_to_abs(b.width as int, b.height as int, si, c.x as int, c.y as int))
        } else {
            None
        },
        None => None,
    }
}

/// The moves of one piece: nothing for a dead piece or one without a
/// position; otherwise its move rules, then the move-number rules of its
/// current move number (vacant tiles recorded, enemies when its moves may
/// capture), then its kill rules (enemies recorded, vacant tiles when its
/// kill rules may move).
pub open spec fn piece_moves(acc: Seq<Move>, b: BoardView, name: Seq<char>, si: StartInfo, h: Piece) -> Seq<Move> {
    let p = b.piece_at(h);
    match origin(b, si, h) {
        Some(f) => if p.alive {
            let wm = walk_of(b, name, si, h, f.0, f.1, true, p.use_moves_for_kills);
            let wk = walk_of(b, name, si, h, f.0, f.1, p.use_kill_for_moves, true);
            let a1 = rules_moves(acc, wm, p.move_rules@, 0);
            let a2 = nth_moves(a1, wm, p.nth_move_rules@, p.move_num, 0);
            rules_moves(a2, wk, p.kill_rules@, 0)
        } else {
            acc
        },
        None => acc,
    }
}

/// The moves of pieces `i..` of set `s`, in roster order.
pub open spec fn set_moves(acc: Seq<Move>, b: BoardView, s: int, i: int) -> Seq<Move>
    decreases b.pieces[s].len() - i,
{
    if i >= b.pieces[s].len() {
        acc
    } else {
        set_moves(
            piece_moves(acc, b, b.teams[s].name@, b.teams[s].start_info, Piece { set: s as usize, index: i as usize }),
            b,
            s,
            i + 1,
        )
    }
}

} // verus!

verus! {

/// The exec-side data of one piece's move generation (see `Walk`).
pub(crate) struct Walker {
    pub si: StartInfo,
    pub piece: Piece,
    pub from: Coord,
    pub rv: bool,
    pub re: bool,
}

impl Walker {
    pub(crate) open spec fn walk(&self, b: BoardView, name: Seq<char>) -> Walk {
        walk_of(b, name, self.si, self.piece, self.from.x as int, self.from.y as int, self.rv, self.re)
    }

    /// The walker fits the board: the board is well formed, the piece is
    /// on it and the piece's position is on the board.
    pub(crate) open spec fn fits(&self, b: BoardView) -> bool {
        &&& b.wf()
        &&& b.valid_piece(self.piece)
        &&& b.in_bounds(self.from.x as int, self.from.y as int)
    }
}

/// Appends a move unless one of the same piece to the same destination is
/// already listed.
pub(crate) fn push_unique(moves: &mut Vec<Move>, m: Move)
    ensures
        final(moves)@ == add_move(old(moves)@, m),
{
    let mut i: usize = 0;
    while i < moves.len()
        invariant
            i <= moves@.len(),
            moves@ == old(moves)@,
            forall|j: int| 0 <= j < i ==> !(#[trigger] moves@[j].piece == m.piece && moves@[j].to == m.to),
        decreases moves@.len() - i,
    {
        if moves[i].piece == m.piece && moves[i].to == m.to {
            return;
        }
        i = i + 1;
    }
    moves.push(m);
}

/// The board-absolute form of a frame displacement.
pub(crate) fn rotate_exec(si: StartInfo, rx: i64, ry: i64) -> (r: (i64, i64))
    requires
        -0x1_0000_0000_0000 <= rx <= 0x1_0000_0000_0000,
        -0x1_0000_0000_0000 <= ry <= 0x1_0000_0000_0000,
    ensures
        (r.0 as int, r.1 as int) == rotate(si, rx as int, ry as int),
{
    match si {
        StartInfo::Bottom { .. } => (rx, ry),
        StartInfo::Top { .. } => (-rx, -ry),
        StartInfo::Left { .. } => (ry, -rx),
        StartInfo::Right { .. } => (-ry, rx),
    }
}

/// What team `name` finds on the in-bounds tile `(x, y)`, and the tile.
pub(crate) fn classify(board: &Board, name: &String, x: u32, y: u32) -> (r: (Occupancy, Tile))
    requires
        board.wf(),
        board@.in_bounds(x as int, y as int),
    ensures
        r.0 == occupancy(board@, name@, x as int, y as int),
        r.1.index == board@.tile_index(x as int, y as int),
{
    let t = board.tile_at(x, y).unwrap();
    proof {
        lemma_index_in_range(board@, x as int, y as int);
    }
    let tile = board.tile(t);
    let occ = match &tile.piece {
        None => Occupancy::Vacant,
        Some(_) => match &tile.team_on_tile {
            Some(team) => if team.name == *name {
                Occupancy::Friend
            } else {
                Occupancy::Enemy
            },
            None => Occupancy::Enemy,
        },
    };
    (occ, t)
}

/// The move of the walker's piece to `(x, y)`.
fn make_move(board: &Board, name: &String, wk: &Walker, x: u32, y: u32, to_tile: Tile, rx: i64, ry: i64) -> (r: Move)
    requires
        wk.fits(board@),
        board@.in_bounds(x as int, y as int),
        to_tile.index == board@.tile_index(x as int, y as int),
    ensures
        r == move_to(wk.walk(board@, name@), x as int, y as int, rx as int, ry as int),
{
    let from_tile = board.tile_at(wk.from.x, wk.from.y).unwrap();
    Move {
        from: wk.from,
        to: Coord { x, y },
        rel_translation: Vec2 { x: rx as i32, y: ry as i32 },
        piece: wk.piece,
        from_tile,
        target_tile: to_tile,
    }
}

} // verus!

verus! {

/// The obstruction rule on the tile one translation `(rx, ry)` away (see
/// `single_moves`).
pub(crate) fn single_exec(board: &Board, name: &String, wk: &Walker, rx: i64, ry: i64, moves: &mut Vec<Move>)
    requires
        wk.fits(board@),
        -0x1_0000_0000_0000 <= rx <= 0x1_0000_0000_0000,
        -0x1_0000_0000_0000 <= ry <= 0x1_0000_0000_0000,
    ensures
        final(moves)@ == single_moves(old(moves)@, wk.walk(board@, name@), rx as int, ry as int),
{
    let d = rotate_exec(wk.si, rx, ry);
    let x: i64 = wk.from.x as i64 + d.0;
    let y: i64 = wk.from.y as i64 + d.1;
    if x < 0 || y < 0 || x >= board.width as i64 || y >= board.height as i64 {
        return ;
    }
    let (occ, t) = classify(board, name, x as u32, y as u32);
    let m = make_move(board, name, wk, x as u32, y as u32, t, rx, ry);
    match occ {
        Occupancy::Vacant => {
            if wk.rv {
                push_unique(moves, m);
            }
        },
        Occupancy::Friend => {},
        Occupancy::Enemy => {
            if wk.re {
                push_unique(moves, m);
            }
        },
    }
}

/// One ray from the walker's piece: board step `(dx, dy)`, frame step
/// `(rdx, rdy)`, at most `k0` tiles (see `ray_moves`).
pub(crate) fn ray_exec(
    board: &Board,
    name: &String,
    wk: &Walker,
    kind: RayKind,
    dx: i64,
    dy: i64,
    rdx: i64,
    rdy: i64,
    k0: u64,
    moves: &mut Vec<Move>,
)
    requires
        wk.fits(board@),
        -1 <= dx <= 1,
        -1 <= dy <= 1,
        -1 <= rdx <= 1,
        -1 <= rdy <= 1,
        k0 <= 0x4_0000_0000,
    ensures
        final(moves)@ == ray_moves(
            old(moves)@,
            wk.walk(board@, name@),
            kind,
            dx as int,
            dy as int,
            rdx as int,
            rdy as int,
            wk.from.x + dx,
            wk.from.y + dy,
            rdx as int,
            rdy as int,
            k0 as int,
            0,
        ),
{
    let ghost w = wk.walk(board@, name@);
    let ghost target = ray_moves(
        old(moves)@,
        w,
        kind,
        dx as int,
        dy as int,
        rdx as int,
        rdy as int,
        wk.from.x + dx,
        wk.from.y + dy,
        rdx as int,
        rdy as int,
        k0 as int,
        0,
    );
    let mut x: i64 = wk.from.x as i64 + dx;
    let mut y: i64 = wk.from.y as i64 + dy;
    let mut rx: i64 = rdx;
    let mut ry: i64 = rdy;
    let mut k: u64 = k0;
    let mut spent: i64 = 0;
    while k > 0
        invariant
            wk.fits(board@),
            w == wk.walk(board@, name@),
            target == ray_moves(
                old(moves)@,
                w,
                kind,
                dx as int,
                dy as int,
                rdx as int,
                rdy as int,
                wk.from.x + dx,
                wk.from.y + dy,
                rdx as int,
                rdy as int,
                k0 as int,
                0,
            ),
            -1 <= dx <= 1,
            -1 <= dy <= 1,
            -1 <= rdx <= 1,
            -1 <= rdy <= 1,
            k0 <= 0x4_0000_0000,
            k <= k0,
            -1 <= x <= board.width,
            -1 <= y <= board.height,
            -(k0 - k + 1) <= rx <= k0 - k + 1,
            -(k0 - k + 1) <= ry <= k0 - k + 1,
            0 <= spent <= 0xffff,
            ray_moves(
                moves@,
                w,
                kind,
                dx as int,
                dy as int,
                rdx as int,
                rdy as int,
                x as int,
                y as int,
                rx as int,
                ry as int,
                k as int,
                spent as int,
            ) == target,
        decreases k,
    {
        if x < 0 || y < 0 || x >= board.width as i64 || y >= board.height as i64 {
            return ;
        }
        let (occ, t) = classify(board, name, x as u32, y as u32);
        let m = make_move(board, name, wk, x as u32, y as u32, t, rx, ry);
        match occ {
            Occupancy::Vacant => {
                if wk.rv {
                    push_unique(moves, m);
                }
            },
            Occupancy::Friend => {
                match kind {
                    RayKind::LineJump => {},
                    _ => {
                        return ;
                    },
                }
            },
            Occupancy::Enemy => {
                if wk.re {
                    push_unique(moves, m);
                }
                match kind {
                    RayKind::Blunt => {
                        return ;
                    },
                    RayKind::LineJump => {},
                    RayKind::Pierce { max_points } => {
                        proof {
                            lemma_index_in_range(board@, x as int, y as int);
                            assert(board@.tile_wf(board@.tiles[t.index as int]));
                        }
                        let victim = board.tile(t).piece.unwrap();
                        let pts = board.piece(victim).points as i64;
                        if spent + pts > max_points as i64 {
                            return ;
                        }
                        spent = spent + pts;
                    },
                }
            },
        }
        x = x + dx;
        y = y + dy;
        rx = rx + rdx;
        ry = ry + rdy;
        k = k - 1;
    }
}

} // verus!

verus! {

/// The rays of a rule, in order (see `vecs_moves`).
pub(crate) fn vecs_exec(board: &Board, name: &String, wk: &Walker, kind: RayKind, vs: &Vec<MoveVec>, moves: &mut Vec<Move>)
    requires
        wk.fits(board@),
    ensures
        final(moves)@ == vecs_moves(old(moves)@, wk.walk(board@, name@), kind, vs@, 0),
{
    let ghost w = wk.walk(board@, name@);
    let mut i: usize = 0;
    while i < vs.len()
        invariant
            wk.fits(board@),
            w == wk.walk(board@, name@),
            i <= vs@.len(),
            vecs_moves(moves@, w, kind, vs@, i as int) == vecs_moves(old(moves)@, w, kind, vs@, 0),
        decreases vs@.len() - i,
    {
        let v = vs[i];
        let rs = v.direction.as_vec();
        let abs = v.rel_to_absolute(wk.si).direction.as_vec();
        proof {
            lemma_step_rotates(v.direction, wk.si);
        }
        let k: u64 = match v.distance {
            Distance::Finite { distance } => distance as u64,
            Distance::Infinite => board.width as u64 + board.height as u64,
        };
        proof {
            let st = v.direction.step();
            assert(-1 <= st.0 <= 1 && -1 <= st.1 <= 1);
        }
        ray_exec(board, name, wk, kind, abs.x as i64, abs.y as i64, rs.x as i64, rs.y as i64, k, moves);
        i = i + 1;
    }
}

/// Every tile within `tiles` of the piece (see `radius_moves`).
pub(crate) fn radius_exec(board: &Board, name: &String, wk: &Walker, tiles: u32, moves: &mut Vec<Move>)
    requires
        wk.fits(board@),
    ensures
        final(moves)@ == radius_moves(
            old(moves)@,
            wk.walk(board@, name@),
            radius_reach(board@, tiles),
            -radius_reach(board@, tiles),
            -radius_reach(board@, tiles),
        ),
{
    let ghost w = wk.walk(board@, name@);
    let span: u64 = board.width as u64 + board.height as u64;
    let r: i64 = if tiles as u64 <= span {
        tiles as i64
    } else {
        span as i64
    };
    let ghost target = radius_moves(old(moves)@, w, r as int, -r as int, -r as int);
    let mut i: i64 = -r;
    while i <= r
        invariant
            wk.fits(board@),
            w == wk.walk(board@, name@),
            0 <= r <= 0x2_0000_0000,
            -r <= i <= r + 1,
            target == radius_moves(old(moves)@, w, r as int, -r as int, -r as int),
            radius_moves(moves@, w, r as int, i as int, -r as int) == target,
        decreases r + 1 - i,
    {
        let mut j: i64 = -r;
        while j <= r
            invariant
                wk.fits(board@),
                w == wk.walk(board@, name@),
                0 <= r <= 0x2_0000_0000,
                -r <= i <= r,
                -r <= j <= r + 1,
                target == radius_moves(old(moves)@, w, r as int, -r as int, -r as int),
                radius_moves(moves@, w, r as int, i as int, j as int) == target,
            decreases r + 1 - j,
        {
            if i != 0 || j != 0 {
                single_exec(board, name, wk, i, j, moves);
            }
            j = j + 1;
        }
        i = i + 1;
    }
}

/// The eight reflections of a knight-style jump (see `knight_offsets`).
pub(crate) fn knight_exec(board: &Board, name: &String, wk: &Walker, radius: u32, offset: u32, moves: &mut Vec<Move>)
    requires
        wk.fits(board@),
    ensures
        final(moves)@ == jumps_moves(
            old(moves)@,
            wk.walk(board@, name@),
            knight_offsets(radius as int, offset as int),
            0,
        ),
{
    let ghost w = wk.walk(board@, name@);
    let ghost ds = knight_offsets(radius as int, offset as int);
    let r = radius as i64;
    let o = offset as i64;
    proof {
        reveal_with_fuel(jumps_moves, 9);
    }
    let ghost a0 = moves@;
    single_exec(board, name, wk, r, o, moves);
    let ghost a1 = moves@;
    single_exec(board, name, wk, r, -o, moves);
    let ghost a2 = moves@;
    single_exec(board, name, wk, -r, o, moves);
    let ghost a3 = moves@;
    single_exec(board, name, wk, -r, -o, moves);
    let ghost a4 = moves@;
    single_exec(board, name, wk, o, r, moves);
    let ghost a5 = moves@;
    single_exec(board, name, wk, o, -r, moves);
    let ghost a6 = moves@;
    single_exec(board, name, wk, -o, r, moves);
    let ghost a7 = moves@;
    single_exec(board, name, wk, -o, -r, moves);
    proof {
        assert(jumps_moves(a7, w, ds, 7) == moves@);
        assert(jumps_moves(a6, w, ds, 6) == moves@);
        assert(jumps_moves(a5, w, ds, 5) == moves@);
        assert(jumps_moves(a4, w, ds, 4) == moves@);
        assert(jumps_moves(a3, w, ds, 3) == moves@);
        assert(jumps_moves(a2, w, ds, 2) == moves@);
        assert(jumps_moves(a1, w, ds, 1) == moves@);
        assert(jumps_moves(a0, w, ds, 0) == moves@);
    }
}

} // verus!
