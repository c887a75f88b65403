use vstd::prelude::*;

use crate::board::{
    frame_to_abs, in_frame, lemma_index_in_range, lemma_place_succeeds, lemma_tile_identity,
    partly_placed, placed_before, BoardView,
};
use crate::game::{team_index, team_moves};
use crate::generation::{
    add_if, add_move, jumps_moves, knight_offsets, move_to, nth_moves, occupancy, origin, piece_moves,
    points_at, radius_moves, radius_reach, ray_moves, reach, rule_moves, rules_moves, set_moves,
    single_moves, vec_moves, vecs_moves, walk_of, Occupancy, RayKind, Walk,
};
use crate::moves::{
    Coord,
    can_execute, executed, lemma_capture, lemma_execute_then_reverse, lemma_executed_wf, log_of,
    reversed, lemma_with_piece_other, moved_rel_pos, next_move_num,
    Move,
};
use crate::piece::PieceRef;
use crate::tile::TileRef;
use crate::piece::Piece;
use crate::piece_rules::{rotate, MoveRules, MoveVec, NthMoveRules};
use crate::team::StartInfo;

verus! {

/// Every move of the list can be executed on the board.
pub open spec fn all_executable(b: BoardView, ms: Seq<Move>) -> bool {
    forall|k: int| 0 <= k < ms.len() ==> can_execute(b, #[trigger] ms[k])
}

/// The move can be executed, and the frame position it gives its piece
/// names its destination tile.
pub open spec fn lands(b: BoardView, m: Move) -> bool {
    let p = b.piece_at(m.piece);
    let si = b.teams[m.piece.set as int].start_info;
    let c = moved_rel_pos(p.rel_pos, m.rel_translation)->Some_0;
    &&& can_execute(b, m)
    &&& c is Some
    &&& in_frame(b.width as int, b.height as int, si, c->Some_0.x as int, c->Some_0.y as int)
    &&& m.target_tile.index == b.tile_index(
        frame_to_abs(b.width as int, b.height as int, si, c->Some_0.x as int, c->Some_0.y as int).0,
        frame_to_abs(b.width as int, b.height as int, si, c->Some_0.x as int, c->Some_0.y as int).1,
    )
}

/// Every move of the list lands (see `lands`).
pub open spec fn all_landing(b: BoardView, ms: Seq<Move>) -> bool {
    forall|k: int| 0 <= k < ms.len() ==> lands(b, #[trigger] ms[k])
}

/// Every live piece belongs to the team of its set by name, and stands on
/// the tile its frame position names, when that position is in the frame.
pub open spec fn positions_consistent(b: BoardView) -> bool {
    forall|s: int, i: int|
        0 <= s < b.pieces.len() && 0 <= i < b.pieces[s].len() && #[trigger] b.pieces[s][i].alive
            ==> {
            let h = Piece { set: s as usize, index: i as usize };
            let p = b.pieces[s][i];
            &&& p.team is Some
            &&& p.team->Some_0.name@ == b.teams[s].name@
            &&& match origin(b, b.teams[s].start_info, h) {
                Some(f) => b.tiles[b.tile_index(f.0, f.1)].piece == Some(h),
                None => true,
            }
        }
}

/// The walk starts from the tile its piece stands on, at the board
/// position of the piece's frame position, and the piece is of the walk's
/// team.
pub open spec fn good_walk(w: Walk, b: BoardView) -> bool {
    let c = b.piece_at(w.h).rel_pos->Some_0;
    let t = b.tiles[b.tile_index(w.fx, w.fy)];
    &&& w.b == b
    &&& b.wf()
    &&& b.width <= i32::MAX
    &&& b.height <= i32::MAX
    &&& b.valid_piece(w.h)
    &&& w.si == b.teams[w.h.set as int].start_info
    &&& b.piece_at(w.h).rel_pos is Some
    &&& in_frame(b.width as int, b.height as int, w.si, c.x as int, c.y as int)
    &&& frame_to_abs(b.width as int, b.height as int, w.si, c.x as int, c.y as int) == (w.fx, w.fy)
    &&& t.piece == Some(w.h)
    &&& t.team_on_tile is Some
    &&& t.team_on_tile->Some_0.name@ == w.name
}

/// Moving inside a frame is moving on the board by the rotated displacement.
proof fn lemma_frame_shift(w: int, h: int, si: StartInfo, cx: int, cy: int, rx: int, ry: int)
    ensures
        frame_to_abs(w, h, si, cx + rx, cy + ry) == (
            frame_to_abs(w, h, si, cx, cy).0 + rotate(si, rx, ry).0,
            frame_to_abs(w, h, si, cx, cy).1 + rotate(si, rx, ry).1,
        ),
        in_frame(w, h, si, cx + rx, cy + ry) <==> (0 <= frame_to_abs(w, h, si, cx + rx, cy + ry).0 < w
            && 0 <= frame_to_abs(w, h, si, cx + rx, cy + ry).1 < h),
{
}

/// A destination that the obstruction rule records is executable.
proof fn lemma_recorded(w: Walk, b: BoardView, x: int, y: int, rx: int, ry: int)
    requires
        good_walk(w, b),
        b.in_bounds(x, y),
        x - w.fx == rotate(w.si, rx, ry).0,
        y - w.fy == rotate(w.si, rx, ry).1,
        occupancy(b, w.name, x, y) != Occupancy::Friend,
    ensures
        lands(b, move_to(w, x, y, rx, ry)),
{
    let c = b.piece_at(w.h).rel_pos->Some_0;
    let m = move_to(w, x, y, rx, ry);
    lemma_frame_shift(b.width as int, b.height as int, w.si, c.x as int, c.y as int, rx, ry);
    lemma_index_in_range(b, x, y);
    lemma_index_in_range(b, w.fx, w.fy);
    if x != w.fx || y != w.fy {
        lemma_tile_identity(b, x, y, w.fx, w.fy);
    } else {
        assert(occupancy(b, w.name, x, y) == Occupancy::Friend);
    }
    assert(m.from_tile != m.target_tile);
    assert(-0x8000_0000 < rx < 0x8000_0000);
    assert(-0x8000_0000 < ry < 0x8000_0000);
}

/// Appending an executable move keeps a list executable.
proof fn lemma_add_if(b: BoardView, acc: Seq<Move>, c: bool, m: Move)
    requires
        all_landing(b, acc),
        c ==> lands(b, m),
    ensures
        all_landing(b, add_if(acc, c, m)),
{
    if c {
        assert forall|k: int| 0 <= k < add_move(acc, m).len() implies lands(
            b,
            #[trigger] add_move(acc, m)[k],
        ) by {
            if k < acc.len() {
                assert(add_move(acc, m)[k] == acc[k]);
            }
        }
    }
}

proof fn lemma_single(w: Walk, b: BoardView, acc: Seq<Move>, rx: int, ry: int)
    requires
        good_walk(w, b),
        all_landing(b, acc),
    ensures
        all_landing(b, single_moves(acc, w, rx, ry)),
{
    let d = rotate(w.si, rx, ry);
    let x = w.fx + d.0;
    let y = w.fy + d.1;
    if b.in_bounds(x, y) {
        let m = move_to(w, x, y, rx, ry);
        if occupancy(b, w.name, x, y) != Occupancy::Friend {
            lemma_recorded(w, b, x, y, rx, ry);
            lemma_add_if(b, acc, w.rv, m);
            lemma_add_if(b, acc, w.re, m);
        }
    }
}

proof fn lemma_ray(
    w: Walk,
    b: BoardView,
    acc: Seq<Move>,
    kind: RayKind,
    dx: int,
    dy: int,
    rdx: int,
    rdy: int,
    x: int,
    y: int,
    rx: int,
    ry: int,
    k: int,
    spent: int,
)
    requires
        good_walk(w, b),
        all_landing(b, acc),
        (dx, dy) == rotate(w.si, rdx, rdy),
        x - w.fx == rotate(w.si, rx, ry).0,
        y - w.fy == rotate(w.si, rx, ry).1,
    ensures
        all_landing(b, ray_moves(acc, w, kind, dx, dy, rdx, rdy, x, y, rx, ry, k, spent)),
    decreases k,
{
    if k > 0 && b.in_bounds(x, y) {
        let m = move_to(w, x, y, rx, ry);
        let occ = occupancy(b, w.name, x, y);
        if occ != Occupancy::Friend {
            lemma_recorded(w, b, x, y, rx, ry);
            lemma_add_if(b, acc, w.rv, m);
            lemma_add_if(b, acc, w.re, m);
        }
        assert(x + dx - w.fx == rotate(w.si, rx + rdx, ry + rdy).0);
        assert(y + dy - w.fy == rotate(w.si, rx + rdx, ry + rdy).1);
        let a = match occ {
            Occupancy::Vacant => add_if(acc, w.rv, m),
            Occupancy::Friend => acc,
            Occupancy::Enemy => add_if(acc, w.re, m),
        };
        lemma_ray(w, b, a, kind, dx, dy, rdx, rdy, x + dx, y + dy, rx + rdx, ry + rdy, k - 1, spent);
        if occ == Occupancy::Enemy {
            let s2 = spent + points_at(b, x, y);
            lemma_ray(w, b, a, kind, dx, dy, rdx, rdy, x + dx, y + dy, rx + rdx, ry + rdy, k - 1, s2);
        }
    }
}

proof fn lemma_vecs(w: Walk, b: BoardView, acc: Seq<Move>, kind: RayKind, vs: Seq<MoveVec>, i: int)
    requires
        good_walk(w, b),
        all_landing(b, acc),
    ensures
        all_landing(b, vecs_moves(acc, w, kind, vs, i)),
    decreases vs.len() - i,
{
    if i < vs.len() {
        let v = vs[i];
        let rs = v.direction.step();
        let s = rotate(w.si, rs.0, rs.1);
        lemma_ray(w, b, acc, kind, s.0, s.1, rs.0, rs.1, w.fx + s.0, w.fy + s.1, rs.0, rs.1, reach(b, v.distance), 0);
        lemma_vecs(w, b, vec_moves(acc, w, kind, v), kind, vs, i + 1);
    }
}

proof fn lemma_radius(w: Walk, b: BoardView, acc: Seq<Move>, r: int, i: int, j: int)
    requires
        good_walk(w, b),
        all_landing(b, acc),
    ensures
        all_landing(b, radius_moves(acc, w, r, i, j)),
    decreases r + 1 - i, r + 1 - j,
{
    if i > r || r < 0 {
    } else if j > r {
        lemma_radius(w, b, acc, r, i + 1, -r);
    } else {
        if !(i == 0 && j == 0) {
            lemma_single(w, b, acc, i, j);
        }
        let a = if i == 0 && j == 0 {
            acc
        } else {
            single_moves(acc, w, i, j)
        };
        lemma_radius(w, b, a, r, i, j + 1);
    }
}

proof fn lemma_jumps(w: Walk, b: BoardView, acc: Seq<Move>, ds: Seq<(int, int)>, i: int)
    requires
        good_walk(w, b),
        all_landing(b, acc),
    ensures
        all_landing(b, jumps_moves(acc, w, ds, i)),
    decreases ds.len() - i,
{
    if i < ds.len() {
        lemma_single(w, b, acc, ds[i].0, ds[i].1);
        lemma_jumps(w, b, single_moves(acc, w, ds[i].0, ds[i].1), ds, i + 1);
    }
}

proof fn lemma_rule(w: Walk, b: BoardView, acc: Seq<Move>, rule: MoveRules)
    requires
        good_walk(w, b),
        all_landing(b, acc),
    ensures
        all_landing(b, rule_moves(acc, w, rule)),
{
    match rule {
        MoveRules::Jump { translation } => lemma_single(w, b, acc, translation.x as int, translation.y as int),
        MoveRules::LineJump { move_info } => lemma_vecs(w, b, acc, RayKind::LineJump, move_info@, 0),
        MoveRules::Pierce { move_info, max_points } => lemma_vecs(
            w,
            b,
            acc,
            RayKind::Pierce { max_points },
            move_info@,
            0,
        ),
        MoveRules::Blunt { move_info } => lemma_vecs(w, b, acc, RayKind::Blunt, move_info@, 0),
        MoveRules::Radius { tiles } => {
            let r = radius_reach(b, tiles);
            lemma_radius(w, b, acc, r, -r, -r);
        },
        MoveRules::KnightJump { radius, offset } => lemma_jumps(
            w,
            b,
            acc,
            knight_offsets(radius as int, offset as int),
            0,
        ),
    }
}

proof fn lemma_rules(w: Walk, b: BoardView, acc: Seq<Move>, rs: Seq<MoveRules>, i: int)
    requires
        good_walk(w, b),
        all_landing(b, acc),
    ensures
        all_landing(b, rules_moves(acc, w, rs, i)),
    decreases rs.len() - i,
{
    if i < rs.len() {
        lemma_rule(w, b, acc, rs[i]);
        lemma_rules(w, b, rule_moves(acc, w, rs[i]), rs, i + 1);
    }
}

proof fn lemma_nth(w: Walk, b: BoardView, acc: Seq<Move>, ns: Seq<NthMoveRules>, num: u32, i: int)
    requires
        good_walk(w, b),
        all_landing(b, acc),
    ensures
        all_landing(b, nth_moves(acc, w, ns, num, i)),
    decreases ns.len() - i,
{
    if i < ns.len() {
        if ns[i].nth_move == num {
            lemma_rules(w, b, acc, ns[i].move_rules@, 0);
            lemma_nth(w, b, rules_moves(acc, w, ns[i].move_rules@, 0), ns, num, i + 1);
        } else {
            lemma_nth(w, b, acc, ns, num, i + 1);
        }
    }
}

proof fn lemma_set(b: BoardView, acc: Seq<Move>, s: int, i: int)
    requires
        b.wf(),
        b.width <= i32::MAX,
        b.height <= i32::MAX,
        positions_consistent(b),
        0 <= s < b.pieces.len(),
        0 <= i,
        all_landing(b, acc),
    ensures
        all_landing(b, set_moves(acc, b, s, i)),
    decreases b.pieces[s].len() - i,
{
    if i < b.pieces[s].len() {
        let h = Piece { set: s as usize, index: i as usize };
        let p = b.piece_at(h);
        let name = b.teams[s].name@;
        let si = b.teams[s].start_info;
        match origin(b, si, h) {
            Some(f) => if p.alive {
                assert(b.pieces[s][i].alive);
                let idx = b.tile_index(f.0, f.1);
                lemma_index_in_range(b, f.0, f.1);
                assert(b.tile_wf(b.tiles[idx]));
                let wm = walk_of(b, name, si, h, f.0, f.1, true, p.use_moves_for_kills);
                let wk = walk_of(b, name, si, h, f.0, f.1, p.use_kill_for_moves, true);
                assert(good_walk(wm, b));
                assert(good_walk(wk, b));
                lemma_rules(wm, b, acc, p.move_rules@, 0);
                let a1 = rules_moves(acc, wm, p.move_rules@, 0);
                lemma_nth(wm, b, a1, p.nth_move_rules@, p.move_num, 0);
                let a2 = nth_moves(a1, wm, p.nth_move_rules@, p.move_num, 0);
                lemma_rules(wk, b, a2, p.kill_rules@, 0);
            },
            None => {},
        }
        lemma_set(b, piece_moves(acc, b, name, si, h), s, i + 1);
    }
}

/// On a well-formed board where every live piece stands where its frame
/// position says and belongs to its set's team, every move generated for a
/// team can be executed, and gives its piece a frame position that names
/// the destination tile.
pub proof fn lemma_generated_moves_executable(b: BoardView, name: Seq<char>)
    requires
        b.wf(),
        b.width <= i32::MAX,
        b.height <= i32::MAX,
        positions_consistent(b),
        team_moves(b, name) is Some,
    ensures
        all_executable(b, team_moves(b, name)->Some_0),
        all_landing(b, team_moves(b, name)->Some_0),
{
    let s = team_index(b, name, 0)->Some_0;
    lemma_team_index(b, name, 0);
    lemma_set(b, Seq::empty(), s, 0);
    let ms = team_moves(b, name)->Some_0;
    assert forall|k: int| 0 <= k < ms.len() implies can_execute(b, #[trigger] ms[k]) by {
        assert(lands(b, ms[k]));
    }
}

proof fn lemma_team_index(b: BoardView, name: Seq<char>, s: int)
    requires
        team_index(b, name, s) is Some,
    ensures
        0 <= team_index(b, name, s)->Some_0 < b.teams.len(),
    decreases b.teams.len() - s,
{
    if 0 <= s < b.teams.len() && b.teams[s].name@ != name {
        lemma_team_index(b, name, s + 1);
    }
}

} // verus!

verus! {

/// A generated move onto an occupied tile is a capture of an enemy piece
/// that can be executed: the occupant dies and leaves the board, the
/// destination holds only the moving piece, the origin is vacant, no other
/// tile changes, and undoing the record restores the board.
pub proof fn lemma_generated_capture(b: BoardView, name: Seq<char>, k: int)
    requires
        b.wf(),
        b.width <= i32::MAX,
        b.height <= i32::MAX,
        positions_consistent(b),
        team_moves(b, name) is Some,
        0 <= k < team_moves(b, name)->Some_0.len(),
        b.tiles[team_moves(b, name)->Some_0[k].target_tile.index as int].piece is Some,
    ensures
        ({
            let m = team_moves(b, name)->Some_0[k];
            let t = m.target_tile.index as int;
            let v = b.tiles[t].piece->Some_0;
            let e = executed(b, m);
            &&& can_execute(b, m)
            &&& v != m.piece
            &&& e.valid_piece(v)
            &&& !e.piece_at(v).alive
            &&& e.off_board(v)
            &&& e.tiles[t].piece == Some(m.piece)
            &&& e.tiles[m.from_tile.index as int] == TileRef::empty()
            &&& forall|j: int|
                0 <= j < b.tiles.len() && j != m.from_tile.index && j != t ==> #[trigger] e.tiles[j] == b.tiles[j]
            &&& reversed(e, log_of(b, m)) == b
        }),
{
    lemma_generated_moves_executable(b, name);
    let m = team_moves(b, name)->Some_0[k];
    assert(can_execute(b, m));
    assert(b.tile_wf(b.tiles[m.from_tile.index as int]));
    lemma_capture(b, m);
    lemma_execute_then_reverse(b, m);
}

/// Executing a move that lands keeps every live piece where its frame
/// position says, so the moves generated afterwards can be executed too.
pub proof fn lemma_execute_keeps_positions(b: BoardView, m: Move)
    requires
        b.wf(),
        positions_consistent(b),
        lands(b, m),
    ensures
        executed(b, m).wf(),
        positions_consistent(executed(b, m)),
{
    let e = executed(b, m);
    let f = m.from_tile.index as int;
    let t = m.target_tile.index as int;
    let mover = b.piece_at(m.piece);
    let mover2 = PieceRef {
        rel_pos: moved_rel_pos(mover.rel_pos, m.rel_translation)->Some_0,
        move_num: next_move_num(mover.move_num),
        ..mover
    };
    lemma_executed_wf(b, m);
    assert(b.tile_wf(b.tiles[f]));
    assert(b.tile_wf(b.tiles[t]));
    let b1 = match b.tiles[t].piece {
        Some(v) => b.with_piece(v, PieceRef { alive: false, ..b.piece_at(v) }),
        None => b,
    };
    let b2 = b1.with_tile(t, TileRef { piece: Some(m.piece), team_on_tile: b.tiles[f].team_on_tile }).with_tile(
        f,
        TileRef::empty(),
    );
    assert forall|s: int, i: int|
        0 <= s < e.pieces.len() && 0 <= i < e.pieces[s].len() && #[trigger] e.pieces[s][i].alive
            implies {
        let h = Piece { set: s as usize, index: i as usize };
        let p = e.pieces[s][i];
        &&& p.team is Some
        &&& p.team->Some_0.name@ == e.teams[s].name@
        &&& match origin(e, e.teams[s].start_info, h) {
            Some(o) => e.tiles[e.tile_index(o.0, o.1)].piece == Some(h),
            None => true,
        }
    } by {
        let h = Piece { set: s as usize, index: i as usize };
        assert(b.valid_piece(h));
        if b.tiles[t].piece is Some {
            let v = b.tiles[t].piece->Some_0;
            lemma_with_piece_other(b, v, PieceRef { alive: false, ..b.piece_at(v) }, h);
        }
        lemma_with_piece_other(b2, m.piece, mover2, h);
        if h == m.piece {
            assert(e.piece_at(h) == mover2);
            assert(b.pieces[s][i].alive);
        } else {
            assert(b.tiles[t].piece != Some(h));
            assert(e.piece_at(h) == b.piece_at(h));
            assert(b.pieces[s][i].alive);
            match origin(b, b.teams[s].start_info, h) {
                Some(o) => {
                    let idx = b.tile_index(o.0, o.1);
                    lemma_index_in_range(b, o.0, o.1);
                    assert(b.tiles[idx].piece == Some(h));
                    assert(idx != f);
                    assert(idx != t);
                    assert(e.tiles[idx] == b.tiles[idx]);
                },
                None => {},
            }
        }
    }
}

} // verus!

verus! {

/// Every piece belongs to the team of its set by name.
pub open spec fn teams_consistent(b: BoardView) -> bool {
    forall|s: int, i: int|
        0 <= s < b.pieces.len() && 0 <= i < b.pieces[s].len() ==> {
            let p = #[trigger] b.pieces[s][i];
            p.team is Some && p.team->Some_0.name@ == b.teams[s].name@
        }
}

/// Piece `j` of set `t` once `init` has installed it: it has its starting
/// frame position.
pub open spec fn installed(b: BoardView, t: int, j: int) -> PieceRef {
    let f = b.start_frame(t, j);
    PieceRef { rel_pos: Some(Coord { x: f.0 as u32, y: f.1 as u32 }), ..b.pieces[t][j] }
}

/// `c` is `b` during `init`, before piece `i` of set `s`: each live piece
/// already placed is installed and stands on its starting tile, and every
/// other piece is unchanged.
pub open spec fn placed_consistently(c: BoardView, b: BoardView, s: int, i: int) -> bool {
    &&& partly_placed(c, b, s, i)
    &&& forall|t: int, j: int|
        0 <= t < b.pieces.len() && 0 <= j < b.pieces[t].len() ==> #[trigger] c.pieces[t][j] == if b.pieces[t][j].alive
            && placed_before(Piece { set: t as usize, index: j as usize }, s, i) {
            installed(b, t, j)
        } else {
            b.pieces[t][j]
        }
    &&& forall|t: int, j: int|
        0 <= t < b.pieces.len() && 0 <= j < b.pieces[t].len() && (#[trigger] b.pieces[t][j]).alive
            && placed_before(Piece { set: t as usize, index: j as usize }, s, i)
            ==> c.tiles[b.start_tile(t, j)].piece == Some(Piece { set: t as usize, index: j as usize })
}

proof fn lemma_place_consistently(c: BoardView, b: BoardView, s: int, i: int)
    requires
        b.wf(),
        b.placeable(),
        placed_consistently(c, b, s, i),
        0 <= s < b.pieces.len(),
        0 <= i < b.pieces[s].len(),
    ensures
        c.place(s, i) is Some,
        placed_consistently(c.place(s, i)->Some_0, b, s, i + 1),
{
    lemma_place_succeeds(c, b, s, i);
    let r = c.place(s, i)->Some_0;
    let h = Piece { set: s as usize, index: i as usize };
    assert(c.pieces[s][i] == b.pieces[s][i]);
    if c.pieces[s][i].alive {
        let f = b.start_frame(s, i);
        let a = frame_to_abs(b.width as int, b.height as int, b.teams[s].start_info, f.0, f.1);
        let idx = b.tile_index(a.0, a.1);
        let p2 = PieceRef { rel_pos: Some(Coord { x: f.0 as u32, y: f.1 as u32 }), ..c.pieces[s][i] };
        lemma_index_in_range(b, a.0, a.1);
        assert(c.start_frame(s, i) == f);
        assert(r == c.with_tile(idx, TileRef::holding(h, c.pieces[s][i].team)).with_piece(h, p2));
        assert(c.tiles[idx].piece is None);
        assert forall|t: int, j: int| 0 <= t < b.pieces.len() && 0 <= j < b.pieces[t].len() implies #[trigger] r.pieces[t][j]
            == if b.pieces[t][j].alive && placed_before(Piece { set: t as usize, index: j as usize }, s, i + 1) {
            installed(b, t, j)
        } else {
            b.pieces[t][j]
        } by {
            if t == s && j == i {
            } else {
                assert(r.pieces[t][j] == c.pieces[t][j]);
            }
        }
        assert forall|t: int, j: int|
            0 <= t < b.pieces.len() && 0 <= j < b.pieces[t].len() && (#[trigger] b.pieces[t][j]).alive
                && placed_before(Piece { set: t as usize, index: j as usize }, s, i + 1)
            implies r.tiles[b.start_tile(t, j)].piece == Some(Piece { set: t as usize, index: j as usize }) by {
            if t == s && j == i {
            } else {
                assert(placed_before(Piece { set: t as usize, index: j as usize }, s, i));
                let g = b.start_frame(t, j);
                let ag = frame_to_abs(b.width as int, b.height as int, b.teams[t].start_info, g.0, g.1);
                lemma_index_in_range(b, ag.0, ag.1);
                assert(b.start_tile(t, j) != idx);
            }
        }
    } else {
        assert(r == c);
        assert forall|t: int, j: int| 0 <= t < b.pieces.len() && 0 <= j < b.pieces[t].len() implies #[trigger] r.pieces[t][j]
            == if b.pieces[t][j].alive && placed_before(Piece { set: t as usize, index: j as usize }, s, i + 1) {
            installed(b, t, j)
        } else {
            b.pieces[t][j]
        } by {}
    }
}

proof fn lemma_place_set_consistently(c: BoardView, b: BoardView, s: int, i: int, m: int)
    requires
        b.wf(),
        b.placeable(),
        placed_consistently(c, b, s, i),
        0 <= s < b.pieces.len(),
        0 <= i <= m,
        m == b.pieces[s].len(),
    ensures
        c.place_set(s, i, m) is Some,
        placed_consistently(c.place_set(s, i, m)->Some_0, b, s + 1, 0),
    decreases m - i,
{
    if i < m {
        lemma_place_consistently(c, b, s, i);
        lemma_place_set_consistently(c.place(s, i)->Some_0, b, s, i + 1, m);
    } else {
        assert forall|k: int| 0 <= k < c.tiles.len() && (#[trigger] c.tiles[k]).piece is Some implies {
            let g = c.tiles[k].piece->Some_0;
            placed_before(g, s + 1, 0) && k == b.start_tile(g.set as int, g.index as int)
        } by {
            let g = c.tiles[k].piece->Some_0;
            assert(c.tile_wf(c.tiles[k]));
        }
        assert forall|t: int, j: int| 0 <= t < b.pieces.len() && 0 <= j < b.pieces[t].len() implies #[trigger] c.pieces[t][j]
            == if b.pieces[t][j].alive && placed_before(Piece { set: t as usize, index: j as usize }, s + 1, 0) {
            installed(b, t, j)
        } else {
            b.pieces[t][j]
        } by {
            assert(placed_before(Piece { set: t as usize, index: j as usize }, s, m)
                == placed_before(Piece { set: t as usize, index: j as usize }, s + 1, 0));
        }
        assert forall|t: int, j: int|
            0 <= t < b.pieces.len() && 0 <= j < b.pieces[t].len() && (#[trigger] b.pieces[t][j]).alive
                && placed_before(Piece { set: t as usize, index: j as usize }, s + 1, 0)
            implies c.tiles[b.start_tile(t, j)].piece == Some(Piece { set: t as usize, index: j as usize }) by {
            assert(placed_before(Piece { set: t as usize, index: j as usize }, s, m));
        }
    }
}

proof fn lemma_place_sets_consistently(c: BoardView, b: BoardView, s: int, n: int)
    requires
        b.wf(),
        b.placeable(),
        placed_consistently(c, b, s, 0),
        0 <= s <= n,
        n == b.pieces.len(),
    ensures
        c.place_sets(s, n) is Some,
        placed_consistently(c.place_sets(s, n)->Some_0, b, n, 0),
    decreases n - s,
{
    if s < n {
        let m = c.pieces[s].len() as int;
        lemma_place_set_consistently(c, b, s, 0, m);
        lemma_place_sets_consistently(c.place_set(s, 0, m)->Some_0, b, s + 1, n);
    }
}

/// Initializing a board whose tiles are vacant, whose live pieces start
/// inside their frames on distinct tiles, and whose pieces belong to their
/// sets' teams, succeeds: every live piece is installed on its starting
/// tile with its starting frame position, dead pieces are untouched, no
/// other tile is occupied, and every live piece stands where its frame
/// position says.
pub proof fn lemma_init_positions(b: BoardView)
    requires
        b.wf(),
        b.placeable(),
        teams_consistent(b),
    ensures
        b.initialized() is Some,
        b.initialized()->Some_0.wf(),
        b.initialized()->Some_0.same_shape(b),
        forall|t: int, j: int|
            0 <= t < b.pieces.len() && 0 <= j < b.pieces[t].len() ==> #[trigger] b.initialized()->Some_0.pieces[t][j]
                == if b.pieces[t][j].alive {
                installed(b, t, j)
            } else {
                b.pieces[t][j]
            },
        forall|t: int, j: int|
            0 <= t < b.pieces.len() && 0 <= j < b.pieces[t].len() && #[trigger] b.pieces[t][j].alive
                ==> b.initialized()->Some_0.tiles[b.start_tile(t, j)].piece == Some(
                Piece { set: t as usize, index: j as usize },
            ),
        forall|k: int|
            0 <= k < b.tiles.len() && (#[trigger] b.initialized()->Some_0.tiles[k]).piece is Some ==> {
                let g = b.initialized()->Some_0.tiles[k].piece->Some_0;
                b.valid_piece(g) && b.pieces[g.set as int][g.index as int].alive && k == b.start_tile(
                    g.set as int,
                    g.index as int,
                )
            },
        positions_consistent(b.initialized()->Some_0),
{
    let n = b.pieces.len() as int;
    lemma_place_sets_consistently(b, b, 0, n);
    let c = b.initialized()->Some_0;
    assert forall|t: int, j: int| 0 <= t < b.pieces.len() && 0 <= j < b.pieces[t].len() implies #[trigger] c.pieces[t][j]
        == if b.pieces[t][j].alive {
        installed(b, t, j)
    } else {
        b.pieces[t][j]
    } by {
        assert(placed_before(Piece { set: t as usize, index: j as usize }, n, 0));
    }
    assert forall|t: int, j: int|
        0 <= t < b.pieces.len() && 0 <= j < b.pieces[t].len() && #[trigger] b.pieces[t][j].alive implies c.tiles[b.start_tile(t, j)].piece
            == Some(Piece { set: t as usize, index: j as usize }) by {
        assert(placed_before(Piece { set: t as usize, index: j as usize }, n, 0));
    }
    assert forall|k: int| 0 <= k < b.tiles.len() && (#[trigger] c.tiles[k]).piece is Some implies {
        let g = c.tiles[k].piece->Some_0;
        b.valid_piece(g) && b.pieces[g.set as int][g.index as int].alive && k == b.start_tile(g.set as int, g.index as int)
    } by {
        let g = c.tiles[k].piece->Some_0;
        assert(c.tile_wf(c.tiles[k]));
        assert(c.pieces[g.set as int][g.index as int].alive);
        assert(placed_before(g, n, 0));
    }
    assert forall|s: int, i: int|
        0 <= s < c.pieces.len() && 0 <= i < c.pieces[s].len() && #[trigger] c.pieces[s][i].alive
            implies {
        let h = Piece { set: s as usize, index: i as usize };
        let p = c.pieces[s][i];
        &&& p.team is Some
        &&& p.team->Some_0.name@ == c.teams[s].name@
        &&& match origin(c, c.teams[s].start_info, h) {
            Some(o) => c.tiles[c.tile_index(o.0, o.1)].piece == Some(h),
            None => true,
        }
    } by {
        assert(placed_before(Piece { set: s as usize, index: i as usize }, n, 0));
        assert(b.pieces[s][i].alive);
        let f = b.start_frame(s, i);
        assert(in_frame(b.width as int, b.height as int, b.teams[s].start_info, f.0, f.1));
    }
}

} // verus!
