use vstd::prelude::*;

use crate::board::{frame_to_abs, in_frame, lemma_tile_identity, Board, BoardView};
use crate::legality::{installed, lemma_init_positions, positions_consistent, teams_consistent};
use crate::error::{reason, ChessError};
use crate::generation::{
    knight_exec, nth_moves, piece_moves, radius_exec, rule_moves, rules_moves, set_moves,
    single_exec, vecs_exec, RayKind, Walker,
};
use crate::moves::{
    can_execute, can_reverse, executed, log_of, next_move_num, prev_move_num, reversed,
    tiles_ready, Coord, Move, MoveLog,
};
use crate::piece::defaults::{
    is_bishop, is_king, is_knight, is_pawn, is_queen, is_rook, lemma_copy_keeps_kind,
};
use crate::piece::{defaults, Piece, PieceBuilder, PieceRef};
use crate::piece_rules::{MoveRules, NthMoveRules};
use crate::piece_set::PieceSet;
use crate::team::{StartInfo, Team};
use vstd::string::StringExecFns;

verus! {

/// The index of the first piece set, from `s` on, whose team is named
/// `name`.
pub open spec fn team_index(b: BoardView, name: Seq<char>, s: int) -> Option<int>
    decreases b.teams.len() - s,
{
    if s < 0 || s >= b.teams.len() {
        None
    } else if b.teams[s].name@ == name {
        Some(s)
    } else {
        team_index(b, name, s + 1)
    }
}

/// The moves of the team named `name`: every move of every piece of its
/// set, in roster order; None when no team has that name.
pub open spec fn team_moves(b: BoardView, name: Seq<char>) -> Option<Seq<Move>> {
    match team_index(b, name, 0) {
        Some(s) => Some(set_moves(Seq::empty(), b, s, 0)),
        None => None,
    }
}

/// The starting coordinates of the standard roster: eight pawns on the
/// second row, then king, queen, two rooks, two bishops and two knights.
pub open spec fn standard_starts() -> Seq<Coord> {
    Seq::new(8, |i: int| Coord { x: i as u32, y: 1 }) + seq![
        Coord { x: 4, y: 0 },
        Coord { x: 3, y: 0 },
        Coord { x: 0, y: 0 },
        Coord { x: 7, y: 0 },
        Coord { x: 2, y: 0 },
        Coord { x: 5, y: 0 },
        Coord { x: 1, y: 0 },
        Coord { x: 6, y: 0 },
    ]
}

/// The kind of piece at index `i` of the standard roster: eight pawns, then
/// king, queen, two rooks, two bishops and two knights.
pub open spec fn standard_kind(i: int, p: PieceRef) -> bool {
    if i < 8 {
        is_pawn(p)
    } else if i == 8 {
        is_king(p)
    } else if i == 9 {
        is_queen(p)
    } else if i == 10 || i == 11 {
        is_rook(p)
    } else if i == 12 || i == 13 {
        is_bishop(p)
    } else {
        is_knight(p)
    }
}

/// Piece `i` of a standard roster of `team`: of its standard kind, alive, of
/// the team, at its standard starting coordinate, before its first move.
pub open spec fn standard_piece(p: PieceRef, i: int, team: Team) -> bool {
    &&& standard_kind(i, p)
    &&& p.alive
    &&& p.team == Some(team)
    &&& p.rel_pos == Some(standard_starts()[i])
    &&& p.move_num == 1
}

/// The standard starting position: an 8 by 8 board, "White" on the bottom
/// edge and "Black" on the top edge without offset, each with the sixteen
/// standard pieces, every one of them on its starting tile, and no other
/// tile occupied.
pub open spec fn standard_position(b: BoardView) -> bool {
    &&& b.wf()
    &&& b.width == 8
    &&& b.height == 8
    &&& b.teams.len() == 2
    &&& b.teams[0].name@ == "White"@
    &&& b.teams[0].start_info == (StartInfo::Bottom { offset: 0 })
    &&& b.teams[1].name@ == "Black"@
    &&& b.teams[1].start_info == (StartInfo::Top { offset: 0 })
    &&& b.starts == seq![standard_starts(), standard_starts()]
    &&& b.pieces.len() == 2
    &&& b.pieces[0].len() == 16
    &&& b.pieces[1].len() == 16
    &&& forall|s: int, i: int|
        0 <= s < 2 && 0 <= i < 16 ==> {
            &&& standard_piece(#[trigger] b.pieces[s][i], i, b.teams[s])
            &&& b.tiles[b.start_tile(s, i)].piece == Some(Piece { set: s as usize, index: i as usize })
        }
    &&& forall|k: int|
        0 <= k < b.tiles.len() && (#[trigger] b.tiles[k]).piece is Some ==> {
            let g = b.tiles[k].piece->Some_0;
            g.set < 2 && g.index < 16 && k == b.start_tile(g.set as int, g.index as int)
        }
}

/// The standard starting coordinates lie on the two bottom rows of an 8 by 8
/// board and are pairwise distinct.
proof fn lemma_standard_starts()
    ensures
        standard_starts().len() == 16,
        forall|i: int| 0 <= i < 8 ==> #[trigger] standard_starts()[i] == (Coord { x: i as u32, y: 1 }),
        standard_starts()[8] == (Coord { x: 4, y: 0 }),
        standard_starts()[9] == (Coord { x: 3, y: 0 }),
        standard_starts()[10] == (Coord { x: 0, y: 0 }),
        standard_starts()[11] == (Coord { x: 7, y: 0 }),
        standard_starts()[12] == (Coord { x: 2, y: 0 }),
        standard_starts()[13] == (Coord { x: 5, y: 0 }),
        standard_starts()[14] == (Coord { x: 1, y: 0 }),
        standard_starts()[15] == (Coord { x: 6, y: 0 }),
        forall|i: int| 0 <= i < 16 ==> (#[trigger] standard_starts()[i]).x < 8 && standard_starts()[i].y < 2,
        forall|i: int, j: int|
            0 <= i < 16 && 0 <= j < 16 && i != j ==> #[trigger] standard_starts()[i] != #[trigger] standard_starts()[j],
{
    let st = standard_starts();
    assert(st[0] == Coord { x: 0, y: 1 });
    assert(st[1] == Coord { x: 1, y: 1 });
    assert(st[2] == Coord { x: 2, y: 1 });
    assert(st[3] == Coord { x: 3, y: 1 });
    assert(st[4] == Coord { x: 4, y: 1 });
    assert(st[5] == Coord { x: 5, y: 1 });
    assert(st[6] == Coord { x: 6, y: 1 });
    assert(st[7] == Coord { x: 7, y: 1 });
    assert(st[8] == Coord { x: 4, y: 0 });
    assert(st[9] == Coord { x: 3, y: 0 });
    assert(st[10] == Coord { x: 0, y: 0 });
    assert(st[11] == Coord { x: 7, y: 0 });
    assert(st[12] == Coord { x: 2, y: 0 });
    assert(st[13] == Coord { x: 5, y: 0 });
    assert(st[14] == Coord { x: 1, y: 0 });
    assert(st[15] == Coord { x: 6, y: 0 });
}

/// A board of two sets facing each other from the bottom and top edges
/// without offset, whose live pieces start at distinct coordinates of the
/// bottom half of the frame, on vacant tiles, can be initialized.
proof fn lemma_facing_sets_placeable(b: BoardView)
    requires
        b.wf(),
        b.pieces.len() == 2,
        b.teams[0].start_info == (StartInfo::Bottom { offset: 0 }),
        b.teams[1].start_info == (StartInfo::Top { offset: 0 }),
        forall|k: int| 0 <= k < b.tiles.len() ==> (#[trigger] b.tiles[k]).piece is None,
        forall|s: int, i: int|
            0 <= s < 2 && 0 <= i < b.starts[s].len() ==> (#[trigger] b.starts[s][i]).x < b.width
                && 2 * b.starts[s][i].y + 1 < b.height,
        forall|s: int, i: int, j: int|
            0 <= s < 2 && 0 <= i < b.starts[s].len() && 0 <= j < b.starts[s].len() && i != j
                ==> #[trigger] b.starts[s][i] != #[trigger] b.starts[s][j],
    ensures
        b.placeable(),
{
    assert forall|s1: int, i1: int, s2: int, i2: int|
        0 <= s1 < b.pieces.len() && 0 <= i1 < b.pieces[s1].len() && 0 <= s2 < b.pieces.len() && 0
            <= i2 < b.pieces[s2].len() && b.pieces[s1][i1].alive && b.pieces[s2][i2].alive && (s1
            != s2 || i1 != i2) implies #[trigger] b.start_tile(s1, i1) != #[trigger] b.start_tile(
        s2,
        i2,
    ) by {
        let c1 = b.starts[s1][i1];
        let c2 = b.starts[s2][i2];
        let w = b.width as int;
        let h = b.height as int;
        let a1 = frame_to_abs(w, h, b.teams[s1].start_info, c1.x as int, c1.y as int);
        let a2 = frame_to_abs(w, h, b.teams[s2].start_info, c2.x as int, c2.y as int);
        assert(b.start_frame(s1, i1) == (c1.x as int, c1.y as int));
        assert(b.start_frame(s2, i2) == (c2.x as int, c2.y as int));
        if s1 == s2 {
            assert(c1 != c2);
            assert(c1.x != c2.x || c1.y != c2.y);
        } else {
            assert(a1.1 != a2.1);
        }
        assert(a1 != a2);
        lemma_tile_identity(b, a1.0, a1.1, a2.0, a2.1);
    }
}

/// Every live piece has a team and a relative position.
pub open spec fn game_valid(b: BoardView) -> bool {
    forall|s: int, i: int|
        0 <= s < b.pieces.len() && 0 <= i < b.pieces[s].len() && #[trigger] b.pieces[s][i].alive
            ==> b.pieces[s][i].team is Some && b.pieces[s][i].rel_pos is Some
}

/// A game: a board and the number of moves made.
pub struct Game {
    pub board: Board,
    pub current_move: u32,
}

impl Game {
    /// A game on an empty 8 by 8 board.
    pub fn new() -> (r: Self)
        ensures
            r.board.wf(),
            r.board.width == 8,
            r.board.height == 8,
            r.board@.pieces.len() == 0,
            r.current_move == 0,
    {
        Game { board: Board::new(8, 8), current_move: 0 }
    }

    /// The standard two-team game on an 8 by 8 board: "White" from the
    /// bottom edge and "Black" from the top, each with eight pawns and eight
    /// back-rank pieces, installed on the board.
    pub fn original() -> (r: Result<Self, ChessError>)
        ensures
            r is Ok,
            r is Ok ==> {
                let g = r->Ok_0;
                &&& g.board.wf()
                &&& g.current_move == 0
                &&& standard_position(g.board@)
                &&& positions_consistent(g.board@)
            },
    {
        let mut board = Board::new(8, 8);
        let white = Team::new("White".to_string(), StartInfo::Bottom { offset: 0 });
        let black = Team::new("Black".to_string(), StartInfo::Top { offset: 0 });
        let mut white_set = PieceSet::new(white, Vec::new());
        let white_pawn = defaults::pawn();
        let mut i: u32 = 0;
        while i < 8
            invariant
                i <= 8,
                white_set.wf(),
                white_set.team.name@ == "White"@,
                white_set.team.start_info == (StartInfo::Bottom { offset: 0 }),
                white_set.starting_coords@ == Seq::new(i as nat, |j: int| Coord { x: j as u32, y: 1 }),
                white_set.pieces@.len() == i,
                is_pawn(white_pawn),
                white_pawn.alive,
                white_pawn.move_num == 1,
                forall|j: int| 0 <= j < white_set.pieces@.len() ==> standard_piece(#[trigger] white_set.pieces@[j], j, white_set.team),
            decreases 8 - i,
        {
            proof {
                lemma_standard_starts();
            }
            let copy = PieceBuilder::clone_piece(&white_pawn);
            proof {
                lemma_copy_keeps_kind(copy, white_pawn);
            }
            white_set.add_piece(copy, Coord::new(i, 1))?;
            i = i + 1;
            assert(white_set.starting_coords@ =~= Seq::new(i as nat, |j: int| Coord { x: j as u32, y: 1 }));
        }
        white_set.add_piece(defaults::king(), Coord::new(4, 0))?;
        white_set.add_piece(defaults::queen(), Coord::new(3, 0))?;
        white_set.add_piece(defaults::rook(), Coord::new(0, 0))?;
        white_set.add_piece(defaults::rook(), Coord::new(7, 0))?;
        white_set.add_piece(defaults::bishop(), Coord::new(2, 0))?;
        white_set.add_piece(defaults::bishop(), Coord::new(5, 0))?;
        white_set.add_piece(defaults::knight(), Coord::new(1, 0))?;
        white_set.add_piece(defaults::knight(), Coord::new(6, 0))?;
        assert(white_set.starting_coords@ =~= standard_starts());
        proof {
            lemma_standard_starts();
        }
        assert(forall|j: int| 0 <= j < 16 ==> standard_piece(#[trigger] white_set.pieces@[j], j, white_set.team));
        let black_set = white_set.clone_for_team(black);
        assert forall|j: int| 0 <= j < 16 implies standard_piece(#[trigger] black_set.pieces@[j], j, black_set.team) by {
            let q = white_set.pieces@[j].with_team(Some(black_set.team));
            assert(black_set.pieces@[j].same_as(&q));
            lemma_copy_keeps_kind(black_set.pieces@[j], q);
            assert(standard_piece(white_set.pieces@[j], j, white_set.team));
        }
        let ghost sets = seq![white_set, black_set];
        assert forall|t: int, j: int| 0 <= t < 2 && 0 <= j < sets[t].pieces@.len() implies {
            let p = #[trigger] sets[t].pieces@[j];
            p.team is Some && p.team->Some_0.name@ == sets[t].team.name@
        } by {
            if t == 1 {
                assert(sets[1].pieces@[j].same_as(&white_set.pieces@[j].with_team(Some(sets[1].team))));
            }
        }
        board.add_piece_set(white_set)?;
        board.add_piece_set(black_set)?;
        assert(board.piece_sets@ =~= sets);
        let ghost pre = board@;
        assert(board.piece_sets@.len() == 2);
        assert(pre.starts =~= seq![standard_starts(), standard_starts()]);
        proof {
            lemma_standard_starts();
            lemma_facing_sets_placeable(pre);
            assert forall|t: int, j: int| 0 <= t < pre.pieces.len() && 0 <= j < pre.pieces[t].len() implies {
                let p = #[trigger] pre.pieces[t][j];
                p.team is Some && p.team->Some_0.name@ == pre.teams[t].name@
            } by {
                assert(pre.pieces[t] == sets[t].pieces@);
                assert(pre.teams[t] == sets[t].team);
            }
            assert(teams_consistent(pre));
            lemma_init_positions(pre);
        }
        board.init()?;
        proof {
            let c = board@;
            assert forall|t: int, i: int| 0 <= t < 2 && 0 <= i < 16 implies {
                &&& standard_piece(#[trigger] c.pieces[t][i], i, c.teams[t])
                &&& c.tiles[c.start_tile(t, i)].piece == Some(Piece { set: t as usize, index: i as usize })
            } by {
                assert(pre.pieces[t] == sets[t].pieces@);
                assert(pre.teams[t] == sets[t].team);
                assert(standard_piece(pre.pieces[t][i], i, pre.teams[t]));
                assert(pre.pieces[t][i].alive);
                assert(c.pieces[t][i] == installed(pre, t, i));
                assert(installed(pre, t, i) == pre.pieces[t][i]);
                assert(c.start_tile(t, i) == pre.start_tile(t, i));
            }
            assert forall|k: int| 0 <= k < c.tiles.len() && (#[trigger] c.tiles[k]).piece is Some implies {
                let g = c.tiles[k].piece->Some_0;
                g.set < 2 && g.index < 16 && k == c.start_tile(g.set as int, g.index as int)
            } by {
                let g = c.tiles[k].piece->Some_0;
                assert(pre.valid_piece(g));
                assert(pre.pieces[g.set as int] == sets[g.set as int].pieces@);
                assert(c.start_tile(g.set as int, g.index as int) == pre.start_tile(g.set as int, g.index as int));
            }
        }
        Ok(Game { board, current_move: 0 })
    }

    /// A 10 by 10 game with `piece` for "White" (bottom edge) at `(2, 3)` of
    /// its frame and a copy of it for "Black" (top edge) at the same frame
    /// coordinate, which is board tile `(7, 6)`; when the piece is alive both
    /// are installed on their tiles, and no other tile is occupied.
    pub fn two_piece_test(piece: PieceRef) -> (r: Result<Self, ChessError>)
        ensures
            r is Ok,
            r is Ok ==> {
                let g = r->Ok_0;
                &&& g.board.wf()
                &&& g.board.width == 10
                &&& g.board.height == 10
                &&& g.current_move == 0
                &&& g.board@.teams.len() == 2
                &&& g.board@.teams[0].name@ == "White"@
                &&& g.board@.teams[0].start_info == (StartInfo::Bottom { offset: 0 })
                &&& g.board@.teams[1].name@ == "Black"@
                &&& g.board@.teams[1].start_info == (StartInfo::Top { offset: 0 })
                &&& g.board@.starts == seq![seq![Coord { x: 2, y: 3 }], seq![Coord { x: 2, y: 3 }]]
                &&& g.board@.pieces.len() == 2
                &&& g.board@.pieces[0].len() == 1
                &&& g.board@.pieces[1].len() == 1
                &&& g.board@.pieces[0][0] == (PieceRef {
                    team: Some(g.board@.teams[0]),
                    rel_pos: Some(Coord { x: 2, y: 3 }),
                    ..piece
                })
                &&& g.board@.pieces[1][0].same_as(
                    &PieceRef { team: Some(g.board@.teams[1]), rel_pos: Some(Coord { x: 2, y: 3 }), ..piece },
                )
                &&& piece.alive ==> g.board@.tiles[g.board@.tile_index(2, 3)].piece == Some(
                    Piece { set: 0, index: 0 },
                ) && g.board@.tiles[g.board@.tile_index(7, 6)].piece == Some(Piece { set: 1, index: 0 })
                &&& forall|k: int|
                    0 <= k < g.board@.tiles.len() && (#[trigger] g.board@.tiles[k]).piece is Some ==> piece.alive
                        && (k == g.board@.tile_index(2, 3) || k == g.board@.tile_index(7, 6))
                &&& positions_consistent(g.board@)
            },
    {
        let mut board = Board::new(10, 10);
        let white = Team::new("White".to_string(), StartInfo::Bottom { offset: 0 });
        let black = Team::new("Black".to_string(), StartInfo::Top { offset: 0 });
        let mut white_set = PieceSet::new(white, Vec::new());
        white_set.add_piece(piece, Coord::new(2, 3))?;
        let black_set = white_set.clone_for_team(black);
        assert(white_set.pieces@[0].team == Some(white_set.team));
        assert(white_set.starting_coords@ =~= seq![Coord { x: 2, y: 3 }]);
        let ghost ws = white_set.starting_coords@;
        let ghost sets = seq![white_set, black_set];
        assert forall|t: int, j: int| 0 <= t < 2 && 0 <= j < sets[t].pieces@.len() implies {
            let p = #[trigger] sets[t].pieces@[j];
            p.team is Some && p.team->Some_0.name@ == sets[t].team.name@
        } by {
            if t == 1 {
                assert(sets[1].pieces@[j].same_as(&white_set.pieces@[j].with_team(Some(sets[1].team))));
            }
        }
        board.add_piece_set(white_set)?;
        board.add_piece_set(black_set)?;
        assert(board.piece_sets@ =~= sets);
        let ghost pre = board@;
        assert(board.piece_sets@.len() == 2);
        assert(pre.starts[0] == ws);
        assert(pre.starts =~= seq![seq![Coord { x: 2, y: 3 }], seq![Coord { x: 2, y: 3 }]]);
        proof {
            lemma_facing_sets_placeable(pre);
            assert forall|t: int, j: int| 0 <= t < pre.pieces.len() && 0 <= j < pre.pieces[t].len() implies {
                let p = #[trigger] pre.pieces[t][j];
                p.team is Some && p.team->Some_0.name@ == pre.teams[t].name@
            } by {
                assert(pre.pieces[t] == sets[t].pieces@);
                assert(pre.teams[t] == sets[t].team);
            }
            assert(teams_consistent(pre));
            lemma_init_positions(pre);
        }
        board.init()?;
        proof {
            let c = board@;
            assert(pre.pieces[0] == sets[0].pieces@);
            assert(pre.pieces[1] == sets[1].pieces@);
            assert(pre.teams[0] == sets[0].team);
            assert(pre.teams[1] == sets[1].team);
            assert(c.pieces[0][0] == if pre.pieces[0][0].alive {
                installed(pre, 0, 0)
            } else {
                pre.pieces[0][0]
            });
            assert(c.pieces[1][0] == if pre.pieces[1][0].alive {
                installed(pre, 1, 0)
            } else {
                pre.pieces[1][0]
            });
            assert(black_set.pieces@[0].same_as(&white_set.pieces@[0].with_team(Some(black_set.team))));
            assert(pre.start_tile(0, 0) == c.tile_index(2, 3));
            assert(pre.start_tile(1, 0) == c.tile_index(7, 6));
            assert forall|k: int| 0 <= k < c.tiles.len() && (#[trigger] c.tiles[k]).piece is Some implies piece.alive
                && (k == c.tile_index(2, 3) || k == c.tile_index(7, 6)) by {
                let g = c.tiles[k].piece->Some_0;
                assert(pre.valid_piece(g));
                assert(pre.pieces[g.set as int][g.index as int].alive);
            }
        }
        Ok(Game { board, current_move: 0 })
    }

    /// Checks that every live piece has a team and a relative position;
    /// otherwise fails with a validation error naming the piece.
    pub fn validate_game(&self) -> (r: Result<(), ChessError>)
        ensures
            r is Ok <==> game_valid(self.board@),
            r is Err ==> r->Err_0.is_game_validation(),
            r is Err ==> exists|s: int, i: int|
                0 <= s < self.board@.pieces.len() && 0 <= i < self.board@.pieces[s].len() && {
                    let p = #[trigger] self.board@.pieces[s][i];
                    &&& p.alive
                    &&& (p.team is None || p.rel_pos is None)
                    &&& r->Err_0.names(p.name@)
                },
    {
        let b = &self.board;
        let mut s: usize = 0;
        while s < b.piece_sets.len()
            invariant
                b@ == self.board@,
                s <= b@.pieces.len(),
                forall|t: int, i: int|
                    0 <= t < s && 0 <= i < b@.pieces[t].len() && #[trigger] b@.pieces[t][i].alive
                        ==> b@.pieces[t][i].team is Some && b@.pieces[t][i].rel_pos is Some,
            decreases b@.pieces.len() - s,
        {
            let pieces = &b.piece_sets[s].pieces;
            let mut i: usize = 0;
            while i < pieces.len()
                invariant
                    b@ == self.board@,
                    s < b@.pieces.len(),
                    pieces@ == b@.pieces[s as int],
                    i <= pieces@.len(),
                    forall|t: int, j: int|
                        0 <= t < s && 0 <= j < b@.pieces[t].len() && #[trigger] b@.pieces[t][j].alive
                            ==> b@.pieces[t][j].team is Some && b@.pieces[t][j].rel_pos is Some,
                    forall|j: int|
                        0 <= j < i && #[trigger] b@.pieces[s as int][j].alive ==> b@.pieces[s as int][j].team
                            is Some && b@.pieces[s as int][j].rel_pos is Some,
                decreases pieces@.len() - i,
            {
                let p = &pieces[i];
                proof {
                    assert(b@.pieces[s as int][i as int] == *p);
                }
                if p.alive && p.team.is_none() {
                    assert(b@.pieces[s as int][i as int].alive);
                    let mut why = reason("Some piece wasn't assigned a team: ");
                    let ghost pre = why@;
                    why.append(p.name.as_str());
                    let e = ChessError::GameValidationError { why };
                    assert(e.reason_of().subrange(pre.len() as int, e.reason_of().len() as int) =~= p.name@);
                    assert(e.names(self.board@.pieces[s as int][i as int].name@));
                    return Err(e);
                }
                if p.alive && p.rel_pos.is_none() {
                    assert(b@.pieces[s as int][i as int].alive);
                    let mut why = reason("Some piece was not assigned a relative position: ");
                    let ghost pre = why@;
                    why.append(p.name.as_str());
                    let e = ChessError::GameValidationError { why };
                    assert(e.reason_of().subrange(pre.len() as int, e.reason_of().len() as int) =~= p.name@);
                    assert(e.names(self.board@.pieces[s as int][i as int].name@));
                    return Err(e);
                }
                i = i + 1;
            }
            s = s + 1;
        }
        Ok(())
    }

    /// Executes a move on the game's board (see `Move::execute`) and counts
    /// it.
    pub fn execute_move(&mut self, move_to_execute: &Move) -> (r: Result<MoveLog, ChessError>)
        requires
            old(self).board.wf(),
        ensures
            final(self).board.wf(),
            r is Ok <==> can_execute(old(self).board@, *move_to_execute),
            r is Ok ==> final(self).board@ == executed(old(self).board@, *move_to_execute) && r->Ok_0
                == log_of(old(self).board@, *move_to_execute) && final(self).current_move
                == next_move_num(old(self).current_move),
            r is Err ==> final(self).board@ == old(self).board@ && final(self).current_move == old(
                self,
            ).current_move,
            r is Err ==> (r->Err_0.is_tile_action() <==> !tiles_ready(
                old(self).board@,
                *move_to_execute,
            )),
            r is Err ==> (r->Err_0.is_coord_translation() <==> tiles_ready(
                old(self).board@,
                *move_to_execute,
            )),
    {
        let log = move_to_execute.execute(&mut self.board)?;
        self.current_move = if self.current_move == u32::MAX {
            0
        } else {
            self.current_move + 1
        };
        Ok(log)
    }

    /// Undoes the last executed move (see `MoveLog::reverse`) and uncounts
    /// it.
    pub fn reverse_move(&mut self, log: MoveLog) -> (r: Result<(), ChessError>)
        requires
            old(self).board.wf(),
        ensures
            final(self).board.wf(),
            r is Ok <==> can_reverse(old(self).board@, log),
            r is Ok ==> final(self).board@ == reversed(old(self).board@, log)
                && final(self).current_move == prev_move_num(old(self).current_move),
            r is Err ==> final(self).board@ == old(self).board@ && final(self).current_move == old(
                self,
            ).current_move && r->Err_0.is_tile_action(),
    {
        log.reverse(&mut self.board)?;
        self.current_move = if self.current_move == 0 {
            u32::MAX
        } else {
            self.current_move - 1
        };
        Ok(())
    }

    pub fn board(&self) -> (r: &Board)
        ensures
            r == &self.board,
    {
        &self.board
    }

    pub fn current_move(&self) -> (r: u32)
        ensures
            r == self.current_move,
    {
        self.current_move
    }

    /// The moves of one rule of a piece (see `rule_moves`).
    fn process_move_rule(rule: &MoveRules, board: &Board, name: &String, wk: &Walker, moves: &mut Vec<Move>)
        requires
            wk.fits(board@),
        ensures
            final(moves)@ == rule_moves(old(moves)@, wk.walk(board@, name@), *rule),
    {
        match rule {
            MoveRules::Jump { translation } => {
                single_exec(board, name, wk, translation.x as i64, translation.y as i64, moves);
            },
            MoveRules::LineJump { move_info } => {
                vecs_exec(board, name, wk, RayKind::LineJump, move_info, moves);
            },
            MoveRules::Pierce { move_info, max_points } => {
                vecs_exec(board, name, wk, RayKind::Pierce { max_points: *max_points }, move_info, moves);
            },
            MoveRules::Blunt { move_info } => {
                vecs_exec(board, name, wk, RayKind::Blunt, move_info, moves);
            },
            MoveRules::Radius { tiles } => {
                radius_exec(board, name, wk, *tiles, moves);
            },
            MoveRules::KnightJump { radius, offset } => {
                knight_exec(board, name, wk, *radius, *offset, moves);
            },
        }
    }

    /// The moves of a list of rules, in order.
    fn process_rules(rules: &Vec<MoveRules>, board: &Board, name: &String, wk: &Walker, moves: &mut Vec<Move>)
        requires
            wk.fits(board@),
        ensures
            final(moves)@ == rules_moves(old(moves)@, wk.walk(board@, name@), rules@, 0),
    {
        let mut i: usize = 0;
        while i < rules.len()
            invariant
                wk.fits(board@),
                i <= rules@.len(),
                rules_moves(moves@, wk.walk(board@, name@), rules@, i as int) == rules_moves(
                    old(moves)@,
                    wk.walk(board@, name@),
                    rules@,
                    0,
                ),
            decreases rules@.len() - i,
        {
            Game::process_move_rule(&rules[i], board, name, wk, moves);
            i = i + 1;
        }
    }

    /// The moves of the move-number rules that apply on move `num`.
    fn process_nth_rules(
        nths: &Vec<NthMoveRules>,
        num: u32,
        board: &Board,
        name: &String,
        wk: &Walker,
        moves: &mut Vec<Move>,
    )
        requires
            wk.fits(board@),
        ensures
            final(moves)@ == nth_moves(old(moves)@, wk.walk(board@, name@), nths@, num, 0),
    {
        let mut i: usize = 0;
        while i < nths.len()
            invariant
                wk.fits(board@),
                i <= nths@.len(),
                nth_moves(moves@, wk.walk(board@, name@), nths@, num, i as int) == nth_moves(
                    old(moves)@,
                    wk.walk(board@, name@),
                    nths@,
                    num,
                    0,
                ),
            decreases nths@.len() - i,
        {
            if nths[i].nth_move == num {
                Game::process_rules(&nths[i].move_rules, board, name, wk, moves);
            }
            i = i + 1;
        }
    }

    /// The moves of one piece of `team` (see `piece_moves`).
    fn process_piece(board: &Board, team: &Team, h: Piece, moves: &mut Vec<Move>)
        requires
            board.wf(),
            board@.valid_piece(h),
        ensures
            final(moves)@ == piece_moves(old(moves)@, board@, team.name@, team.start_info, h),
    {
        let p = board.piece(h);
        if !p.alive {
            return ;
        }
        let si = team.start_info;
        let c = match p.rel_pos {
            Some(c) => c,
            None => {
                return ;
            },
        };
        let fits = match si {
            crate::team::StartInfo::Bottom { .. } | crate::team::StartInfo::Top { .. } => c.x
                < board.width && c.y < board.height,
            crate::team::StartInfo::Left { .. } | crate::team::StartInfo::Right { .. } => c.x
                < board.height && c.y < board.width,
        };
        if !fits {
            return ;
        }
        let from = board.rel_coord_to_absolute(c, si);
        let wm = Walker { si, piece: h, from, rv: true, re: p.use_moves_for_kills };
        let wk = Walker { si, piece: h, from, rv: p.use_kill_for_moves, re: true };
        Game::process_rules(&p.move_rules, board, &team.name, &wm, moves);
        Game::process_nth_rules(&p.nth_move_rules, p.move_num, board, &team.name, &wm, moves);
        Game::process_rules(&p.kill_rules, board, &team.name, &wk, moves);
    }

    /// Every move of the team named `team_name`, piece by piece in roster
    /// order (see `team_moves`); a destination already listed for the same
    /// piece is not listed again. Fails when no team has that name.
    pub fn calculate_moves_for(&self, team_name: String) -> (r: Result<Vec<Move>, ChessError>)
        requires
            self.board.wf(),
        ensures
            team_moves(self.board@, team_name@) is None <==> r is Err,
            r is Ok ==> r->Ok_0@ == team_moves(self.board@, team_name@)->Some_0,
            r is Err ==> r->Err_0.is_move_calculation(),
    {
        let board = &self.board;
        let n = board.piece_sets.len();
        let mut s: usize = 0;
        while s < n
            invariant
                n == board@.pieces.len(),
                board@.teams.len() == n,
                s <= n,
                team_index(board@, team_name@, s as int) == team_index(board@, team_name@, 0),
            ensures
                s <= n,
                team_index(board@, team_name@, s as int) == team_index(board@, team_name@, 0),
                s < n ==> board@.teams[s as int].name@ == team_name@,
            decreases n - s,
        {
            if board.piece_sets[s].team.name == team_name {
                break;
            }
            s = s + 1;
        }
        if s >= n {
            return Err(ChessError::MoveCalculationError { why: reason("No team with that name.") });
        }
        let set = &board.piece_sets[s];
        let ghost b = board@;
        let mut moves: Vec<Move> = Vec::new();
        let m = set.pieces.len();
        let mut i: usize = 0;
        while i < m
            invariant
                board.wf(),
                b == board@,
                s < n,
                n == b.pieces.len(),
                m == b.pieces[s as int].len(),
                set.team == b.teams[s as int],
                i <= m,
                set_moves(moves@, b, s as int, i as int) == set_moves(Seq::empty(), b, s as int, 0),
            decreases m - i,
        {
            Game::process_piece(board, &set.team, Piece { set: s, index: i }, &mut moves);
            i = i + 1;
        }
        Ok(moves)
    }
}

} // verus!
