use vstd::prelude::*;

use crate::piece::{PieceBuilder, PieceRef};
use crate::piece_rules::{Direction, Distance, MoveRules, MoveVec, NthMoveRules};

verus! {

/// A ray of the given reach along a team-relative direction.
pub open spec fn ray(d: Distance, dir: Direction) -> MoveVec {
    MoveVec { distance: d, direction: dir }
}

/// The traits shared by every default piece: its name, one point, no
/// immunities, kill rules never used for plain moves.
pub open spec fn default_traits(p: PieceRef, name: Seq<char>) -> bool {
    &&& p.name@ == name
    &&& p.points == 1
    &&& !p.jump_immune
    &&& !p.pierce_immune
    &&& !p.use_kill_for_moves
}

/// A newly built piece: alive, without team or position, about to make its
/// first move.
pub open spec fn fresh(p: PieceRef) -> bool {
    &&& p.team is None
    &&& p.alive
    &&& p.rel_pos is None
    &&& p.move_num == 1
}

/// The piece has the traits and rules of a default piece that moves only by
/// one capturing rule.
pub open spec fn capturing_with(p: PieceRef, name: Seq<char>) -> bool {
    &&& default_traits(p, name)
    &&& p.use_moves_for_kills
    &&& p.move_rules@.len() == 1
    &&& p.kill_rules@.len() == 0
    &&& p.nth_move_rules@.len() == 0
}

/// A pawn: one step forward, a two-step forward on its first move, and
/// diagonal forward captures; its moves never capture.
pub open spec fn is_pawn(p: PieceRef) -> bool {
    &&& default_traits(p, "Pawn"@)
    &&& !p.use_moves_for_kills
    &&& p.move_rules@.len() == 1
    &&& p.move_rules@[0].is_blunt_with(seq![ray(Distance::Finite { distance: 1 }, Direction::Up)])
    &&& p.kill_rules@.len() == 2
    &&& p.kill_rules@[0].is_blunt_with(seq![ray(Distance::Finite { distance: 1 }, Direction::LeftUp)])
    &&& p.kill_rules@[1].is_blunt_with(seq![ray(Distance::Finite { distance: 1 }, Direction::RightUp)])
    &&& p.nth_move_rules@.len() == 1
    &&& p.nth_move_rules@[0].nth_move == 1
    &&& p.nth_move_rules@[0].move_rules@.len() == 1
    &&& p.nth_move_rules@[0].move_rules@[0].is_blunt_with(
        seq![ray(Distance::Finite { distance: 2 }, Direction::Up)],
    )
}

/// A rook: unbounded orthogonal rays that may capture.
pub open spec fn is_rook(p: PieceRef) -> bool {
    capturing_with(p, "Rook"@) && p.move_rules@[0].is_blunt_with(straight_rays())
}

/// A bishop: unbounded diagonal rays that may capture.
pub open spec fn is_bishop(p: PieceRef) -> bool {
    capturing_with(p, "Bishop"@) && p.move_rules@[0].is_blunt_with(diagonal_rays())
}

/// A knight: the two-by-one jump in all eight reflections.
pub open spec fn is_knight(p: PieceRef) -> bool {
    capturing_with(p, "Knight"@) && p.move_rules@[0] == (MoveRules::KnightJump { radius: 2, offset: 1 })
}

/// A queen: unbounded orthogonal and diagonal rays that may capture.
pub open spec fn is_queen(p: PieceRef) -> bool {
    capturing_with(p, "Queen"@) && p.move_rules@[0].is_blunt_with(straight_rays() + diagonal_rays())
}

/// A king: every neighbouring tile, capturing allowed.
pub open spec fn is_king(p: PieceRef) -> bool {
    capturing_with(p, "King"@) && p.move_rules@[0] == (MoveRules::Radius { tiles: 1 })
}

/// A copy of a piece is of the same kind.
pub proof fn lemma_copy_keeps_kind(p: PieceRef, q: PieceRef)
    requires
        p.same_as(&q),
    ensures
        is_pawn(p) <==> is_pawn(q),
        is_rook(p) <==> is_rook(q),
        is_bishop(p) <==> is_bishop(q),
        is_knight(p) <==> is_knight(q),
        is_queen(p) <==> is_queen(q),
        is_king(p) <==> is_king(q),
{
    if p.move_rules@.len() > 0 {
        assert(p.move_rules@[0].same_as(&q.move_rules@[0]));
    }
    if p.kill_rules@.len() > 1 {
        assert(p.kill_rules@[0].same_as(&q.kill_rules@[0]));
        assert(p.kill_rules@[1].same_as(&q.kill_rules@[1]));
    }
    if p.nth_move_rules@.len() > 0 {
        assert(p.nth_move_rules@[0].same_as(&q.nth_move_rules@[0]));
        if p.nth_move_rules@[0].move_rules@.len() > 0 {
            assert(p.nth_move_rules@[0].move_rules@[0].same_as(&q.nth_move_rules@[0].move_rules@[0]));
        }
    }
}

/// The four orthogonal rays of unbounded reach.
pub open spec fn straight_rays() -> Seq<MoveVec> {
    seq![
        ray(Distance::Infinite, Direction::Up),
        ray(Distance::Infinite, Direction::Down),
        ray(Distance::Infinite, Direction::Left),
        ray(Distance::Infinite, Direction::Right),
    ]
}

/// The four diagonal rays of unbounded reach.
pub open spec fn diagonal_rays() -> Seq<MoveVec> {
    seq![
        ray(Distance::Infinite, Direction::LeftUp),
        ray(Distance::Infinite, Direction::LeftDown),
        ray(Distance::Infinite, Direction::RightUp),
        ray(Distance::Infinite, Direction::RightDown),
    ]
}

fn one_ray(d: Distance, dir: Direction) -> (r: Vec<MoveVec>)
    ensures
        r@ == seq![ray(d, dir)],
{
    let r = vec![MoveVec::new(d, dir)];
    assert(r@ =~= seq![ray(d, dir)]);
    r
}

/// A new pawn (see `is_pawn`).
pub fn pawn() -> (r: PieceRef)
    ensures
        fresh(r),
        is_pawn(r),
{
    let move_rules = vec![MoveRules::blunt(one_ray(Distance::finite(1), Direction::Up))];
    let kill_rules = vec![
        MoveRules::blunt(one_ray(Distance::finite(1), Direction::LeftUp)),
        MoveRules::blunt(one_ray(Distance::finite(1), Direction::RightUp)),
    ];
    let nth_move_rules = vec![
        NthMoveRules::new(
            vec![MoveRules::blunt(one_ray(Distance::finite(2), Direction::Up))],
            1,
            false,
        ),
    ];
    PieceBuilder::new().name("Pawn".to_string()).points(1).move_rules(move_rules).kill_rules(
        kill_rules,
    ).nth_move_rules(nth_move_rules).build().unwrap()
}

} // verus!

verus! {

fn four_rays(a: Direction, b: Direction, c: Direction, d: Direction) -> (r: Vec<MoveVec>)
    ensures
        r@ == seq![
            ray(Distance::Infinite, a),
            ray(Distance::Infinite, b),
            ray(Distance::Infinite, c),
            ray(Distance::Infinite, d),
        ],
{
    let r = vec![
        MoveVec::new(Distance::infinite(), a),
        MoveVec::new(Distance::infinite(), b),
        MoveVec::new(Distance::infinite(), c),
        MoveVec::new(Distance::infinite(), d),
    ];
    assert(r@ =~= seq![
        ray(Distance::Infinite, a),
        ray(Distance::Infinite, b),
        ray(Distance::Infinite, c),
        ray(Distance::Infinite, d),
    ]);
    r
}

/// A capturing piece with one rule and no kill or move-number rules.
fn slider(name: &str, rule: MoveRules) -> (r: PieceRef)
    ensures
        fresh(r),
        capturing_with(r, name@),
        r.move_rules@ == seq![rule],
{
    let move_rules = vec![rule];
    assert(move_rules@ =~= seq![rule]);
    PieceBuilder::new().name(name.to_string()).points(1).move_rules(move_rules).kill_rules(
        Vec::new(),
    ).nth_move_rules(Vec::new()).use_moves_for_kills(true).build().unwrap()
}

/// A new rook (see `is_rook`).
pub fn rook() -> (r: PieceRef)
    ensures
        fresh(r),
        is_rook(r),
{
    let rays = four_rays(Direction::Up, Direction::Down, Direction::Left, Direction::Right);
    slider("Rook", MoveRules::blunt(rays))
}

/// A new bishop (see `is_bishop`).
pub fn bishop() -> (r: PieceRef)
    ensures
        fresh(r),
        is_bishop(r),
{
    let rays = four_rays(
        Direction::LeftUp,
        Direction::LeftDown,
        Direction::RightUp,
        Direction::RightDown,
    );
    slider("Bishop", MoveRules::blunt(rays))
}

/// A new knight (see `is_knight`).
pub fn knight() -> (r: PieceRef)
    ensures
        fresh(r),
        is_knight(r),
{
    slider("Knight", MoveRules::knight_jump(2, 1))
}

/// A new queen (see `is_queen`).
pub fn queen() -> (r: PieceRef)
    ensures
        fresh(r),
        is_queen(r),
{
    let mut rays = four_rays(Direction::Up, Direction::Down, Direction::Left, Direction::Right);
    let mut diagonals = four_rays(
        Direction::LeftUp,
        Direction::LeftDown,
        Direction::RightUp,
        Direction::RightDown,
    );
    rays.append(&mut diagonals);
    slider("Queen", MoveRules::blunt(rays))
}

/// A new king (see `is_king`).
pub fn king() -> (r: PieceRef)
    ensures
        fresh(r),
        is_king(r),
{
    slider("King", MoveRules::radius(1, false))
}

} // verus!
