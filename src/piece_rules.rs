use vstd::prelude::*;

use crate::moves::Coord;
use crate::team::StartInfo;
use crate::vec2::Vec2;

verus! {

/// One of eight compass directions, relative to a team's own forward
/// orientation: `Up` always points toward the opponent.
#[derive(Clone, Copy, Debug, PartialEq, Eq, Structural)]
pub enum Direction {
    Left,
    Right,
    Up,
    Down,
    LeftUp,
    LeftDown,
    RightUp,
    RightDown,
}

/// Rotates a team-relative displacement into board-absolute terms.
pub open spec fn rotate(s: StartInfo, dx: int, dy: int) -> (int, int) {
    match s {
        StartInfo::Bottom { .. } => (dx, dy),
        StartInfo::Top { .. } => (-dx, -dy),
        StartInfo::Left { .. } => (dy, -dx),
        StartInfo::Right { .. } => (-dy, dx),
    }
}

impl Direction {
    /// The board-absolute direction for a team starting at `s`.
    pub open spec fn absolute(self, s: StartInfo) -> Direction {
        match s {
            StartInfo::Bottom { .. } => self,
            StartInfo::Top { .. } => match self {
                Direction::Left => Direction::Right,
                Direction::Right => Direction::Left,
                Direction::Up => Direction::Down,
                Direction::Down => Direction::Up,
                Direction::LeftUp => Direction::RightDown,
                Direction::LeftDown => Direction::RightUp,
                Direction::RightUp => Direction::LeftDown,
                Direction::RightDown => Direction::LeftUp,
            },
            StartInfo::Left { .. } => match self {
                Direction::Left => Direction::Up,
                Direction::Right => Direction::Down,
                Direction::Up => Direction::Right,
                Direction::Down => Direction::Left,
                Direction::LeftUp => Direction::RightUp,
                Direction::LeftDown => Direction::LeftUp,
                Direction::RightUp => Direction::RightDown,
                Direction::RightDown => Direction::LeftDown,
            },
            StartInfo::Right { .. } => match self {
                Direction::Left => Direction::Down,
                Direction::Right => Direction::Up,
                Direction::Up => Direction::Left,
                Direction::Down => Direction::Right,
                Direction::LeftUp => Direction::LeftDown,
                Direction::LeftDown => Direction::RightDown,
                Direction::RightUp => Direction::LeftUp,
                Direction::RightDown => Direction::RightUp,
            },
        }
    }

    /// The unit step of the direction, x to the right and y upward.
    pub open spec fn step(self) -> (int, int) {
        match self {
            Direction::Left => (-1, 0),
            Direction::Right => (1, 0),
            Direction::Up => (0, 1),
            Direction::Down => (0, -1),
            Direction::LeftUp => (-1, 1),
            Direction::LeftDown => (-1, -1),
            Direction::RightUp => (1, 1),
            Direction::RightDown => (1, -1),
        }
    }

    /// The board-absolute direction: its unit step is this direction's step
    /// turned by the team's rotation.
    pub fn rel_to_absolute(&self, start_info: StartInfo) -> (r: Self)
        ensures
            r == self.absolute(start_info),
            r.step() == rotate(start_info, self.step().0, self.step().1),
    {
        proof {
            lemma_step_rotates(*self, start_info);
        }
        match start_info {
            StartInfo::Bottom { .. } => *self,
            StartInfo::Top { .. } => {
                match self {
                    Direction::Left => Direction::Right,
                    Direction::Right => Direction::Left,
                    Direction::Up => Direction::Down,
                    Direction::Down => Direction::Up,
                    Direction::LeftUp => Direction::RightDown,
                    Direction::LeftDown => Direction::RightUp,
                    Direction::RightUp => Direction::LeftDown,
                    Direction::RightDown => Direction::LeftUp,
                }
            },
            StartInfo::Left { .. } => {
                match self {
                    Direction::Left => Direction::Up,
                    Direction::Right => Direction::Down,
                    Direction::Up => Direction::Right,
                    Direction::Down => Direction::Left,
                    Direction::LeftUp => Direction::RightUp,
                    Direction::LeftDown => Direction::LeftUp,
                    Direction::RightUp => Direction::RightDown,
                    Direction::RightDown => Direction::LeftDown,
                }
            },
            StartInfo::Right { .. } => {
                match self {
                    Direction::Left => Direction::Down,
                    Direction::Right => Direction::Up,
                    Direction::Up => Direction::Left,
                    Direction::Down => Direction::Right,
                    Direction::LeftUp => Direction::LeftDown,
                    Direction::LeftDown => Direction::RightDown,
                    Direction::RightUp => Direction::LeftUp,
                    Direction::RightDown => Direction::RightUp,
                }
            },
        }
    }

    pub fn as_vec(&self) -> (r: Vec2)
        ensures
            (r.x as int, r.y as int) == self.step(),
    {
        match self {
            Direction::Left => Vec2::new(-1, 0),
            Direction::Right => Vec2::new(1, 0),
            Direction::Up => Vec2::new(0, 1),
            Direction::Down => Vec2::new(0, -1),
            Direction::LeftUp => Vec2::new(-1, 1),
            Direction::LeftDown => Vec2::new(-1, -1),
            Direction::RightUp => Vec2::new(1, 1),
            Direction::RightDown => Vec2::new(1, -1),
        }
    }
}

/// Reorienting a direction is a group action of the four edges: the half
/// turn is its own inverse, and the two quarter turns undo each other.
pub proof fn lemma_rotation_group(d: Direction, a: u32, b: u32)
    ensures
        d.absolute(StartInfo::Bottom { offset: a }) == d,
        d.absolute(StartInfo::Top { offset: a }).absolute(StartInfo::Top { offset: b }) == d,
        d.absolute(StartInfo::Left { offset: a }).absolute(StartInfo::Right { offset: b }) == d,
        d.absolute(StartInfo::Right { offset: a }).absolute(StartInfo::Left { offset: b }) == d,
{
}

/// Reorienting a direction rotates its unit step the same way a displacement
/// is rotated.
pub proof fn lemma_step_rotates(d: Direction, s: StartInfo)
    ensures
        d.absolute(s).step() == rotate(s, d.step().0, d.step().1),
{
}

/// How far a ray may travel.
#[derive(Clone, Copy, Debug, PartialEq, Eq, Structural)]
pub enum Distance {
    Finite { distance: u32 },
    Infinite,
}

impl Distance {
    pub fn finite(distance: u32) -> (r: Distance)
        ensures
            r == (Distance::Finite { distance }),
    {
        Distance::Finite { distance: distance }
    }

    pub fn infinite() -> (r: Distance)
        ensures
            r == Distance::Infinite,
    {
        Distance::Infinite
    }
}

/// A ray: a distance along a team-relative direction.
#[derive(Clone, Copy, Debug, PartialEq, Eq, Structural)]
pub struct MoveVec {
    pub distance: Distance,
    pub direction: Direction,
}

impl MoveVec {
    pub fn new(distance: Distance, direction: Direction) -> (r: Self)
        ensures
            r.distance == distance,
            r.direction == direction,
    {
        Self { distance, direction }
    }

    pub fn distance(&self) -> (r: Distance)
        ensures
            r == self.distance,
    {
        self.distance
    }

    pub fn direction(&self) -> (r: Direction)
        ensures
            r == self.direction,
    {
        self.direction
    }

    pub fn rel_to_absolute(&self, start_info: StartInfo) -> (r: Self)
        ensures
            r.distance == self.distance,
            r.direction == self.direction.absolute(start_info),
    {
        Self { distance: self.distance, direction: self.direction.rel_to_absolute(start_info) }
    }
}

/// A declarative movement primitive of a piece.
pub enum MoveRules {
    /// A single fixed translation in the team's frame.
    Jump { translation: Coord },
    /// Rays that pass over every piece; each enemy on the way may be taken.
    LineJump { move_info: Vec<MoveVec> },
    /// Rays that pass through enemies while their points stay within a budget.
    Pierce { move_info: Vec<MoveVec>, max_points: u16 },
    /// Rays that stop at the first obstruction.
    Blunt { move_info: Vec<MoveVec> },
    /// Every tile within a Chebyshev distance.
    Radius { tiles: u32 },
    /// `radius` steps along one axis then `offset` along the perpendicular, in
    /// all eight reflections.
    KnightJump { radius: u32, offset: u32 },
}

impl MoveRules {
    /// Equality of the rule data (the contents of the ray lists).
    pub open spec fn same_as(&self, o: &MoveRules) -> bool {
        match (*self, *o) {
            (MoveRules::Jump { translation: a }, MoveRules::Jump { translation: b }) => a == b,
            (MoveRules::LineJump { move_info: a }, MoveRules::LineJump { move_info: b }) => a@
                == b@,
            (
                MoveRules::Pierce { move_info: a, max_points: p },
                MoveRules::Pierce { move_info: b, max_points: q },
            ) => a@ == b@ && p == q,
            (MoveRules::Blunt { move_info: a }, MoveRules::Blunt { move_info: b }) => a@ == b@,
            (MoveRules::Radius { tiles: a }, MoveRules::Radius { tiles: b }) => a == b,
            (
                MoveRules::KnightJump { radius: a, offset: p },
                MoveRules::KnightJump { radius: b, offset: q },
            ) => a == b && p == q,
            _ => false,
        }
    }

    /// The rule is a blunt rule over exactly these rays.
    pub open spec fn is_blunt_with(&self, rays: Seq<MoveVec>) -> bool {
        match *self {
            MoveRules::Blunt { move_info } => move_info@ == rays,
            _ => false,
        }
    }

    pub fn jump(translation: Coord) -> (r: MoveRules)
        ensures
            r == (MoveRules::Jump { translation }),
    {
        MoveRules::Jump { translation }
    }

    pub fn line_jump(moves: Vec<MoveVec>) -> (r: MoveRules)
        ensures
            r == (MoveRules::LineJump { move_info: moves }),
    {
        MoveRules::LineJump { move_info: moves }
    }

    pub fn pierce(moves: Vec<MoveVec>, max_points: u16) -> (r: MoveRules)
        ensures
            r == (MoveRules::Pierce { move_info: moves, max_points }),
    {
        MoveRules::Pierce { max_points, move_info: moves }
    }

    pub fn blunt(moves: Vec<MoveVec>) -> (r: MoveRules)
        ensures
            r == (MoveRules::Blunt { move_info: moves }),
    {
        MoveRules::Blunt { move_info: moves }
    }

    /// A radius rule; `can_jump` is accepted for compatibility and has no
    /// effect: every tile in the radius is judged on its own.
    pub fn radius(tiles: u32, can_jump: bool) -> (r: MoveRules)
        ensures
            r == (MoveRules::Radius { tiles }),
    {
        MoveRules::Radius { tiles }
    }

    pub fn knight_jump(radius: u32, offset: u32) -> (r: MoveRules)
        ensures
            r == (MoveRules::KnightJump { radius, offset }),
    {
        MoveRules::KnightJump { radius, offset }
    }

    /// A copy of the rule with its own ray list.
    pub fn duplicate(&self) -> (r: MoveRules)
        ensures
            r.same_as(self),
    {
        match self {
            MoveRules::Jump { translation } => MoveRules::Jump { translation: *translation },
            MoveRules::LineJump { move_info } => MoveRules::LineJump {
                move_info: copy_move_vecs(move_info),
            },
            MoveRules::Pierce { move_info, max_points } => MoveRules::Pierce {
                move_info: copy_move_vecs(move_info),
                max_points: *max_points,
            },
            MoveRules::Blunt { move_info } => MoveRules::Blunt {
                move_info: copy_move_vecs(move_info),
            },
            MoveRules::Radius { tiles } => MoveRules::Radius { tiles: *tiles },
            MoveRules::KnightJump { radius, offset } => MoveRules::KnightJump {
                radius: *radius,
                offset: *offset,
            },
        }
    }
}

fn copy_move_vecs(v: &Vec<MoveVec>) -> (r: Vec<MoveVec>)
    ensures
        r@ == v@,
{
    let mut r: Vec<MoveVec> = Vec::new();
    let mut i: usize = 0;
    while i < v.len()
        invariant
            i <= v@.len(),
            r@ == v@.subrange(0, i as int),
        decreases v@.len() - i,
    {
        r.push(v[i]);
        i = i + 1;
    }
    assert(r@ =~= v@);
    r
}

/// Element-wise equality of two rule lists.
pub open spec fn same_rule_lists(a: Seq<MoveRules>, b: Seq<MoveRules>) -> bool {
    a.len() == b.len() && forall|i: int| 0 <= i < a.len() ==> #[trigger] a[i].same_as(&b[i])
}

/// A copy of a rule list.
pub fn copy_rules(v: &Vec<MoveRules>) -> (r: Vec<MoveRules>)
    ensures
        same_rule_lists(r@, v@),
{
    let mut r: Vec<MoveRules> = Vec::new();
    let mut i: usize = 0;
    while i < v.len()
        invariant
            i <= v@.len(),
            r@.len() == i,
            forall|j: int| 0 <= j < i ==> #[trigger] r@[j].same_as(&v@[j]),
        decreases v@.len() - i,
    {
        r.push(v[i].duplicate());
        i = i + 1;
    }
    r
}

/// Extra rules that apply while the piece's own move number equals
/// `nth_move` (its first move is number 1).
pub struct NthMoveRules {
    pub move_rules: Vec<MoveRules>,
    pub nth_move: u32,
}

impl NthMoveRules {
    /// `repeating` is accepted for compatibility; the rules apply on exactly
    /// one move number.
    pub fn new(move_rules: Vec<MoveRules>, nth_move: u32, repeating: bool) -> (r: Self)
        ensures
            r.move_rules == move_rules,
            r.nth_move == nth_move,
    {
        Self { move_rules, nth_move }
    }

    pub fn move_rules(&self) -> (r: &Vec<MoveRules>)
        ensures
            r == &self.move_rules,
    {
        &self.move_rules
    }

    pub fn nth_move(&self) -> (r: u32)
        ensures
            r == self.nth_move,
    {
        self.nth_move
    }

    pub open spec fn same_as(&self, o: &NthMoveRules) -> bool {
        self.nth_move == o.nth_move && same_rule_lists(self.move_rules@, o.move_rules@)
    }

    /// A copy with its own rule list.
    pub fn duplicate(&self) -> (r: NthMoveRules)
        ensures
            r.same_as(self),
    {
        NthMoveRules { move_rules: copy_rules(&self.move_rules), nth_move: self.nth_move }
    }
}

/// Element-wise equality of two lists of move-number rules.
pub open spec fn same_nth_lists(a: Seq<NthMoveRules>, b: Seq<NthMoveRules>) -> bool {
    a.len() == b.len() && forall|i: int| 0 <= i < a.len() ==> #[trigger] a[i].same_as(&b[i])
}

/// A copy of a list of move-number rules.
pub fn copy_nth_rules(v: &Vec<NthMoveRules>) -> (r: Vec<NthMoveRules>)
    ensures
        same_nth_lists(r@, v@),
{
    let mut r: Vec<NthMoveRules> = Vec::new();
    let mut i: usize = 0;
    while i < v.len()
        invariant
            i <= v@.len(),
            r@.len() == i,
            forall|j: int| 0 <= j < i ==> #[trigger] r@[j].same_as(&v@[j]),
        decreases v@.len() - i,
    {
        r.push(v[i].duplicate());
        i = i + 1;
    }
    r
}

} // verus!
