use vstd::prelude::*;

use crate::moves::Coord;
use crate::piece_rules::{
    copy_nth_rules, copy_rules, same_nth_lists, same_rule_lists, MoveRules, NthMoveRules,
};
use crate::team::Team;

pub mod defaults;

verus! {

/// A handle to a piece owned by a board: the index of its piece set and its
/// index within that set.
#[derive(Clone, Copy, Debug, PartialEq, Eq, Structural)]
pub struct Piece {
    pub set: usize,
    pub index: usize,
}

/// The state of one game piece.
pub struct PieceRef {
    pub name: String,
    pub team: Option<Team>,
    pub points: u16,
    pub move_rules: Vec<MoveRules>,
    /// Capture-only rules.
    pub kill_rules: Vec<MoveRules>,
    /// Rules that apply on one particular move number of the piece.
    pub nth_move_rules: Vec<NthMoveRules>,
    pub alive: bool,
    pub jump_immune: bool,
    pub pierce_immune: bool,
    /// Kill rules may also move onto vacant tiles.
    pub use_kill_for_moves: bool,
    /// Move rules (and move-number rules) may also capture.
    pub use_moves_for_kills: bool,
    /// The position in the team's own frame: the board as seen from the
    /// team's edge.
    pub rel_pos: Option<Coord>,
    /// The number of the piece's next move; its first move is number 1.
    pub move_num: u32,
}

/// A copy of an optional team.
pub fn copy_team(t: &Option<Team>) -> (r: Option<Team>)
    ensures
        r == *t,
{
    match t {
        Some(team) => Some(team.clone()),
        None => None,
    }
}

impl PieceRef {
    /// Equality of everything but the identity of the rule lists.
    pub open spec fn same_as(&self, o: &PieceRef) -> bool {
        &&& self.name == o.name
        &&& self.team == o.team
        &&& self.points == o.points
        &&& same_rule_lists(self.move_rules@, o.move_rules@)
        &&& same_rule_lists(self.kill_rules@, o.kill_rules@)
        &&& same_nth_lists(self.nth_move_rules@, o.nth_move_rules@)
        &&& self.alive == o.alive
        &&& self.jump_immune == o.jump_immune
        &&& self.pierce_immune == o.pierce_immune
        &&& self.use_kill_for_moves == o.use_kill_for_moves
        &&& self.use_moves_for_kills == o.use_moves_for_kills
        &&& self.rel_pos == o.rel_pos
        &&& self.move_num == o.move_num
    }

    /// The piece with its team replaced.
    pub open spec fn with_team(self, team: Option<Team>) -> PieceRef {
        PieceRef { team, ..self }
    }

    pub fn name(&self) -> (r: &str)
        ensures
            r@ == self.name@,
    {
        self.name.as_str()
    }

    pub fn team(&self) -> (r: Option<Team>)
        ensures
            r == self.team,
    {
        copy_team(&self.team)
    }

    pub fn team_unchecked(&self) -> (r: Team)
        requires
            self.team is Some,
        ensures
            r == self.team->Some_0,
    {
        match &self.team {
            Some(t) => t.clone(),
            None => {
                proof {
                    assert(false);
                }
                Team::new(String::new(), crate::team::StartInfo::Bottom { offset: 0 })
            },
        }
    }

    pub fn points(&self) -> (r: u16)
        ensures
            r == self.points,
    {
        self.points
    }

    pub fn is_alive(&self) -> (r: bool)
        ensures
            r == self.alive,
    {
        self.alive
    }

    pub fn is_jump_immune(&self) -> (r: bool)
        ensures
            r == self.jump_immune,
    {
        self.jump_immune
    }

    pub fn is_pierce_immune(&self) -> (r: bool)
        ensures
            r == self.pierce_immune,
    {
        self.pierce_immune
    }

    pub fn can_use_kill_for_moves(&self) -> (r: bool)
        ensures
            r == self.use_kill_for_moves,
    {
        self.use_kill_for_moves
    }

    pub fn can_use_moves_for_kills(&self) -> (r: bool)
        ensures
            r == self.use_moves_for_kills,
    {
        self.use_moves_for_kills
    }

    pub fn move_rules(&self) -> (r: &Vec<MoveRules>)
        ensures
            r == &self.move_rules,
    {
        &self.move_rules
    }

    pub fn kill_rules(&self) -> (r: &Vec<MoveRules>)
        ensures
            r == &self.kill_rules,
    {
        &self.kill_rules
    }

    pub fn nth_move_rules(&self) -> (r: &Vec<NthMoveRules>)
        ensures
            r == &self.nth_move_rules,
    {
        &self.nth_move_rules
    }

    pub fn rel_pos(&self) -> (r: Option<Coord>)
        ensures
            r == self.rel_pos,
    {
        self.rel_pos
    }

    pub fn rel_pos_unchecked(&self) -> (r: Coord)
        requires
            self.rel_pos is Some,
        ensures
            r == self.rel_pos->Some_0,
    {
        match self.rel_pos {
            Some(c) => c,
            None => {
                proof {
                    assert(false);
                }
                Coord::new(0, 0)
            },
        }
    }

    pub fn move_num(&self) -> (r: u32)
        ensures
            r == self.move_num,
    {
        self.move_num
    }

    pub fn kill(&mut self)
        ensures
            *final(self) == (PieceRef { alive: false, ..*old(self) }),
    {
        self.alive = false;
    }

    pub fn revive(&mut self)
        ensures
            *final(self) == (PieceRef { alive: true, ..*old(self) }),
    {
        self.alive = true;
    }

    pub fn set_team(&mut self, team: Team)
        ensures
            *final(self) == old(self).with_team(Some(team)),
    {
        self.team = Some(team);
    }

    pub fn set_rel_pos(&mut self, rel_pos: Coord)
        ensures
            *final(self) == (PieceRef { rel_pos: Some(rel_pos), ..*old(self) }),
    {
        self.rel_pos = Some(rel_pos);
    }

    pub(crate) fn set_motion(&mut self, rel_pos: Option<Coord>, move_num: u32)
        ensures
            *final(self) == (PieceRef { rel_pos, move_num, ..*old(self) }),
    {
        self.rel_pos = rel_pos;
        self.move_num = move_num;
    }

    /// A copy of the piece with rule lists of its own.
    pub fn duplicate(&self) -> (r: PieceRef)
        ensures
            r.same_as(self),
    {
        PieceRef {
            name: self.name.clone(),
            team: copy_team(&self.team),
            points: self.points,
            move_rules: copy_rules(&self.move_rules),
            kill_rules: copy_rules(&self.kill_rules),
            nth_move_rules: copy_nth_rules(&self.nth_move_rules),
            alive: self.alive,
            jump_immune: self.jump_immune,
            pierce_immune: self.pierce_immune,
            use_kill_for_moves: self.use_kill_for_moves,
            use_moves_for_kills: self.use_moves_for_kills,
            rel_pos: self.rel_pos,
            move_num: self.move_num,
        }
    }
}

/// Step-by-step configuration of a new piece.
pub struct PieceBuilder {
    pub name: String,
    pub team: Option<Team>,
    pub points: u16,
    pub move_rules: Vec<MoveRules>,
    pub kill_rules: Vec<MoveRules>,
    pub nth_move_rules: Vec<NthMoveRules>,
    pub jump_immune: bool,
    pub pierce_immune: bool,
    pub use_kill_for_moves: bool,
    pub use_moves_for_kills: bool,
}

impl PieceBuilder {
    /// A builder with an empty name, no team, no points, no rules and every
    /// flag off.
    pub fn new() -> (r: Self)
        ensures
            r.name@ == Seq::<char>::empty(),
            r.team is None,
            r.points == 0,
            r.move_rules@.len() == 0,
            r.kill_rules@.len() == 0,
            r.nth_move_rules@.len() == 0,
            !r.jump_immune,
            !r.pierce_immune,
            !r.use_kill_for_moves,
            !r.use_moves_for_kills,
    {
        PieceBuilder {
            name: String::new(),
            team: None,
            points: 0,
            move_rules: Vec::new(),
            kill_rules: Vec::new(),
            nth_move_rules: Vec::new(),
            jump_immune: false,
            pierce_immune: false,
            use_kill_for_moves: false,
            use_moves_for_kills: false,
        }
    }

    pub fn name(self, name: String) -> (r: Self)
        ensures
            r == (PieceBuilder { name, ..self }),
    {
        PieceBuilder { name, ..self }
    }

    pub fn points(self, points: u16) -> (r: Self)
        ensures
            r == (PieceBuilder { points, ..self }),
    {
        PieceBuilder { points, ..self }
    }

    pub fn move_rules(self, move_rules: Vec<MoveRules>) -> (r: Self)
        ensures
            r == (PieceBuilder { move_rules, ..self }),
    {
        PieceBuilder { move_rules, ..self }
    }

    pub fn kill_rules(self, kill_rules: Vec<MoveRules>) -> (r: Self)
        ensures
            r == (PieceBuilder { kill_rules, ..self }),
    {
        PieceBuilder { kill_rules, ..self }
    }

    pub fn nth_move_rules(self, nth_move_rules: Vec<NthMoveRules>) -> (r: Self)
        ensures
            r == (PieceBuilder { nth_move_rules, ..self }),
    {
        PieceBuilder { nth_move_rules, ..self }
    }

    pub fn jump_immune(self, jump_immune: bool) -> (r: Self)
        ensures
            r == (PieceBuilder { jump_immune, ..self }),
    {
        PieceBuilder { jump_immune, ..self }
    }

    pub fn pierce_immune(self, pierce_immune: bool) -> (r: Self)
        ensures
            r == (PieceBuilder { pierce_immune, ..self }),
    {
        PieceBuilder { pierce_immune, ..self }
    }

    pub fn use_kill_for_moves(self, use_kill_for_moves: bool) -> (r: Self)
        ensures
            r == (PieceBuilder { use_kill_for_moves, ..self }),
    {
        PieceBuilder { use_kill_for_moves, ..self }
    }

    pub fn use_moves_for_kills(self, use_moves_for_kills: bool) -> (r: Self)
        ensures
            r == (PieceBuilder { use_moves_for_kills, ..self }),
    {
        PieceBuilder { use_moves_for_kills, ..self }
    }

    pub fn team(self, team: Team) -> (r: Self)
        ensures
            r == (PieceBuilder { team: Some(team), ..self }),
    {
        PieceBuilder { team: Some(team), ..self }
    }

    /// The piece the builder describes: alive, without a relative position,
    /// about to make its first move.
    pub open spec fn built(self) -> PieceRef {
        PieceRef {
            name: self.name,
            team: self.team,
            points: self.points,
            move_rules: self.move_rules,
            kill_rules: self.kill_rules,
            nth_move_rules: self.nth_move_rules,
            alive: true,
            jump_immune: self.jump_immune,
            pierce_immune: self.pierce_immune,
            use_kill_for_moves: self.use_kill_for_moves,
            use_moves_for_kills: self.use_moves_for_kills,
            rel_pos: None,
            move_num: 1,
        }
    }

    pub fn build(self) -> (r: Result<PieceRef, crate::error::ChessError>)
        ensures
            r == Ok::<PieceRef, crate::error::ChessError>(self.built()),
    {
        Ok(
            PieceRef {
                name: self.name,
                team: self.team,
                points: self.points,
                move_rules: self.move_rules,
                kill_rules: self.kill_rules,
                nth_move_rules: self.nth_move_rules,
                alive: true,
                jump_immune: self.jump_immune,
                pierce_immune: self.pierce_immune,
                use_kill_for_moves: self.use_kill_for_moves,
                use_moves_for_kills: self.use_moves_for_kills,
                rel_pos: None,
                move_num: 1,
            },
        )
    }

    /// A fresh copy of a piece's data.
    pub fn clone_piece(original: &PieceRef) -> (r: PieceRef)
        ensures
            r.same_as(original),
    {
        original.duplicate()
    }
}

} // verus!
