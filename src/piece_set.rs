use vstd::prelude::*;

use crate::error::ChessError;
use crate::moves::Coord;
use crate::piece::{PieceBuilder, PieceRef};
use crate::team::Team;

verus! {

/// One team's roster: its pieces and, index-aligned, their starting
/// coordinates in the team's frame.
pub struct PieceSet {
    pub team: Team,
    pub pieces: Vec<PieceRef>,
    pub starting_coords: Vec<Coord>,
}

/// The indices `i` of `pieces` with `pieces[i]` alive, in order.
pub open spec fn alive_indices(pieces: Seq<PieceRef>, n: int) -> Seq<usize>
    decreases n,
{
    if n <= 0 {
        Seq::empty()
    } else if pieces[n - 1].alive {
        alive_indices(pieces, n - 1).push((n - 1) as usize)
    } else {
        alive_indices(pieces, n - 1)
    }
}

impl PieceSet {
    /// The roster and the starting coordinates stay index-aligned.
    pub open spec fn wf(&self) -> bool {
        self.pieces@.len() == self.starting_coords@.len()
    }

    /// A set for `team`. Every piece needs a starting coordinate, so a set
    /// starts from an empty roster and grows through `add_piece`.
    pub fn new(team: Team, pieces: Vec<PieceRef>) -> (r: Self)
        requires
            pieces@.len() == 0,
        ensures
            r.wf(),
            r.team == team,
            r.pieces@.len() == 0,
    {
        Self { team, pieces, starting_coords: Vec::new() }
    }

    pub fn team(&self) -> (r: Team)
        ensures
            r == self.team,
    {
        self.team.clone()
    }

    pub fn pieces(&self) -> (r: &Vec<PieceRef>)
        ensures
            r == &self.pieces,
    {
        &self.pieces
    }

    pub fn starting_coords(&self) -> (r: &Vec<Coord>)
        ensures
            r == &self.starting_coords,
    {
        &self.starting_coords
    }

    /// Adds a piece at a starting coordinate; the piece joins the set's team
    /// and takes that coordinate as its relative position.
    pub fn add_piece(&mut self, piece: PieceRef, rel_starting_coord: Coord) -> (r: Result<
        (),
        ChessError,
    >)
        requires
            old(self).wf(),
        ensures
            r is Ok,
            final(self).wf(),
            final(self).team == old(self).team,
            final(self).pieces@ == old(self).pieces@.push(
                PieceRef { team: Some(old(self).team), rel_pos: Some(rel_starting_coord), ..piece },
            ),
            final(self).starting_coords@ == old(self).starting_coords@.push(rel_starting_coord),
    {
        let mut piece = piece;
        piece.set_team(self.team.clone());
        piece.set_rel_pos(rel_starting_coord);
        self.pieces.push(piece);
        self.starting_coords.push(rel_starting_coord);
        Ok(())
    }

    /// The indices of the pieces that are alive, in roster order.
    pub fn alive_pieces(&self) -> (r: Vec<usize>)
        ensures
            r@ == alive_indices(self.pieces@, self.pieces@.len() as int),
    {
        let mut r: Vec<usize> = Vec::new();
        let mut i: usize = 0;
        while i < self.pieces.len()
            invariant
                i <= self.pieces@.len(),
                r@ == alive_indices(self.pieces@, i as int),
            decreases self.pieces@.len() - i,
        {
            if self.pieces[i].alive {
                r.push(i);
            }
            i = i + 1;
        }
        r
    }

    /// A copy of the set for another team: every piece is copied and joins
    /// `team`; the starting coordinates are kept.
    pub fn clone_for_team(&self, team: Team) -> (r: Self)
        requires
            self.wf(),
        ensures
            r.wf(),
            r.team == team,
            r.starting_coords@ == self.starting_coords@,
            r.pieces@.len() == self.pieces@.len(),
            forall|i: int|
                0 <= i < r.pieces@.len() ==> #[trigger] r.pieces@[i].same_as(
                    &self.pieces@[i].with_team(Some(team)),
                ),
    {
        let mut pieces: Vec<PieceRef> = Vec::new();
        let mut coords: Vec<Coord> = Vec::new();
        let mut i: usize = 0;
        while i < self.pieces.len()
            invariant
                self.wf(),
                i <= self.pieces@.len(),
                pieces@.len() == i,
                coords@ == self.starting_coords@.subrange(0, i as int),
                forall|j: int|
                    0 <= j < i ==> #[trigger] pieces@[j].same_as(
                        &self.pieces@[j].with_team(Some(team)),
                    ),
            decreases self.pieces@.len() - i,
        {
            let mut p = PieceBuilder::clone_piece(&self.pieces[i]);
            p.set_team(team.clone());
            pieces.push(p);
            coords.push(self.starting_coords[i]);
            i = i + 1;
        }
        assert(coords@ =~= self.starting_coords@);
        Self { team, pieces, starting_coords: coords }
    }
}

} // verus!
