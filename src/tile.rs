use vstd::prelude::*;

use crate::error::{reason, ChessError};
use crate::piece::Piece;
use crate::piece::copy_team;
use crate::team::Team;

verus! {

/// A handle to a tile of a board: its index in the board's row-major storage.
#[derive(Clone, Copy, Debug, PartialEq, Eq, Structural)]
pub struct Tile {
    pub index: usize,
}

/// One board cell: at most one piece, and the team of that piece cached for
/// quick same-team checks.
pub struct TileRef {
    pub piece: Option<Piece>,
    pub team_on_tile: Option<Team>,
}

impl TileRef {
    /// The vacant tile.
    pub open spec fn empty() -> TileRef {
        TileRef { piece: None, team_on_tile: None }
    }

    /// The tile holding `piece` of team `team`.
    pub open spec fn holding(piece: Piece, team: Option<Team>) -> TileRef {
        TileRef { piece: Some(piece), team_on_tile: team }
    }

    pub fn piece(&self) -> (r: Option<Piece>)
        ensures
            r == self.piece,
    {
        self.piece
    }

    pub fn occupied(&self) -> (r: bool)
        ensures
            r == self.piece is Some,
    {
        self.piece.is_some()
    }

    pub fn vacant(&self) -> (r: bool)
        ensures
            r == self.piece is None,
    {
        self.piece.is_none()
    }

    /// Places a piece of team `team` on the tile; fails on an occupied tile.
    pub fn set_piece(&mut self, piece: Piece, team: Option<Team>) -> (r: Result<(), ChessError>)
        ensures
            old(self).piece is None <==> r is Ok,
            r is Ok ==> *final(self) == TileRef::holding(piece, team),
            r is Err ==> *final(self) == *old(self) && r->Err_0.is_tile_action(),
    {
        if self.piece.is_some() {
            return Err(
                ChessError::TileActionError {
                    why: reason("Could not replace tile's piece, there is already a piece here."),
                },
            );
        }
        self.piece = Some(piece);
        self.team_on_tile = team;
        Ok(())
    }

    /// Places a piece of team `team` on the tile, whatever it held.
    pub fn replace_piece(&mut self, piece: Piece, team: Option<Team>)
        ensures
            *final(self) == TileRef::holding(piece, team),
    {
        self.piece = Some(piece);
        self.team_on_tile = team;
    }

    /// Empties the tile; fails on a vacant tile.
    pub fn remove_piece(&mut self) -> (r: Result<(), ChessError>)
        ensures
            old(self).piece is Some <==> r is Ok,
            r is Ok ==> *final(self) == TileRef::empty(),
            r is Err ==> *final(self) == *old(self) && r->Err_0.is_tile_action(),
    {
        if self.piece.is_none() {
            return Err(
                ChessError::TileActionError {
                    why: reason("Could not remove tile's piece, it is already vacant."),
                },
            );
        }
        self.piece = None;
        self.team_on_tile = None;
        Ok(())
    }

    /// Moves this tile's piece, with its cached team, onto `target_tile`;
    /// fails, changing nothing, when this tile is vacant or the target is
    /// occupied.
    pub fn move_contained_piece(&mut self, target_tile: &mut TileRef) -> (r: Result<(), ChessError>)
        ensures
            (old(self).piece is Some && old(target_tile).piece is None) <==> r is Ok,
            r is Ok ==> *final(self) == TileRef::empty() && *final(target_tile) == (TileRef {
                piece: old(self).piece,
                team_on_tile: old(self).team_on_tile,
            }),
            r is Err ==> *final(self) == *old(self) && *final(target_tile) == *old(target_tile)
                && r->Err_0.is_tile_action(),
    {
        match self.piece {
            None => Err(
                ChessError::TileActionError {
                    why: reason("Could not move contained piece, there is no piece to move."),
                },
            ),
            Some(p) => {
                let team = copy_team(&self.team_on_tile);
                target_tile.set_piece(p, team)?;
                self.piece = None;
                self.team_on_tile = None;
                Ok(())
            },
        }
    }

    pub fn team_on_tile(&self) -> (r: Option<Team>)
        ensures
            r == self.team_on_tile,
    {
        copy_team(&self.team_on_tile)
    }

    pub fn team_on_tile_unchecked(&self) -> (r: Team)
        requires
            self.team_on_tile is Some,
        ensures
            r == self.team_on_tile->Some_0,
    {
        match &self.team_on_tile {
            Some(t) => t.clone(),
            None => {
                proof {
                    assert(false);
                }
                Team::new(String::new(), crate::team::StartInfo::Bottom { offset: 0 })
            },
        }
    }
}

/// Builds vacant tiles.
pub struct TileBuilder {}

impl TileBuilder {
    pub fn new() -> (r: Self) {
        TileBuilder {  }
    }

    pub fn build(self) -> (r: TileRef)
        ensures
            r == TileRef::empty(),
    {
        TileRef { piece: None, team_on_tile: None }
    }
}

} // verus!
