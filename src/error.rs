use vstd::prelude::*;

verus! {

/// Recoverable failures of the engine, each with a human-readable reason.
#[derive(Debug)]
pub enum ChessError {
    /// Occupying an occupied tile, or removing/moving from a vacant one.
    TileActionError { why: String },
    /// Reserved for piece construction failures.
    PieceCreationError { why: String },
    /// A piece lacks a team or a relative position.
    GameValidationError { why: String },
    /// Moves were requested for a team that does not exist.
    MoveCalculationError { why: String },
    /// A coordinate step would leave the non-negative quadrant.
    CoordTranslationError { why: String },
}

impl ChessError {
    /// The reason carried by the error.
    pub open spec fn reason_of(&self) -> Seq<char> {
        match self {
            ChessError::TileActionError { why } => why@,
            ChessError::PieceCreationError { why } => why@,
            ChessError::GameValidationError { why } => why@,
            ChessError::MoveCalculationError { why } => why@,
            ChessError::CoordTranslationError { why } => why@,
        }
    }

    /// The reason ends with `name`.
    pub open spec fn names(&self, name: Seq<char>) -> bool {
        let w = self.reason_of();
        w.len() >= name.len() && w.subrange(w.len() - name.len(), w.len() as int) == name
    }

    pub open spec fn is_tile_action(&self) -> bool {
        self is TileActionError
    }

    pub open spec fn is_game_validation(&self) -> bool {
        self is GameValidationError
    }

    pub open spec fn is_move_calculation(&self) -> bool {
        self is MoveCalculationError
    }

    pub open spec fn is_coord_translation(&self) -> bool {
        self is CoordTranslationError
    }

    /// The short headline of the error kind.
    pub fn headline(&self) -> (r: &'static str)
        ensures
            r@ == match self {
                ChessError::TileActionError { .. } => "Error with tile."@,
                ChessError::PieceCreationError { .. } => "Error creating piece."@,
                ChessError::GameValidationError { .. } => "Error validating game."@,
                ChessError::MoveCalculationError { .. } => "Error calculating moves."@,
                ChessError::CoordTranslationError { .. } => "Error translating coordinate."@,
            },
    {
        match self {
            ChessError::TileActionError { .. } => "Error with tile.",
            ChessError::PieceCreationError { .. } => "Error creating piece.",
            ChessError::GameValidationError { .. } => "Error validating game.",
            ChessError::MoveCalculationError { .. } => "Error calculating moves.",
            ChessError::CoordTranslationError { .. } => "Error translating coordinate.",
        }
    }

    /// The detailed reason carried by the error.
    pub fn why(&self) -> (r: &String)
        ensures
            *r == match self {
                ChessError::TileActionError { why } => *why,
                ChessError::PieceCreationError { why } => *why,
                ChessError::GameValidationError { why } => *why,
                ChessError::MoveCalculationError { why } => *why,
                ChessError::CoordTranslationError { why } => *why,
            },
    {
        match self {
            ChessError::TileActionError { why } => why,
            ChessError::PieceCreationError { why } => why,
            ChessError::GameValidationError { why } => why,
            ChessError::MoveCalculationError { why } => why,
            ChessError::CoordTranslationError { why } => why,
        }
    }
}

/// Builds an error reason from a literal.
pub fn reason(s: &str) -> (r: String)
    ensures
        r@ == s@,
{
    s.to_string()
}

} // verus!
