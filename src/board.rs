use vstd::prelude::*;

use crate::error::{reason, ChessError};
use crate::moves::Coord;
use crate::piece::{copy_team, Piece, PieceRef};
use crate::piece_set::PieceSet;
use crate::team::{StartInfo, Team};
use crate::tile::{Tile, TileBuilder, TileRef};
use vstd::string::StringExecFns;

verus! {

/// The board as a mathematical value: its size, its tiles in row-major order
/// (row 0 at the bottom), and per piece set its team, pieces and starting
/// coordinates.
pub struct BoardView {
    pub width: u32,
    pub height: u32,
    pub tiles: Seq<TileRef>,
    pub teams: Seq<Team>,
    pub pieces: Seq<Seq<PieceRef>>,
    pub starts: Seq<Seq<Coord>>,
}

/// Whether a coordinate lies in a team's frame, which is the board turned so
/// that the team's edge is at the bottom.
pub open spec fn in_frame(w: int, h: int, s: StartInfo, x: int, y: int) -> bool {
    match s {
        StartInfo::Bottom { .. } | StartInfo::Top { .. } => 0 <= x < w && 0 <= y < h,
        StartInfo::Left { .. } | StartInfo::Right { .. } => 0 <= x < h && 0 <= y < w,
    }
}

/// The board coordinate of a coordinate of a team's frame.
pub open spec fn frame_to_abs(w: int, h: int, s: StartInfo, x: int, y: int) -> (int, int) {
    match s {
        StartInfo::Bottom { .. } => (x, y),
        StartInfo::Left { .. } => (y, h - 1 - x),
        StartInfo::Right { .. } => (w - 1 - y, x),
        StartInfo::Top { .. } => (w - 1 - x, h - 1 - y),
    }
}

impl BoardView {
    pub open spec fn in_bounds(self, x: int, y: int) -> bool {
        0 <= x < self.width && 0 <= y < self.height
    }

    /// The storage index of the tile at `(x, y)`.
    pub open spec fn tile_index(self, x: int, y: int) -> int {
        y * self.width + x
    }

    pub open spec fn valid_tile(self, t: Tile) -> bool {
        t.index < self.tiles.len()
    }

    pub open spec fn valid_piece(self, p: Piece) -> bool {
        p.set < self.pieces.len() && p.index < self.pieces[p.set as int].len()
    }

    pub open spec fn piece_at(self, p: Piece) -> PieceRef {
        self.pieces[p.set as int][p.index as int]
    }

    /// Every occupied tile holds a live piece of the board, and caches that
    /// piece's team.
    pub open spec fn tile_wf(self, t: TileRef) -> bool {
        &&& t.piece is None ==> t.team_on_tile is None
        &&& t.piece is Some ==> {
            let p = t.piece->Some_0;
            &&& self.valid_piece(p)
            &&& self.piece_at(p).alive
            &&& t.team_on_tile == self.piece_at(p).team
        }
    }

    /// No tile holds the piece.
    pub open spec fn off_board(self, p: Piece) -> bool {
        forall|k: int| 0 <= k < self.tiles.len() ==> #[trigger] self.tiles[k].piece != Some(p)
    }

    /// No piece stands on two tiles.
    pub open spec fn unique_pieces(self) -> bool {
        forall|i: int, j: int|
            0 <= i < self.tiles.len() && 0 <= j < self.tiles.len() && #[trigger] self.tiles[i].piece
                is Some && self.tiles[i].piece == #[trigger] self.tiles[j].piece ==> i == j
    }

    pub open spec fn wf(self) -> bool {
        &&& self.tiles.len() == self.width * self.height
        &&& self.tiles.len() <= usize::MAX
        &&& self.pieces.len() <= usize::MAX
        &&& forall|s: int| 0 <= s < self.pieces.len() ==> #[trigger] self.pieces[s].len() <= usize::MAX
        &&& self.teams.len() == self.pieces.len()
        &&& self.starts.len() == self.pieces.len()
        &&& forall|s: int| 0 <= s < self.pieces.len() ==> #[trigger] self.pieces[s].len() == self.starts[s].len()
        &&& forall|i: int| 0 <= i < self.tiles.len() ==> self.tile_wf(#[trigger] self.tiles[i])
        &&& self.unique_pieces()
    }

    pub open spec fn with_tile(self, i: int, t: TileRef) -> BoardView {
        BoardView { tiles: self.tiles.update(i, t), ..self }
    }

    pub open spec fn with_piece(self, p: Piece, v: PieceRef) -> BoardView {
        BoardView {
            pieces: self.pieces.update(p.set as int, self.pieces[p.set as int].update(p.index as int, v)),
            ..self
        }
    }

    /// Where piece `i` of set `s` starts in its team's frame: its starting
    /// coordinate shifted along the frame's x axis by the team's offset.
    pub open spec fn start_frame(self, s: int, i: int) -> (int, int) {
        (
            self.starts[s][i].x + self.teams[s].start_info.offset_of(),
            self.starts[s][i].y as int,
        )
    }

    /// Installs piece `i` of set `s` on its starting tile and records its
    /// frame position; a dead piece is left off the board. None when the
    /// piece already stands on a tile, or its starting tile is off the board
    /// or already occupied.
    pub open spec fn place(self, s: int, i: int) -> Option<BoardView> {
        let p = self.pieces[s][i];
        let si = self.teams[s].start_info;
        let f = self.start_frame(s, i);
        let a = frame_to_abs(self.width as int, self.height as int, si, f.0, f.1);
        let idx = self.tile_index(a.0, a.1);
        let h = Piece { set: s as usize, index: i as usize };
        if !p.alive {
            Some(self)
        } else if !self.off_board(h) {
            None
        } else if !in_frame(self.width as int, self.height as int, si, f.0, f.1) {
            None
        } else if self.tiles[idx].piece is Some {
            None
        } else {
            Some(
                self.with_tile(idx, TileRef::holding(h, p.team)).with_piece(
                    h,
                    PieceRef { rel_pos: Some(Coord { x: f.0 as u32, y: f.1 as u32 }), ..p },
                ),
            )
        }
    }

    /// Places pieces `i..m` of set `s` in order.
    pub open spec fn place_set(self, s: int, i: int, m: int) -> Option<BoardView>
        decreases m - i,
    {
        if i >= m {
            Some(self)
        } else {
            match self.place(s, i) {
                Some(b) => b.place_set(s, i + 1, m),
                None => None,
            }
        }
    }

    /// Places every piece of sets `s..n` in order.
    pub open spec fn place_sets(self, s: int, n: int) -> Option<BoardView>
        decreases n - s,
    {
        if s >= n {
            Some(self)
        } else {
            match self.place_set(s, 0, self.pieces[s].len() as int) {
                Some(b) => b.place_sets(s + 1, n),
                None => None,
            }
        }
    }

    /// The board after `init`; None when some piece cannot be placed.
    pub open spec fn initialized(self) -> Option<BoardView> {
        self.place_sets(0, self.pieces.len() as int)
    }

    /// Two boards of the same size and rosters, up to tile contents and
    /// piece state.
    pub open spec fn same_shape(self, o: BoardView) -> bool {
        &&& self.width == o.width
        &&& self.height == o.height
        &&& self.tiles.len() == o.tiles.len()
        &&& self.teams == o.teams
        &&& self.starts == o.starts
        &&& self.pieces.len() == o.pieces.len()
        &&& forall|k: int| 0 <= k < self.pieces.len() ==> #[trigger] self.pieces[k].len() == o.pieces[k].len()
    }

    /// Every piece handle of the board, set by set, in roster order.
    pub open spec fn handles(self, n: int) -> Seq<Piece>
        decreases n,
    {
        if n <= 0 {
            Seq::empty()
        } else {
            self.handles(n - 1) + Seq::new(
                self.pieces[n - 1].len(),
                |i: int| Piece { set: (n - 1) as usize, index: i as usize },
            )
        }
    }
}

/// The symbol of a tile: the first letter of its piece's name, or a space.
pub open spec fn tile_symbol(b: BoardView, t: TileRef) -> Seq<char> {
    match t.piece {
        Some(p) => if b.piece_at(p).name@.len() > 0 {
            b.piece_at(p).name@.subrange(0, 1)
        } else {
            seq![' ']
        },
        None => seq![' '],
    }
}

/// The first `x` tiles of row `y`, each symbol followed by a space.
pub open spec fn row_text(b: BoardView, y: int, x: int) -> Seq<char>
    decreases x,
{
    if x <= 0 {
        Seq::empty()
    } else {
        row_text(b, y, x - 1) + tile_symbol(b, b.tiles[b.tile_index(x - 1, y)]) + seq![' ']
    }
}

/// The top `k` rows of the board, top row first, each ended by a newline.
pub open spec fn rows_text(b: BoardView, k: int) -> Seq<char>
    decreases k,
{
    if k <= 0 {
        Seq::empty()
    } else {
        rows_text(b, k - 1) + row_text(b, b.height - k, b.width as int) + seq!['\n']
    }
}

/// A fixed grid of tiles and the piece sets placed on it.
pub struct Board {
    pub width: u32,
    pub height: u32,
    /// Row-major, row 0 being the bottom row.
    pub tiles: Vec<TileRef>,
    pub piece_sets: Vec<PieceSet>,
}

impl View for Board {
    type V = BoardView;

    open spec fn view(&self) -> BoardView {
        BoardView {
            width: self.width,
            height: self.height,
            tiles: self.tiles@,
            teams: self.piece_sets@.map_values(|s: PieceSet| s.team),
            pieces: self.piece_sets@.map_values(|s: PieceSet| s.pieces@),
            starts: self.piece_sets@.map_values(|s: PieceSet| s.starting_coords@),
        }
    }
}

/// Distinct coordinates on a board name distinct tiles.
pub proof fn lemma_tile_identity(b: BoardView, x1: int, y1: int, x2: int, y2: int)
    requires
        b.in_bounds(x1, y1),
        b.in_bounds(x2, y2),
        x1 != x2 || y1 != y2,
    ensures
        b.tile_index(x1, y1) != b.tile_index(x2, y2),
{
    let w = b.width as int;
    if y1 == y2 {
    } else if y1 < y2 {
        assert(y1 * w + w <= y2 * w) by (nonlinear_arith)
            requires
                y1 < y2,
                w >= 0,
        ;
    } else {
        assert(y2 * w + w <= y1 * w) by (nonlinear_arith)
            requires
                y2 < y1,
                w >= 0,
        ;
    }
}

/// A tile in bounds has its storage index within the board.
pub proof fn lemma_index_in_range(b: BoardView, x: int, y: int)
    requires
        b.in_bounds(x, y),
    ensures
        0 <= b.tile_index(x, y) < b.width * b.height,
{
    let w = b.width as int;
    let h = b.height as int;
    assert(0 <= y * w + x < w * h) by (nonlinear_arith)
        requires
            0 <= x < w,
            0 <= y < h,
    ;
}

/// Placing one piece keeps the board well formed and its shape.
pub proof fn lemma_place_wf(b: BoardView, s: int, i: int)
    requires
        b.wf(),
        0 <= s < b.pieces.len(),
        0 <= i < b.pieces[s].len(),
        b.place(s, i) is Some,
    ensures
        b.place(s, i)->Some_0.wf(),
        b.place(s, i)->Some_0.same_shape(b),
{
    let r = b.place(s, i)->Some_0;
    let p = b.pieces[s][i];
    if p.alive {
        let si = b.teams[s].start_info;
        let f = b.start_frame(s, i);
        let a = frame_to_abs(b.width as int, b.height as int, si, f.0, f.1);
        let idx = b.tile_index(a.0, a.1);
        let h = Piece { set: s as usize, index: i as usize };
        let p2 = PieceRef { rel_pos: Some(Coord { x: f.0 as u32, y: f.1 as u32 }), ..p };
        lemma_index_in_range(b, a.0, a.1);
        assert(r == b.with_tile(idx, TileRef::holding(h, p.team)).with_piece(h, p2));
        assert forall|k: int| 0 <= k < r.pieces.len() implies #[trigger] r.pieces[k].len()
            == b.pieces[k].len() by {
            if k == s {
            }
        }
        assert forall|k: int| 0 <= k < r.tiles.len() implies r.tile_wf(#[trigger] r.tiles[k]) by {
            assert(b.tile_wf(b.tiles[k]));
            if k == idx {
                assert(r.tiles[k] == TileRef::holding(h, p.team));
                assert(r.piece_at(h) == p2);
            } else {
                assert(r.tiles[k] == b.tiles[k]);
                if b.tiles[k].piece is Some {
                    let q = b.tiles[k].piece->Some_0;
                    assert(r.pieces[q.set as int].len() == b.pieces[q.set as int].len());
                    if q == h {
                        assert(r.piece_at(q) == p2);
                    } else {
                        assert(r.piece_at(q) == b.piece_at(q));
                    }
                }
            }
        }
        assert forall|x: int, y: int|
            0 <= x < r.tiles.len() && 0 <= y < r.tiles.len() && #[trigger] r.tiles[x].piece
                is Some && r.tiles[x].piece == #[trigger] r.tiles[y].piece implies x == y by {
            if x != idx && y != idx {
                assert(b.tiles[x] == r.tiles[x] && b.tiles[y] == r.tiles[y]);
            } else if x == idx && y != idx {
                assert(b.tiles[y].piece != Some(h));
            } else if x != idx && y == idx {
                assert(b.tiles[x].piece != Some(h));
            }
        }
    }
}

impl BoardView {
    /// The storage index of the tile piece `i` of set `s` starts on.
    pub open spec fn start_tile(self, s: int, i: int) -> int {
        let f = self.start_frame(s, i);
        let a = frame_to_abs(self.width as int, self.height as int, self.teams[s].start_info, f.0, f.1);
        self.tile_index(a.0, a.1)
    }

    /// Every tile is vacant, every live piece starts inside its team's
    /// frame, and no two live pieces start on the same tile.
    pub open spec fn placeable(self) -> bool {
        &&& forall|k: int| 0 <= k < self.tiles.len() ==> (#[trigger] self.tiles[k]).piece is None
        &&& forall|s: int, i: int|
            0 <= s < self.pieces.len() && 0 <= i < self.pieces[s].len() && #[trigger] self.pieces[s][i].alive
                ==> in_frame(
                self.width as int,
                self.height as int,
                self.teams[s].start_info,
                self.start_frame(s, i).0,
                self.start_frame(s, i).1,
            )
        &&& forall|s1: int, i1: int, s2: int, i2: int|
            0 <= s1 < self.pieces.len() && 0 <= i1 < self.pieces[s1].len() && 0 <= s2
                < self.pieces.len() && 0 <= i2 < self.pieces[s2].len() && self.pieces[s1][i1].alive
                && self.pieces[s2][i2].alive && (s1 != s2 || i1 != i2) ==> #[trigger] self.start_tile(
                s1,
                i1,
            ) != #[trigger] self.start_tile(s2, i2)
    }
}

/// The piece comes before piece `i` of set `s` in placement order.
pub open spec fn placed_before(h: Piece, s: int, i: int) -> bool {
    h.set < s || (h.set == s && h.index < i)
}

/// `c` is `b` with the live pieces before piece `i` of set `s` installed.
pub open spec fn partly_placed(c: BoardView, b: BoardView, s: int, i: int) -> bool {
    &&& c.wf()
    &&& c.same_shape(b)
    &&& forall|t: int, j: int|
        0 <= t < b.pieces.len() && 0 <= j < b.pieces[t].len() ==> (#[trigger] c.pieces[t][j]).alive
            == b.pieces[t][j].alive
    &&& forall|k: int|
        0 <= k < c.tiles.len() && (#[trigger] c.tiles[k]).piece is Some ==> {
            let h = c.tiles[k].piece->Some_0;
            placed_before(h, s, i) && k == b.start_tile(h.set as int, h.index as int)
        }
}

pub(crate) proof fn lemma_place_succeeds(c: BoardView, b: BoardView, s: int, i: int)
    requires
        b.wf(),
        b.placeable(),
        partly_placed(c, b, s, i),
        0 <= s < b.pieces.len(),
        0 <= i < b.pieces[s].len(),
    ensures
        c.place(s, i) is Some,
        partly_placed(c.place(s, i)->Some_0, b, s, i + 1),
{
    let h = Piece { set: s as usize, index: i as usize };
    assert(c.pieces[s][i].alive == b.pieces[s][i].alive);
    assert(c.start_frame(s, i) == b.start_frame(s, i));
    if c.pieces[s][i].alive {
        assert(c.off_board(h)) by {
            assert forall|k: int| 0 <= k < c.tiles.len() implies #[trigger] c.tiles[k].piece != Some(h) by {
                if c.tiles[k].piece is Some {
                    let g = c.tiles[k].piece->Some_0;
                    assert(placed_before(g, s, i));
                }
            }
        }
        let f = b.start_frame(s, i);
        let a = frame_to_abs(b.width as int, b.height as int, b.teams[s].start_info, f.0, f.1);
        let idx = b.tile_index(a.0, a.1);
        assert(idx == b.start_tile(s, i));
        assert(c.tiles[idx].piece is None) by {
            lemma_index_in_range(b, a.0, a.1);
            if c.tiles[idx].piece is Some {
                let g = c.tiles[idx].piece->Some_0;
                assert(placed_before(g, s, i));
                assert(c.tile_wf(c.tiles[idx]));
                assert(c.pieces[g.set as int][g.index as int].alive);
                assert(b.start_tile(g.set as int, g.index as int) != b.start_tile(s, i));
            }
        }
        lemma_place_wf(c, s, i);
        let r = c.place(s, i)->Some_0;
        lemma_index_in_range(b, a.0, a.1);
        assert forall|t: int, j: int| 0 <= t < b.pieces.len() && 0 <= j < b.pieces[t].len() implies (
        #[trigger] r.pieces[t][j]).alive == b.pieces[t][j].alive by {
            assert(c.pieces[t][j].alive == b.pieces[t][j].alive);
        }
        assert forall|k: int| 0 <= k < r.tiles.len() && (#[trigger] r.tiles[k]).piece is Some implies {
            let g = r.tiles[k].piece->Some_0;
            placed_before(g, s, i + 1) && k == b.start_tile(g.set as int, g.index as int)
        } by {
            if k != idx {
                assert(r.tiles[k] == c.tiles[k]);
            }
        }
    } else {
        assert(c.place(s, i) == Some(c));
    }
}

proof fn lemma_place_set_succeeds(c: BoardView, b: BoardView, s: int, i: int, m: int)
    requires
        b.wf(),
        b.placeable(),
        partly_placed(c, b, s, i),
        0 <= s < b.pieces.len(),
        0 <= i <= m,
        m == b.pieces[s].len(),
    ensures
        c.place_set(s, i, m) is Some,
        partly_placed(c.place_set(s, i, m)->Some_0, b, s + 1, 0),
    decreases m - i,
{
    if i < m {
        lemma_place_succeeds(c, b, s, i);
        lemma_place_set_succeeds(c.place(s, i)->Some_0, b, s, i + 1, m);
    } else {
        assert forall|k: int| 0 <= k < c.tiles.len() && (#[trigger] c.tiles[k]).piece is Some implies {
            let g = c.tiles[k].piece->Some_0;
            placed_before(g, s + 1, 0) && k == b.start_tile(g.set as int, g.index as int)
        } by {
            let g = c.tiles[k].piece->Some_0;
            assert(c.tile_wf(c.tiles[k]));
            assert(c.valid_piece(g));
        }
    }
}

proof fn lemma_place_sets_succeeds(c: BoardView, b: BoardView, s: int, n: int)
    requires
        b.wf(),
        b.placeable(),
        partly_placed(c, b, s, 0),
        0 <= s <= n,
        n == b.pieces.len(),
    ensures
        c.place_sets(s, n) is Some,
    decreases n - s,
{
    if s < n {
        let m = c.pieces[s].len() as int;
        lemma_place_set_succeeds(c, b, s, 0, m);
        lemma_place_sets_succeeds(c.place_set(s, 0, m)->Some_0, b, s + 1, n);
    }
}

/// On a board with every tile vacant, where every live piece starts inside
/// its team's frame and no two live pieces share a starting tile, `init`
/// succeeds.
pub proof fn lemma_init_succeeds(b: BoardView)
    requires
        b.wf(),
        b.placeable(),
    ensures
        b.initialized() is Some,
{
    lemma_place_sets_succeeds(b, b, 0, b.pieces.len() as int);
}

impl Board {
    pub open spec fn wf(&self) -> bool {
        self@.wf()
    }

    /// A `w` by `h` board of vacant tiles without piece sets.
    pub fn new(w: u32, h: u32) -> (r: Self)
        requires
            w * h <= usize::MAX,
        ensures
            r.wf(),
            r.width == w,
            r.height == h,
            r@.tiles == Seq::new((w * h) as nat, |i: int| TileRef::empty()),
            r@.pieces.len() == 0,
    {
        let n: usize = (w as usize) * (h as usize);
        let mut tiles: Vec<TileRef> = Vec::new();
        let mut i: usize = 0;
        while i < n
            invariant
                i <= n,
                tiles@ == Seq::new(i as nat, |j: int| TileRef::empty()),
            decreases n - i,
        {
            tiles.push(TileBuilder::new().build());
            i = i + 1;
            assert(tiles@ =~= Seq::new(i as nat, |j: int| TileRef::empty()));
        }
        let r = Self { width: w, height: h, tiles, piece_sets: Vec::new() };
        assert(r@.pieces =~= Seq::<Seq<PieceRef>>::empty());
        r
    }

    /// Adds a piece set; its pieces are placed by `init`.
    pub fn add_piece_set(&mut self, set: PieceSet) -> (r: Result<(), ChessError>)
        requires
            old(self).wf(),
            set.wf(),
        ensures
            r is Ok,
            final(self).wf(),
            final(self).piece_sets@ == old(self).piece_sets@.push(set),
            final(self)@.tiles == old(self)@.tiles,
            final(self).width == old(self).width,
            final(self).height == old(self).height,
    {
        let m = set.pieces.len();
        self.piece_sets.push(set);
        let n = self.piece_sets.len();
        proof {
            let b = self@;
            let o = old(self)@;
            assert(b.pieces =~= o.pieces.push(set.pieces@));
            assert(b.starts =~= o.starts.push(set.starting_coords@));
            assert(b.teams =~= o.teams.push(set.team));
            assert forall|s: int| 0 <= s < b.pieces.len() implies #[trigger] b.pieces[s].len()
                == b.starts[s].len() && b.pieces[s].len() <= usize::MAX by {
                if s < o.pieces.len() {
                    assert(o.pieces[s].len() == o.starts[s].len());
                    assert(o.pieces[s].len() <= usize::MAX);
                }
            }
            assert forall|i: int| 0 <= i < b.tiles.len() implies b.tile_wf(#[trigger] b.tiles[i]) by {
                assert(old(self)@.tile_wf(old(self)@.tiles[i]));
            }
        }
        Ok(())
    }

    /// Installs one piece on its starting tile (see `BoardView::place`);
    /// changes nothing on failure.
    fn place_piece(&mut self, s: usize, i: usize) -> (r: Result<(), ChessError>)
        requires
            old(self).wf(),
            s < old(self)@.pieces.len(),
            i < old(self)@.pieces[s as int].len(),
        ensures
            match old(self)@.place(s as int, i as int) {
                Some(b) => r is Ok && final(self)@ == b,
                None => r is Err && final(self)@ == old(self)@ && r->Err_0.is_tile_action(),
            },
    {
        let ghost b = self@;
        if !self.piece_sets[s].pieces[i].alive {
            return Ok(());
        }
        let h = Piece { set: s, index: i };
        if !self.is_off_board(h) {
            return Err(
                ChessError::TileActionError {
                    why: reason("A piece already stands on the board."),
                },
            );
        }
        let si = self.piece_sets[s].team.start_info;
        let st = self.piece_sets[s].starting_coords[i];
        proof {
            assert(b.starts[s as int][i as int] == st);
            assert(b.teams[s as int].start_info == si);
        }
        let fx: u64 = st.x as u64 + si.offset() as u64;
        let fits = match si {
            StartInfo::Bottom { .. } | StartInfo::Top { .. } => fx < self.width as u64 && st.y
                < self.height,
            StartInfo::Left { .. } | StartInfo::Right { .. } => fx < self.height as u64 && st.y
                < self.width,
        };
        if !fits {
            return Err(
                ChessError::TileActionError {
                    why: reason("A piece's starting coordinate is off the board."),
                },
            );
        }
        let f = Coord::new(fx as u32, st.y);
        let a = self.rel_coord_to_absolute(f, si);
        let n = self.tiles.len();
        proof {
            lemma_index_in_range(b, a.x as int, a.y as int);
        }
        let idx: usize = (a.y as usize) * (self.width as usize) + (a.x as usize);
        if self.tiles[idx].piece.is_some() {
            return Err(
                ChessError::TileActionError {
                    why: reason("A piece's starting tile is already occupied."),
                },
            );
        }
        let team = copy_team(&self.piece_sets[s].pieces[i].team);
        self.tiles[idx].replace_piece(h, team);
        self.piece_sets[s].pieces[i].set_rel_pos(f);
        proof {
            let r = b.place(s as int, i as int)->Some_0;
            assert(self@.tiles =~= r.tiles);
            assert(self@.pieces =~= r.pieces);
            assert(self@.teams =~= r.teams);
            assert(self@.starts =~= r.starts);
        }
        Ok(())
    }

    /// Installs every live piece of every set on its starting tile, set by
    /// set in roster order, and records each piece's frame position. Fails
    /// at the first piece whose starting tile is off the board or already
    /// occupied; calling it a second time therefore fails.
    pub fn init(&mut self) -> (r: Result<(), ChessError>)
        requires
            old(self).wf(),
        ensures
            final(self).wf(),
            final(self)@.same_shape(old(self)@),
            r is Ok <==> old(self)@.initialized() is Some,
            r is Ok ==> final(self)@ == old(self)@.initialized()->Some_0,
            r is Err ==> r->Err_0.is_tile_action(),
    {
        let ghost target = old(self)@.initialized();
        let n = self.piece_sets.len();
        let mut s: usize = 0;
        while s < n
            invariant
                self.wf(),
                self@.same_shape(old(self)@),
                target == old(self)@.initialized(),
                n == self@.pieces.len(),
                s <= n,
                self@.place_sets(s as int, n as int) == target,
            decreases n - s,
        {
            let m = self.piece_sets[s].pieces.len();
            let mut i: usize = 0;
            while i < m
                invariant
                    self.wf(),
                    self@.same_shape(old(self)@),
                    target == old(self)@.initialized(),
                    n == self@.pieces.len(),
                    s < n,
                    m == self@.pieces[s as int].len(),
                    i <= m,
                    match self@.place_set(s as int, i as int, m as int) {
                        Some(b) => b.place_sets(s as int + 1, n as int),
                        None => None,
                    } == target,
                decreases m - i,
            {
                let ghost before = self@;
                let res = self.place_piece(s, i);
                match res {
                    Ok(()) => {
                        proof {
                            lemma_place_wf(before, s as int, i as int);
                        }
                    },
                    Err(e) => {
                        assert(before.place(s as int, i as int) is None);
                        assert(before.place_set(s as int, i as int, m as int) is None);
                        return Err(e);
                    },
                }
                i = i + 1;
            }
            s = s + 1;
        }
        Ok(())
    }

    /// Sets whether a piece is alive.
    pub(crate) fn set_alive(&mut self, p: Piece, alive: bool)
        requires
            old(self)@.valid_piece(p),
        ensures
            final(self)@ == old(self)@.with_piece(p, PieceRef { alive, ..old(self)@.piece_at(p) }),
            final(self).piece_sets@.len() == old(self).piece_sets@.len(),
    {
        let ghost b = self@;
        self.piece_sets[p.set].pieces[p.index].alive = alive;
        proof {
            let r = b.with_piece(p, PieceRef { alive, ..b.piece_at(p) });
            assert(self@.pieces =~= r.pieces);
            assert(self@.teams =~= r.teams);
            assert(self@.starts =~= r.starts);
        }
    }

    /// Sets a piece's frame position and move counter.
    pub(crate) fn set_motion(&mut self, p: Piece, rel_pos: Option<Coord>, move_num: u32)
        requires
            old(self)@.valid_piece(p),
        ensures
            final(self)@ == old(self)@.with_piece(
                p,
                PieceRef { rel_pos, move_num, ..old(self)@.piece_at(p) },
            ),
            final(self).piece_sets@.len() == old(self).piece_sets@.len(),
    {
        let ghost b = self@;
        self.piece_sets[p.set].pieces[p.index].set_motion(rel_pos, move_num);
        proof {
            let r = b.with_piece(p, PieceRef { rel_pos, move_num, ..b.piece_at(p) });
            assert(self@.pieces =~= r.pieces);
            assert(self@.teams =~= r.teams);
            assert(self@.starts =~= r.starts);
        }
    }

    /// Replaces the contents of a tile.
    pub(crate) fn set_tile(&mut self, t: Tile, v: TileRef)
        requires
            old(self)@.valid_tile(t),
        ensures
            final(self)@ == old(self)@.with_tile(t.index as int, v),
            final(self).piece_sets == old(self).piece_sets,
    {
        self.tiles.set(t.index, v);
    }

    /// A text picture of the board, top row first (see `rows_text`).
    pub fn state_string(&self) -> (r: String)
        requires
            self.wf(),
        ensures
            r@ == rows_text(self@, self.height as int),
    {
        let mut text = String::new();
        let mut k: u32 = 0;
        while k < self.height
            invariant
                self.wf(),
                k <= self.height,
                text@ == rows_text(self@, k as int),
            decreases self.height - k,
        {
            let y = self.height - 1 - k;
            let ghost before = text@;
            let mut x: u32 = 0;
            while x < self.width
                invariant
                    self.wf(),
                    k < self.height,
                    y == self.height - 1 - k,
                    x <= self.width,
                    text@ == before + row_text(self@, y as int, x as int),
                decreases self.width - x,
            {
                let t = self.tile_at(x, y).unwrap();
                proof {
                    lemma_index_in_range(self@, x as int, y as int);
                    reveal_strlit(" ");
                }
                let tile = self.tile(t);
                match tile.piece {
                    Some(p) => {
                        proof {
                            assert(self@.tile_wf(self@.tiles[t.index as int]));
                        }
                        let name = self.piece(p).name.as_str();
                        if name.unicode_len() > 0 {
                            text.append(name.substring_char(0, 1));
                        } else {
                            text.append(" ");
                        }
                    },
                    None => {
                        text.append(" ");
                    },
                }
                text.append(" ");
                x = x + 1;
                assert(text@ =~= before + row_text(self@, y as int, x as int));
            }
            proof {
                reveal_strlit("\n");
            }
            text.append("\n");
            k = k + 1;
            assert(text@ =~= rows_text(self@, k as int));
        }
        text
    }

    /// Whether no tile holds the piece.
    pub fn is_off_board(&self, p: Piece) -> (r: bool)
        ensures
            r == self@.off_board(p),
    {
        let mut k: usize = 0;
        while k < self.tiles.len()
            invariant
                k <= self@.tiles.len(),
                forall|j: int| 0 <= j < k ==> #[trigger] self@.tiles[j].piece != Some(p),
            decreases self@.tiles.len() - k,
        {
            if self.tiles[k].piece == Some(p) {
                return false;
            }
            k = k + 1;
        }
        true
    }

    /// The tile at `(x, y)`, counted from the bottom-left corner; none outside
    /// the board.
    pub fn tile_at(&self, x: u32, y: u32) -> (r: Option<Tile>)
        requires
            self.wf(),
        ensures
            r is Some <==> self@.in_bounds(x as int, y as int),
            r is Some ==> r->Some_0.index == self@.tile_index(x as int, y as int),
    {
        if x >= self.width || y >= self.height {
            return None;
        }
        let n = self.tiles.len();
        proof {
            lemma_index_in_range(self@, x as int, y as int);
        }
        Some(Tile { index: (y as usize) * (self.width as usize) + (x as usize) })
    }

    /// The contents of a tile.
    pub fn tile(&self, t: Tile) -> (r: &TileRef)
        requires
            self@.valid_tile(t),
        ensures
            *r == self@.tiles[t.index as int],
    {
        &self.tiles[t.index]
    }

    /// The state of a piece.
    pub fn piece(&self, p: Piece) -> (r: &PieceRef)
        requires
            self@.valid_piece(p),
        ensures
            *r == self@.piece_at(p),
    {
        &self.piece_sets[p.set].pieces[p.index]
    }

    /// Turns a coordinate of the frame of a team starting at `start_info`
    /// into a board coordinate.
    pub fn rel_coord_to_absolute(&self, original: Coord, start_info: StartInfo) -> (r: Coord)
        requires
            in_frame(self.width as int, self.height as int, start_info, original.x as int, original.y as int),
        ensures
            (r.x as int, r.y as int) == frame_to_abs(self.width as int, self.height as int, start_info, original.x as int, original.y as int),
            self@.in_bounds(r.x as int, r.y as int),
    {
        let x = original.x;
        let y = original.y;
        match start_info {
            StartInfo::Bottom { .. } => original,
            StartInfo::Left { .. } => Coord::new(y, self.height - 1 - x),
            StartInfo::Right { .. } => Coord::new(self.width - 1 - y, x),
            StartInfo::Top { .. } => Coord::new(self.width - 1 - x, self.height - 1 - y),
        }
    }

    pub fn width(&self) -> (r: u32)
        ensures
            r == self.width,
    {
        self.width
    }

    pub fn height(&self) -> (r: u32)
        ensures
            r == self.height,
    {
        self.height
    }

    pub fn piece_sets(&self) -> (r: &Vec<PieceSet>)
        ensures
            r == &self.piece_sets,
    {
        &self.piece_sets
    }

    /// The handles of every piece of every set, in order.
    pub fn pieces(&self) -> (r: Vec<Piece>)
        ensures
            r@ == self@.handles(self@.pieces.len() as int),
    {
        let mut r: Vec<Piece> = Vec::new();
        let mut s: usize = 0;
        while s < self.piece_sets.len()
            invariant
                s <= self.piece_sets@.len(),
                r@ == self@.handles(s as int),
            decreases self.piece_sets@.len() - s,
        {
            let n = self.piece_sets[s].pieces.len();
            let mut i: usize = 0;
            while i < n
                invariant
                    s < self.piece_sets@.len(),
                    n == self@.pieces[s as int].len(),
                    i <= n,
                    r@ == self@.handles(s as int) + Seq::new(
                        i as nat,
                        |j: int| Piece { set: s, index: j as usize },
                    ),
                decreases n - i,
            {
                r.push(Piece { set: s, index: i });
                i = i + 1;
                assert(r@ =~= self@.handles(s as int) + Seq::new(
                    i as nat,
                    |j: int| Piece { set: s, index: j as usize },
                ));
            }
            s = s + 1;
        }
        r
    }
}

} // verus!
