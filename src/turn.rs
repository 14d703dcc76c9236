use vstd::prelude::*;

use minesweeper_multiplayer::Multiplayer;

use crate::messages::{SerializableBoard, SerializableCell, SerializablePoint};

verus! {

/// How large and how mined a board is.
#[derive(Clone, Copy, Debug, PartialEq, Eq, Structural)]
pub enum Difficulty {
    Easy,
    Medium,
    Hard,
}

/// The difficulty listed under `name`.
pub open spec fn difficulty_named(name: Seq<char>) -> Option<Difficulty> {
    if name == "Easy"@ {
        Some(Difficulty::Easy)
    } else if name == "Medium"@ {
        Some(Difficulty::Medium)
    } else if name == "Hard"@ {
        Some(Difficulty::Hard)
    } else {
        None
    }
}

impl Difficulty {
    pub open spec fn spec_name(self) -> Seq<char> {
        match self {
            Difficulty::Easy => "Easy"@,
            Difficulty::Medium => "Medium"@,
            Difficulty::Hard => "Hard"@,
        }
    }

    /// Columns of a board of this difficulty.
    pub open spec fn width(self) -> nat {
        match self {
            Difficulty::Easy => 10,
            Difficulty::Medium => 16,
            Difficulty::Hard => 30,
        }
    }

    /// Cells in each column of a board of this difficulty.
    pub open spec fn height(self) -> nat {
        match self {
            Difficulty::Easy => 10,
            Difficulty::Medium => 16,
            Difficulty::Hard => 16,
        }
    }

    /// The name under which the difficulty is listed.
    pub fn name(&self) -> (r: String)
        ensures
            r@ == self.spec_name(),
    {
        match self {
            Difficulty::Easy => "Easy".to_owned(),
            Difficulty::Medium => "Medium".to_owned(),
            Difficulty::Hard => "Hard".to_owned(),
        }
    }

    /// The difficulty listed under `name`, if any.
    pub fn from_name(name: &String) -> (r: Option<Difficulty>)
        ensures
            r == difficulty_named(name@),
    {
        proof {
            reveal_strlit("Easy");
            reveal_strlit("Medium");
            reveal_strlit("Hard");
        }
        if *name == "Easy".to_owned() {
            Some(Difficulty::Easy)
        } else if *name == "Medium".to_owned() {
            Some(Difficulty::Medium)
        } else if *name == "Hard".to_owned() {
            Some(Difficulty::Hard)
        } else {
            None
        }
    }
}

// ---------------------------------------------------------------------------
// The turn authority: minesweeper_multiplayer's two-player game
// ---------------------------------------------------------------------------

#[verifier::external_type_specification]
#[verifier::external_body]
pub struct ExMultiplayer(Multiplayer);

/// A game's players in seat order: each one's id, and whether it is that player's turn.
pub uninterp spec fn seats(m: Multiplayer) -> Seq<(Seq<char>, bool)>;

/// The id of the first player whose turn it is.
pub open spec fn first_active(seats: Seq<(Seq<char>, bool)>) -> Option<Seq<char>>
    decreases seats.len(),
{
    if seats.len() == 0 {
        None
    } else if seats[0].1 {
        Some(seats[0].0)
    } else {
        first_active(seats.drop_first())
    }
}

/// The same players; every turn flag flipped when `passed`, else the same turns.
pub open spec fn turn_moved(old: Seq<(Seq<char>, bool)>, new: Seq<(Seq<char>, bool)>, passed: bool) -> bool {
    &&& new.len() == old.len()
    &&& forall|i: int|
        0 <= i < old.len() ==> (#[trigger] new[i]).0 == old[i].0 && new[i].1 == (old[i].1 != passed)
}

/// The winner a game has decided on, by player id; none while it goes on.
pub uninterp spec fn winner_of(m: Multiplayer) -> Option<Seq<char>>;

/// The cells of a game's board: `board_cells(m)[x][y]` is the cell at column `x`, row `y`.
pub uninterp spec fn board_cells(m: Multiplayer) -> Seq<Seq<SerializableCell>>;

/// Mines in a column that are neither cleared nor flagged.
pub open spec fn hidden_in_column(column: Seq<SerializableCell>) -> nat
    decreases column.len(),
{
    if column.len() == 0 {
        0
    } else {
        let c = column.last();
        hidden_in_column(column.drop_last()) + if c.number < 0 && !c.cleared && !c.flagged {
            1nat
        } else {
            0nat
        }
    }
}

/// Mines on a board that are neither cleared nor flagged.
pub open spec fn hidden_mines(cells: Seq<Seq<SerializableCell>>) -> nat
    decreases cells.len(),
{
    if cells.len() == 0 {
        0
    } else {
        hidden_mines(cells.drop_last()) + hidden_in_column(cells.last())
    }
}

/// A board of `width` columns of `height` cells each.
pub open spec fn has_shape(cells: Seq<Seq<SerializableCell>>, width: nat, height: nat) -> bool {
    &&& cells.len() == width
    &&& forall|x: int| 0 <= x < cells.len() ==> (#[trigger] cells[x]).len() == height
}

proof fn lemma_hidden_in_column_bound(column: Seq<SerializableCell>)
    ensures
        hidden_in_column(column) <= column.len(),
    decreases column.len(),
{
    if column.len() > 0 {
        lemma_hidden_in_column_bound(column.drop_last());
    }
}

/// A board of `width` columns of `height` cells hides at most `width * height` mines.
pub proof fn lemma_hidden_mines_bound(cells: Seq<Seq<SerializableCell>>, width: nat, height: nat)
    requires
        has_shape(cells, width, height),
    ensures
        hidden_mines(cells) <= width * height,
    decreases cells.len(),
{
    if cells.len() > 0 {
        let rest = cells.drop_last();
        assert forall|x: int| 0 <= x < rest.len() implies (#[trigger] rest[x]).len() == height by {
            assert(rest[x] == cells[x]);
        }
        lemma_hidden_mines_bound(rest, (width - 1) as nat, height);
        lemma_hidden_in_column_bound(cells.last());
        assert((width - 1) as nat * height + height == width * height) by (nonlinear_arith)
            requires
                width >= 1,
        ;
    }
}

/// Every cell records its own place on the board.
pub open spec fn cells_in_place(cells: Seq<Seq<SerializableCell>>) -> bool {
    forall|x: int, y: int|
        0 <= x < cells.len() && 0 <= y < cells[x].len() ==> (#[trigger] cells[x][y]).coordinates
            == (SerializablePoint { x: x as usize, y: y as usize })
}

/// `new` is `old` with some more cells cleared, and nothing else changed.
pub open spec fn only_cleared(old: Seq<Seq<SerializableCell>>, new: Seq<Seq<SerializableCell>>) -> bool {
    &&& new.len() == old.len()
    &&& forall|x: int| 0 <= x < old.len() ==> (#[trigger] new[x]).len() == old[x].len()
    &&& forall|x: int, y: int|
        0 <= x < old.len() && 0 <= y < old[x].len() ==> {
            &&& (#[trigger] new[x][y]) == SerializableCell { cleared: new[x][y].cleared, ..old[x][y] }
            &&& old[x][y].cleared ==> new[x][y].cleared
        }
}

proof fn lemma_clearing_column(old: Seq<SerializableCell>, new: Seq<SerializableCell>)
    requires
        new.len() == old.len(),
        forall|y: int|
            0 <= y < old.len() ==> {
                &&& (#[trigger] new[y]) == SerializableCell { cleared: new[y].cleared, ..old[y] }
                &&& old[y].cleared ==> new[y].cleared
            },
    ensures
        hidden_in_column(new) <= hidden_in_column(old),
    decreases old.len(),
{
    if old.len() > 0 {
        let (o, n) = (old.drop_last(), new.drop_last());
        assert forall|y: int| 0 <= y < o.len() implies {
            &&& (#[trigger] n[y]) == SerializableCell { cleared: n[y].cleared, ..o[y] }
            &&& o[y].cleared ==> n[y].cleared
        } by {
            assert(n[y] == new[y] && o[y] == old[y]);
        }
        lemma_clearing_column(o, n);
        assert(new.last() == new[new.len() - 1]);
    }
}

/// Clearing cells never raises the count of hidden mines.
pub proof fn lemma_clearing_never_adds_hidden_mines(old: Seq<Seq<SerializableCell>>, new: Seq<Seq<SerializableCell>>)
    requires
        only_cleared(old, new),
    ensures
        hidden_mines(new) <= hidden_mines(old),
    decreases old.len(),
{
    if old.len() > 0 {
        let (o, n) = (old.drop_last(), new.drop_last());
        assert forall|x: int| 0 <= x < o.len() implies (#[trigger] n[x]).len() == o[x].len() by {
            assert(n[x] == new[x] && o[x] == old[x]);
        }
        assert forall|x: int, y: int| 0 <= x < o.len() && 0 <= y < o[x].len() implies {
            &&& (#[trigger] n[x][y]) == SerializableCell { cleared: n[x][y].cleared, ..o[x][y] }
            &&& o[x][y].cleared ==> n[x][y].cleared
        } by {
            assert(n[x] == new[x] && o[x] == old[x]);
        }
        lemma_clearing_never_adds_hidden_mines(o, n);
        let last = old.len() - 1;
        assert forall|y: int| 0 <= y < old[last].len() implies {
            &&& (#[trigger] new[last][y]) == SerializableCell { cleared: new[last][y].cleared, ..old[last][y] }
            &&& old[last][y].cleared ==> new[last][y].cleared
        } by {}
        lemma_clearing_column(old[last], new[last]);
    }
}

/// `at` names a cell of the board.
pub open spec fn on_board(cells: Seq<Seq<SerializableCell>>, at: SerializablePoint) -> bool {
    at.x < cells.len() && at.y < cells[at.x as int].len()
}

/// Selecting `at` passes the turn: it names no cell, or a cell that is neither a mine nor
/// cleared.
pub open spec fn passes_turn(cells: Seq<Seq<SerializableCell>>, at: SerializablePoint) -> bool {
    !on_board(cells, at) || (cells[at.x as int][at.y as int].number >= 0
        && !cells[at.x as int][at.y as int].cleared)
}

/// Cell `(u, v)` touches cell `(x, y)`, diagonals included.
pub open spec fn adjacent(x: int, y: int, u: int, v: int) -> bool {
    -1 <= u - x <= 1 && -1 <= v - y <= 1 && !(u == x && v == y)
}

/// No cell is cleared.
pub open spec fn none_cleared(cells: Seq<Seq<SerializableCell>>) -> bool {
    forall|x: int, y: int| 0 <= x < cells.len() && 0 <= y < cells[x].len() ==> !(#[trigger] cells[x][y]).cleared
}

/// Every cleared cell with no mine around has all its neighbours cleared.
pub open spec fn zeros_open(cells: Seq<Seq<SerializableCell>>) -> bool {
    forall|x: int, y: int, u: int, v: int|
        0 <= x < cells.len() && 0 <= y < cells[x].len() && 0 <= u < cells.len() && 0 <= v
            < cells[u].len() && (#[trigger] cells[x][y]).cleared && cells[x][y].number == 0
            && adjacent(x, y, u, v) ==> (#[trigger] cells[u][v]).cleared
}

/// Relies on `Multiplayer::new`: two players named after `host_name` and `guest_name`, the
/// first of them active, no winner yet (neither has found a mine), and a board of the
/// difficulty's shape (the crate's `GameConfiguration`) with no cell cleared. The ids of the two players are then set to `host_id` and
/// `guest_id`, as the pub field allows.
#[verifier::external_body]
pub(crate) fn start_turns(
    host_id: &String,
    host_name: &String,
    guest_id: &String,
    guest_name: &String,
    difficulty: Difficulty,
) -> (r: Multiplayer)
    ensures
        seats(r) == seq![(host_id@, true), (guest_id@, false)],
        has_shape(board_cells(r), difficulty.width(), difficulty.height()),
        cells_in_place(board_cells(r)),
        none_cleared(board_cells(r)),
        winner_of(r) is None,
{
    let level = match difficulty {
        Difficulty::Easy => minesweeper_multiplayer::Difficulty::Easy,
        Difficulty::Medium => minesweeper_multiplayer::Difficulty::Medium,
        Difficulty::Hard => minesweeper_multiplayer::Difficulty::Hard,
    };
    let mut m = Multiplayer::new([host_name.as_str(), guest_name.as_str()], level);
    m.players[0].id = host_id.clone();
    m.players[1].id = guest_id.clone();
    m
}

/// Relies on `Multiplayer::current_player`: the first player whose turn it is; it
/// panics when there is none.
#[verifier::external_body]
pub(crate) fn current_player_id(m: &Multiplayer) -> (r: String)
    requires
        first_active(seats(*m)) is Some,
    ensures
        first_active(seats(*m)) == Some(r@),
{
    m.current_player().id.clone()
}

/// Relies on `Multiplayer::winner`: no one, or one of the game's two players; it reads
/// the first two players, so it panics on a game with fewer.
#[verifier::external_body]
pub(crate) fn winner_id(m: &Multiplayer) -> (r: Option<String>)
    requires
        seats(*m).len() == 2,
    ensures
        match r {
            Some(w) => winner_of(*m) == Some(w@),
            None => winner_of(*m) is None,
        },
        r matches Some(w) ==> w@ == seats(*m)[0].0 || w@ == seats(*m)[1].0,
{
    m.winner().map(|p| p.id.clone())
}

/// Relies on `Multiplayer::player_selected`. `Game::selected_at` reads the cell at `at`
/// (a default cell, neither mine nor cleared, when `at` is off the board) and has
/// `Game::open_empty_cells` clear it and, from each cleared cell with no mine around, its
/// neighbours; each cell is written back at the place it records with `cleared` set and its
/// other fields kept. On a mine not yet cleared the player whose turn it is is credited and
/// keeps the turn; on a cell not yet cleared otherwise every turn flag flips; on a cleared
/// cell nothing else happens. The players' ids stay.
#[verifier::external_body]
pub(crate) fn select_cell(m: &mut Multiplayer, at: SerializablePoint)
    requires
        first_active(seats(*old(m))) is Some,
        cells_in_place(board_cells(*old(m))),
        zeros_open(board_cells(*old(m))),
    ensures
        turn_moved(seats(*old(m)), seats(*final(m)), passes_turn(board_cells(*old(m)), at)),
        only_cleared(board_cells(*old(m)), board_cells(*final(m))),
        zeros_open(board_cells(*final(m))),
        on_board(board_cells(*old(m)), at) ==> board_cells(*final(m))[at.x as int][at.y as int].cleared,
        !on_board(board_cells(*old(m)), at) || board_cells(*old(m))[at.x as int][at.y as int].cleared
            ==> board_cells(*final(m)) == board_cells(*old(m)),
{
    m.player_selected(minesweeper_multiplayer::Point { x: at.x, y: at.y });
}

/// Relies on `Game::remaining_mines`: it counts the mines neither cleared nor flagged.
#[verifier::external_body]
pub(crate) fn remaining_mines(m: &Multiplayer) -> (r: u32)
    requires
        hidden_mines(board_cells(*m)) <= u32::MAX,
    ensures
        r as nat == hidden_mines(board_cells(*m)),
{
    m.game.remaining_mines()
}

/// Relies on `Board::get_width`: the number of columns.
#[verifier::external_body]
pub(crate) fn board_width(m: &Multiplayer) -> (r: usize)
    ensures
        r == board_cells(*m).len(),
{
    m.get_board().get_width()
}

/// Relies on `Board::get_height`: the length of the first column, 0 on an empty board.
#[verifier::external_body]
pub(crate) fn board_height(m: &Multiplayer) -> (r: usize)
    ensures
        board_cells(*m).len() > 0 ==> r == board_cells(*m)[0].len(),
        board_cells(*m).len() == 0 ==> r == 0,
{
    m.get_board().get_height()
}

/// Relies on `Board::cell_at`: the cell stored at column `x`, row `y`.
#[verifier::external_body]
pub(crate) fn cell_at(m: &Multiplayer, x: usize, y: usize) -> (r: SerializableCell)
    requires
        x < board_cells(*m).len(),
        y < board_cells(*m)[x as int].len(),
    ensures
        r == board_cells(*m)[x as int][y as int],
{
    let c = *m.get_board().cell_at(minesweeper_multiplayer::Point { x, y }).unwrap();
    let coordinates = SerializablePoint { x: c.coordinates.x, y: c.coordinates.y };
    SerializableCell { number: c.number, cleared: c.cleared, flagged: c.flagged, coordinates }
}

/// A copy of a rectangular board as plain cells.
pub(crate) fn snapshot(m: &Multiplayer, width: Ghost<nat>, height: Ghost<nat>) -> (r: SerializableBoard)
    requires
        has_shape(board_cells(*m), width@, height@),
    ensures
        r@ == board_cells(*m),
{
    let ghost cells = board_cells(*m);
    let w = board_width(m);
    let h = board_height(m);
    let mut data: Vec<Vec<SerializableCell>> = Vec::new();
    let mut x: usize = 0;
    while x < w
        invariant
            0 <= x <= w,
            w == cells.len(),
            cells == board_cells(*m),
            has_shape(cells, width@, height@),
            w > 0 ==> h == height@,
            data.len() == x,
            forall|i: int| 0 <= i < x ==> #[trigger] data[i]@ == cells[i],
        decreases w - x,
    {
        let mut column: Vec<SerializableCell> = Vec::new();
        let mut y: usize = 0;
        while y < h
            invariant
                0 <= x < w,
                0 <= y <= h,
                w == cells.len(),
                cells == board_cells(*m),
                has_shape(cells, width@, height@),
                h == height@,
                column.len() == y,
                forall|j: int| 0 <= j < y ==> #[trigger] column[j] == cells[x as int][j],
            decreases h - y,
        {
            column.push(cell_at(m, x, y));
            y = y + 1;
        }
        assert(column@ =~= cells[x as int]);
        data.push(column);
        x = x + 1;
    }
    let r = SerializableBoard { data };
    assert(r@ =~= cells);
    r
}

} // verus!
