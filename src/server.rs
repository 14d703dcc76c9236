use vstd::prelude::*;

use crate::codec::{inbound_of, Inbound, InboundView, ServerMessage, ServerMessageView};
use crate::game::{rename_in, Game, GameView, Player, PlayerView};
use crate::json::{Json, JsonValue};
use crate::messages::{
    CellSelectedMessage, CellSelectedView, GameDefinition, GameDefinitionView, GameStartMessage,
    OpenGamesMessage, SerializableCell, SerializablePoint, SimpleMessage,
};
use crate::turn::{
    board_cells, difficulty_named, hidden_mines, lemma_clearing_never_adds_hidden_mines,
    on_board, only_cleared, passes_turn, seats, turn_moved, winner_of, Difficulty,
};

verus! {

// ---------------------------------------------------------------------------
// The model of the session registry
// ---------------------------------------------------------------------------

/// Every game is well formed, game ids are distinct, and a connection plays in one
/// game at most.
pub open spec fn games_wf(gs: Seq<GameView>) -> bool {
    &&& forall|i: int| 0 <= i < gs.len() ==> (#[trigger] gs[i]).wf()
    &&& forall|i: int, j: int|
        0 <= i < gs.len() && 0 <= j < gs.len() && i != j ==> (#[trigger] gs[i]).id != (#[trigger] gs[j]).id
    &&& forall|i: int, j: int, c: u64|
        0 <= i < gs.len() && 0 <= j < gs.len() && i != j && (#[trigger] gs[i].has_address(c))
            ==> !(#[trigger] gs[j].has_address(c))
}

/// `conn` plays in one of the games.
pub open spec fn plays(gs: Seq<GameView>, conn: u64) -> bool {
    exists|i: int| 0 <= i < gs.len() && (#[trigger] gs[i].has_address(conn))
}

pub open spec fn id_in_use(gs: Seq<GameView>, id: Seq<char>) -> bool {
    exists|i: int| 0 <= i < gs.len() && (#[trigger] gs[i]).id == id
}

pub open spec fn has_pending(gs: Seq<GameView>) -> bool {
    exists|i: int| 0 <= i < gs.len() && (#[trigger] gs[i]).is_pending()
}

/// Game `i` is the first that waits for a second player.
pub open spec fn is_first_pending(gs: Seq<GameView>, i: int) -> bool {
    &&& 0 <= i < gs.len()
    &&& gs[i].is_pending()
    &&& forall|j: int| 0 <= j < i ==> !(#[trigger] gs[j]).is_pending()
}

/// A pending game hosted at `conn` by a player named `name`, under which it is listed.
pub open spec fn new_game(
    id: Seq<char>,
    name: Seq<char>,
    difficulty: Difficulty,
    player_id: Seq<char>,
    conn: u64,
) -> GameView {
    GameView {
        id,
        difficulty,
        host: PlayerView { id: player_id, name, game_id: id, address: conn },
        client: None,
        turns: None,
    }
}

/// `after` is `before` with a second player seated and a fresh turn authority, with which
/// the host moves first.
pub open spec fn joined(
    before: GameView,
    after: GameView,
    player_id: Seq<char>,
    name: Seq<char>,
    conn: u64,
) -> bool {
    &&& after.turns is Some
    &&& after.host_turn()
    &&& after == GameView {
        client: Some(PlayerView { id: player_id, name, game_id: before.id, address: conn }),
        turns: after.turns,
        ..before
    }
}

/// The listing entry of a game: its id, its host's display name and its difficulty.
pub open spec fn definition_of_game(g: GameView) -> GameDefinitionView {
    GameDefinitionView { name: g.host.name, id: g.id, difficulty: g.difficulty.spec_name() }
}

/// The listing of the pending games, in the order of the registry.
pub open spec fn open_games(gs: Seq<GameView>) -> Seq<GameDefinitionView>
    decreases gs.len(),
{
    if gs.len() == 0 {
        Seq::empty()
    } else {
        let rest = open_games(gs.drop_last());
        if gs.last().is_pending() {
            rest.push(definition_of_game(gs.last()))
        } else {
            rest
        }
    }
}

// ---------------------------------------------------------------------------
// What the registry keeps through a change
// ---------------------------------------------------------------------------

proof fn lemma_wf_update(old: Seq<GameView>, new: Seq<GameView>, i: int)
    requires
        games_wf(old),
        0 <= i < old.len(),
        new.len() == old.len(),
        forall|j: int| 0 <= j < old.len() && j != i ==> new[j] == old[j],
        new[i].wf(),
        new[i].id == old[i].id,
        forall|c: u64|
            #[trigger] new[i].has_address(c) ==> old[i].has_address(c) || !plays(old, c),
    ensures
        games_wf(new),
{
    assert forall|a: int, b: int, c: u64|
        0 <= a < new.len() && 0 <= b < new.len() && a != b && (#[trigger] new[a].has_address(c))
            implies !(#[trigger] new[b].has_address(c)) by {
        if a == i {
            if !old[i].has_address(c) {
                assert(!old[b].has_address(c));
            }
        } else if b == i {
            assert(old[a].has_address(c));
        }
    }
}

proof fn lemma_wf_push(old: Seq<GameView>, g: GameView)
    requires
        games_wf(old),
        g.wf(),
        !id_in_use(old, g.id),
        forall|c: u64| #[trigger] g.has_address(c) ==> !plays(old, c),
    ensures
        games_wf(old.push(g)),
{
    let new = old.push(g);
    assert forall|a: int| 0 <= a < old.len() implies #[trigger] new[a] == old[a] by {}
    assert forall|a: int, b: int, c: u64|
        0 <= a < new.len() && 0 <= b < new.len() && a != b && (#[trigger] new[a].has_address(c))
            implies !(#[trigger] new[b].has_address(c)) by {
        if a == old.len() {
            assert(!old[b].has_address(c));
        } else if b == old.len() {
            assert(old[a].has_address(c));
        }
    }
    assert forall|a: int, b: int|
        0 <= a < new.len() && 0 <= b < new.len() && a != b implies (#[trigger] new[a]).id != (
        #[trigger] new[b]).id by {
        if a == old.len() {
            assert(old[b].id != g.id);
        } else if b == old.len() {
            assert(old[a].id != g.id);
        }
    }
}

proof fn lemma_wf_remove(old: Seq<GameView>, i: int)
    requires
        games_wf(old),
        0 <= i < old.len(),
    ensures
        games_wf(old.remove(i)),
{
    let new = old.remove(i);
    assert forall|a: int| 0 <= a < new.len() implies #[trigger] new[a] == old[if a < i { a } else { a + 1 }] by {}
    assert forall|a: int, b: int, c: u64|
        0 <= a < new.len() && 0 <= b < new.len() && a != b && (#[trigger] new[a].has_address(c))
            implies !(#[trigger] new[b].has_address(c)) by {
        let oa = if a < i { a } else { a + 1 };
        let ob = if b < i { b } else { b + 1 };
        assert(old[oa].has_address(c));
        assert(!old[ob].has_address(c));
    }
    assert forall|a: int, b: int|
        0 <= a < new.len() && 0 <= b < new.len() && a != b implies (#[trigger] new[a]).id != (
        #[trigger] new[b]).id by {
        let oa = if a < i { a } else { a + 1 };
        let ob = if b < i { b } else { b + 1 };
        assert(old[oa].id != old[ob].id);
    }
}

// ---------------------------------------------------------------------------
// Errors and fresh ids
// ---------------------------------------------------------------------------

/// Why a request on the registry was refused.
#[derive(Clone, Copy, Debug, PartialEq, Eq, Structural)]
pub enum SessionError {
    /// No game has the requested id.
    SessionNotFound,
    /// The requested game already has a second player.
    SessionFull,
    /// The connection plays in no game.
    PlayerNotFound,
    /// The game of the connection waits for a second player.
    NotStarted,
    /// It is the other player's turn.
    OutOfTurn,
    /// The connection already plays in a game.
    AlreadyInSession,
    /// A freshly drawn id is already taken.
    IdInUse,
}

/// Ids drawn for a request: one for a new player, one for a new game.
pub struct FreshIds {
    pub player: String,
    pub session: String,
}

/// Relies on uuid's `Uuid::new_v4`: a random id in its text form; nothing is promised of it.
#[verifier::external_body]
fn new_uuid() -> String {
    uuid::Uuid::new_v4().to_string()
}

impl FreshIds {
    pub fn new(player: String, session: String) -> (r: Self)
        ensures
            r.player@ == player@,
            r.session@ == session@,
    {
        FreshIds { player, session }
    }

    /// Two random ids.
    pub fn generate() -> (r: Self) {
        FreshIds { player: new_uuid(), session: new_uuid() }
    }
}

// ---------------------------------------------------------------------------
// The registry
// ---------------------------------------------------------------------------

/// The games of a server: pending ones and started ones, in order of creation.
pub struct Server {
    games: Vec<Game>,
}

impl View for Server {
    type V = Seq<GameView>;

    closed spec fn view(&self) -> Seq<GameView> {
        self.games@.map_values(|g: Game| g@)
    }
}

impl Server {
    pub open spec fn wf(&self) -> bool {
        games_wf(self@)
    }

    /// A server with no games.
    pub fn new() -> (r: Self)
        ensures
            r@ == Seq::<GameView>::empty(),
            r.wf(),
    {
        let r = Server { games: Vec::new() };
        assert(r@ =~= Seq::<GameView>::empty());
        r
    }

    /// The index of the game that `conn` plays in.
    fn find_game_of(&self, conn: u64) -> (r: Option<usize>)
        ensures
            match r {
                Some(i) => i < self@.len() && self@[i as int].has_address(conn),
                None => !plays(self@, conn),
            },
    {
        let mut i: usize = 0;
        while i < self.games.len()
            invariant
                0 <= i <= self.games.len(),
                self@.len() == self.games.len(),
                forall|j: int| 0 <= j < self.games.len() ==> #[trigger] self@[j] == self.games[j]@,
                forall|j: int| 0 <= j < i ==> !(#[trigger] self@[j].has_address(conn)),
            decreases self.games.len() - i,
        {
            let game = &self.games[i];
            let host = game.get_host().get_address();
            if host == conn {
                return Some(i);
            }
            match game.get_client() {
                Some(c) => {
                    if c.get_address() == conn {
                        return Some(i);
                    }
                },
                None => {},
            }
            i = i + 1;
        }
        None
    }

    /// The index of the first game that waits for a second player.
    fn find_first_pending(&self) -> (r: Option<usize>)
        ensures
            match r {
                Some(i) => is_first_pending(self@, i as int),
                None => !has_pending(self@),
            },
    {
        let mut i: usize = 0;
        while i < self.games.len()
            invariant
                0 <= i <= self.games.len(),
                self@.len() == self.games.len(),
                forall|j: int| 0 <= j < self.games.len() ==> #[trigger] self@[j] == self.games[j]@,
                forall|j: int| 0 <= j < i ==> !(#[trigger] self@[j]).is_pending(),
            decreases self.games.len() - i,
        {
            if !self.games[i].has_client() {
                return Some(i);
            }
            i = i + 1;
        }
        None
    }

    /// The index of the game with id `id`.
    fn find_game_by_id(&self, id: &String) -> (r: Option<usize>)
        ensures
            match r {
                Some(i) => i < self@.len() && self@[i as int].id == id@,
                None => !id_in_use(self@, id@),
            },
    {
        let mut i: usize = 0;
        while i < self.games.len()
            invariant
                0 <= i <= self.games.len(),
                self@.len() == self.games.len(),
                forall|j: int| 0 <= j < self.games.len() ==> #[trigger] self@[j] == self.games[j]@,
                forall|j: int| 0 <= j < i ==> (#[trigger] self@[j]).id != id@,
            decreases self.games.len() - i,
        {
            if self.games[i].get_id() == *id {
                return Some(i);
            }
            i = i + 1;
        }
        None
    }

    /// The id of the game that `conn` plays in.
    pub fn session_of(&self, conn: u64) -> (r: Option<String>)
        ensures
            match r {
                Some(id) => exists|i: int|
                    0 <= i < self@.len() && #[trigger] self@[i].has_address(conn) && self@[i].id == id@,
                None => !plays(self@, conn),
            },
    {
        match self.find_game_of(conn) {
            Some(i) => {
                assert(self@[i as int] == self.games[i as int]@);
                Some(self.games[i].get_id())
            },
            None => None,
        }
    }

    /// The pending games, in order of creation.
    pub fn list_open_sessions(&self) -> (r: Vec<GameDefinition>)
        ensures
            r@.map_values(|d: GameDefinition| d@) == open_games(self@),
    {
        let mut defs: Vec<GameDefinition> = Vec::new();
        let mut i: usize = 0;
        while i < self.games.len()
            invariant
                0 <= i <= self.games.len(),
                self@.len() == self.games.len(),
                forall|j: int| 0 <= j < self.games.len() ==> #[trigger] self@[j] == self.games[j]@,
                defs@.map_values(|d: GameDefinition| d@) == open_games(self@.subrange(0, i as int)),
            decreases self.games.len() - i,
        {
            let game = &self.games[i];
            assert(self@.subrange(0, i + 1).drop_last() =~= self@.subrange(0, i as int));
            if !game.has_client() {
                let d = game.get_difficulty();
                let def = GameDefinition::new(game.get_id(), game.get_host().get_name().clone(), d.name());
                let ghost before = defs@;
                defs.push(def);
                assert(defs@.map_values(|d: GameDefinition| d@) =~= before.map_values(
                    |d: GameDefinition| d@,
                ).push(def@));
            }
            i = i + 1;
        }
        assert(self@.subrange(0, self@.len() as int) =~= self@);
        defs
    }

    /// The open-games listing, addressed to `conn`.
    pub fn send_open_games(&self, conn: u64) -> (r: Outgoing)
        ensures
            r@ == (OutgoingView { to: conn, message: ServerMessageView::OpenGames(open_games(self@)) }),
    {
        let games = self.list_open_sessions();
        Outgoing { to: conn, message: ServerMessage::OpenGames(OpenGamesMessage::new(games)) }
    }
}

// ---------------------------------------------------------------------------
// What the server sends
// ---------------------------------------------------------------------------

/// A message and the connection it is for.
pub struct Outgoing {
    pub to: u64,
    pub message: ServerMessage,
}

pub struct OutgoingView {
    pub to: u64,
    pub message: ServerMessageView,
}

impl View for Outgoing {
    type V = OutgoingView;

    open spec fn view(&self) -> OutgoingView {
        OutgoingView { to: self.to, message: self.message@ }
    }
}

pub open spec fn views(out: Seq<Outgoing>) -> Seq<OutgoingView> {
    out.map_values(|o: Outgoing| o@)
}

/// What a move did.
pub struct MoveResult {
    pub accepted: bool,
    pub new_active_player: String,
    pub winner: Option<String>,
    pub remaining_mines: u32,
}

pub struct MoveResultView {
    pub accepted: bool,
    pub new_active_player: Seq<char>,
    pub winner: Option<Seq<char>>,
    pub remaining_mines: nat,
}

impl View for MoveResult {
    type V = MoveResultView;

    open spec fn view(&self) -> MoveResultView {
        MoveResultView {
            accepted: self.accepted,
            new_active_player: self.new_active_player@,
            winner: match &self.winner {
                Some(w) => Some(w@),
                None => None,
            },
            remaining_mines: self.remaining_mines as nat,
        }
    }
}

pub open spec fn move_views(r: Result<(MoveResult, Vec<Outgoing>), SessionError>) -> Result<(MoveResultView, Seq<OutgoingView>), SessionError> {
    match r {
        Ok((res, out)) => Ok((res@, views(out@))),
        Err(e) => Err(e),
    }
}

/// A result with the messages in their models.
pub open spec fn result_views(r: Result<Vec<Outgoing>, SessionError>) -> Result<Seq<OutgoingView>, SessionError> {
    match r {
        Ok(out) => Ok(views(out@)),
        Err(e) => Err(e),
    }
}

/// A game-start message for `to` that shows `board`.
pub open spec fn start_for(o: OutgoingView, to: u64, board: Seq<Seq<SerializableCell>>) -> bool {
    &&& o.to == to
    &&& o.message is Start
    &&& o.message->Start_0.name == "start"@
    &&& o.message->Start_0.board == board
}

/// The two players of started game `g` each learn that it started: both see the board of
/// its turn authority, and exactly one of them is told that it is its turn.
pub open spec fn announces_start(out: Seq<OutgoingView>, g: GameView) -> bool {
    &&& g.turns is Some
    &&& g.client is Some
    &&& out.len() == 2
    &&& start_for(out[0], g.host.address, board_cells(g.turns->0))
    &&& start_for(out[1], g.client->0.address, board_cells(g.turns->0))
    &&& out[0].message->Start_0.is_active == g.host_turn()
    &&& out[1].message->Start_0.is_active == !g.host_turn()
}

/// A name-only message `name` for `to`.
pub open spec fn notice(o: OutgoingView, to: u64, name: Seq<char>) -> bool {
    o.to == to && o.message == ServerMessageView::Simple(name)
}

/// The effect of an identification of `conn` under `name`: a player who already plays is
/// renamed; otherwise the player joins the first pending game, or else hosts a new one.
pub open spec fn identify_post(
    old: Seq<GameView>,
    new: Seq<GameView>,
    conn: u64,
    name: Seq<char>,
    player_id: Seq<char>,
    session_id: Seq<char>,
    r: Result<Seq<OutgoingView>, SessionError>,
) -> bool {
    if plays(old, conn) {
        &&& r matches Ok(out) && out.len() == 0
        &&& forall|i: int|
            0 <= i < old.len() && #[trigger] old[i].has_address(conn) ==> new == old.update(
                i,
                rename_in(old[i], conn, name),
            )
    } else if has_pending(old) {
        forall|i: int|
            #[trigger] is_first_pending(old, i) ==> if player_id == old[i].host.id {
                r == Err::<Seq<OutgoingView>, SessionError>(SessionError::IdInUse) && new == old
            } else {
                &&& r matches Ok(out) && announces_start(out, new[i])
                &&& new.len() == old.len()
                &&& forall|j: int| 0 <= j < old.len() && j != i ==> #[trigger] new[j] == old[j]
                &&& joined(old[i], new[i], player_id, name, conn)
            }
    } else if id_in_use(old, session_id) {
        r == Err::<Seq<OutgoingView>, SessionError>(SessionError::IdInUse) && new == old
    } else {
        &&& r matches Ok(out) && out.len() == 0
        &&& new == old.push(new_game(session_id, name, Difficulty::Easy, player_id, conn))
    }
}

/// The effect of a request by `conn` to join game `game_id` as `name`.
pub open spec fn join_post(
    old: Seq<GameView>,
    new: Seq<GameView>,
    conn: u64,
    game_id: Seq<char>,
    name: Seq<char>,
    player_id: Seq<char>,
    r: Result<Seq<OutgoingView>, SessionError>,
) -> bool {
    if !id_in_use(old, game_id) {
        r == Err::<Seq<OutgoingView>, SessionError>(SessionError::SessionNotFound) && new == old
    } else {
        forall|i: int|
            0 <= i < old.len() && #[trigger] old[i].id == game_id ==> if !old[i].is_pending() {
                r == Err::<Seq<OutgoingView>, SessionError>(SessionError::SessionFull) && new == old
            } else if plays(old, conn) {
                r == Err::<Seq<OutgoingView>, SessionError>(SessionError::AlreadyInSession) && new
                    == old
            } else if player_id == old[i].host.id {
                r == Err::<Seq<OutgoingView>, SessionError>(SessionError::IdInUse) && new == old
            } else {
                &&& r matches Ok(out) && announces_start(out, new[i])
                &&& new.len() == old.len()
                &&& forall|j: int| 0 <= j < old.len() && j != i ==> #[trigger] new[j] == old[j]
                &&& joined(old[i], new[i], player_id, name, conn)
            }
    }
}

/// The effect of the loss of connection `conn`: a game it hosted is closed and its second
/// player told; a game it joined waits again and its host is told.
pub open spec fn remove_post(
    old: Seq<GameView>,
    new: Seq<GameView>,
    conn: u64,
    out: Seq<OutgoingView>,
) -> bool {
    &&& !plays(old, conn) ==> new == old && out.len() == 0
    &&& forall|i: int|
        0 <= i < old.len() && #[trigger] old[i].host.address == conn ==> {
            &&& new == old.remove(i)
            &&& match old[i].client {
                Some(c) => out.len() == 1 && notice(out[0], c.address, "host_disconnected"@),
                None => out.len() == 0,
            }
        }
    &&& forall|i: int|
        0 <= i < old.len() && #[trigger] old[i].has_address(conn) && old[i].host.address != conn
            ==> {
            &&& new == old.update(i, GameView { client: None, turns: None, ..old[i] })
            &&& out.len() == 1 && notice(out[0], old[i].host.address, "client_disconnected"@)
        }
}

/// The two players of started game `g` learn of the move at `at`, each with whether it is
/// now its turn, the turn being with the player whose id is `active`.
pub open spec fn announces_move(out: Seq<OutgoingView>, g: GameView, at: SerializablePoint, active: Seq<char>) -> bool {
    &&& g.client is Some
    &&& out.len() == 2
    &&& out[0].to == g.host.address
    &&& out[1].to == g.client->0.address
    &&& out[0].message == ServerMessageView::CellSelected(
        CellSelectedView { name: "cell_selected"@, is_active_player: g.host.id == active, coordinates: at },
    )
    &&& out[1].message == ServerMessageView::CellSelected(
        CellSelectedView { name: "cell_selected"@, is_active_player: g.client->0.id == active, coordinates: at },
    )
}

/// The id of the player at `conn` in `g`.
pub open spec fn player_at(g: GameView, conn: u64) -> Seq<char> {
    if g.host.address == conn {
        g.host.id
    } else {
        g.client->0.id
    }
}

/// The effect of a move at `at` by `conn`: refused unless it is that player's turn in a
/// started game; otherwise handed to the turn authority and told to both players.
pub open spec fn move_post(
    old: Seq<GameView>,
    new: Seq<GameView>,
    conn: u64,
    at: SerializablePoint,
    r: Result<(MoveResultView, Seq<OutgoingView>), SessionError>,
) -> bool {
    if !plays(old, conn) {
        r == Err::<(MoveResultView, Seq<OutgoingView>), SessionError>(SessionError::PlayerNotFound) && new == old
    } else {
        forall|i: int|
            0 <= i < old.len() && #[trigger] old[i].has_address(conn) ==> if old[i].is_pending() {
                r == Err::<(MoveResultView, Seq<OutgoingView>), SessionError>(SessionError::NotStarted) && new == old
            } else if player_at(old[i], conn) != old[i].active_id() {
                r == Err::<(MoveResultView, Seq<OutgoingView>), SessionError>(SessionError::OutOfTurn) && new == old
            } else {
                match r {
                    Err(_) => false,
                    Ok((res, out)) => {
                        let g = new[i];
                        let (before, after) = (board_cells(old[i].turns->0), board_cells(g.turns->0));
                        &&& turn_moved(seats(old[i].turns->0), seats(g.turns->0), passes_turn(before, at))
                        &&& only_cleared(before, after)
                        &&& on_board(before, at) ==> after[at.x as int][at.y as int].cleared
                        &&& !on_board(before, at) || before[at.x as int][at.y as int].cleared ==> after == before
                        &&& res.winner == winner_of(g.turns->0)
                        &&& new.len() == old.len()
                        &&& forall|j: int| 0 <= j < old.len() && j != i ==> #[trigger] new[j] == old[j]
                        &&& g == GameView { turns: g.turns, ..old[i] }
                        &&& g.turns is Some
                        &&& res.accepted
                        &&& res.new_active_player == g.active_id()
                        &&& (res.winner matches Some(w) ==> w == g.host.id || w == g.client->0.id)
                        &&& res.remaining_mines == hidden_mines(board_cells(g.turns->0))
                        &&& announces_move(out, g, at, res.new_active_player)
                    },
                }
            }
    }
}

/// The messages of a request that succeeded; none for one that failed.
pub open spec fn sent(r: Result<Seq<OutgoingView>, SessionError>) -> Seq<OutgoingView> {
    match r {
        Ok(out) => out,
        Err(_) => Seq::empty(),
    }
}

pub open spec fn sent_after_move(r: Result<(MoveResultView, Seq<OutgoingView>), SessionError>) -> Seq<OutgoingView> {
    match r {
        Ok((_, out)) => out,
        Err(_) => Seq::empty(),
    }
}

/// The effect of document `msg` from `conn`, read as the first schema that accepts it. An
/// identification names its player by `user_id`; a request for a new game names a known
/// difficulty. A document that no schema accepts, and a refused request, change nothing
/// and send nothing.
pub open spec fn handle_post(
    old: Seq<GameView>,
    new: Seq<GameView>,
    conn: u64,
    msg: Json,
    player_id: Seq<char>,
    session_id: Seq<char>,
    out: Seq<OutgoingView>,
) -> bool {
    match inbound_of(msg) {
        None => new == old && out.len() == 0,
        Some(InboundView::Identification(m)) => exists|r: Result<Seq<OutgoingView>, SessionError>|
            identify_post(old, new, conn, m.user_id, player_id, session_id, r) && out == sent(r),
        Some(InboundView::CellSelected(m)) => exists|r: Result<(MoveResultView, Seq<OutgoingView>), SessionError>|
            move_post(old, new, conn, m.coordinates, r) && out == sent_after_move(r),
        Some(InboundView::CreateGame(m)) => match difficulty_named(m.difficulty) {
            None => new == old && out.len() == 0,
            Some(d) => exists|r: Result<Seq<OutgoingView>, SessionError>|
                create_post(old, new, conn, m.game_name, d, player_id, session_id, r) && out == sent(r),
        },
        Some(InboundView::JoinGame(m)) => exists|r: Result<Seq<OutgoingView>, SessionError>|
            join_post(old, new, conn, m.game_id, m.client_name, player_id, r) && out == sent(r),
        Some(InboundView::Simple(name)) => {
            &&& new == old
            &&& if name == "games_request"@ {
                out == seq![OutgoingView { to: conn, message: ServerMessageView::OpenGames(open_games(old)) }]
            } else {
                out.len() == 0
            }
        },
    }
}

/// The effect of a request by `conn` for a new game `name`.
pub open spec fn create_post(
    old: Seq<GameView>,
    new: Seq<GameView>,
    conn: u64,
    name: Seq<char>,
    difficulty: Difficulty,
    player_id: Seq<char>,
    session_id: Seq<char>,
    r: Result<Seq<OutgoingView>, SessionError>,
) -> bool {
    if plays(old, conn) {
        r == Err::<Seq<OutgoingView>, SessionError>(SessionError::AlreadyInSession) && new == old
    } else if id_in_use(old, session_id) {
        r == Err::<Seq<OutgoingView>, SessionError>(SessionError::IdInUse) && new == old
    } else {
        &&& r matches Ok(out) && out.len() == 1 && notice(out[0], conn, "waiting_enemy"@)
        &&& new == old.push(new_game(session_id, name, difficulty, player_id, conn))
    }
}

/// The start of game `game`, told to each of its players.
fn announce_start(game: &Game) -> (out: Vec<Outgoing>)
    requires
        game@.wf(),
        game@.turns is Some,
    ensures
        announces_start(views(out@), game@),
{
    let active = game.active_player_id();
    let host = game.get_host();
    let mut out: Vec<Outgoing> = Vec::new();
    match game.get_client() {
        Some(client) => {
            let host_turn = host.get_id() == active;
            let client_turn = client.get_id() == active;
            let to_host = GameStartMessage::new(game.get_board(), host_turn);
            let to_client = GameStartMessage::new(game.get_board(), client_turn);
            out.push(Outgoing { to: host.get_address(), message: ServerMessage::Start(to_host) });
            out.push(
                Outgoing { to: client.get_address(), message: ServerMessage::Start(to_client) },
            );
        },
        None => {},
    }
    out
}

impl Server {
    /// Seats `conn` as the second player of pending game `i` and starts it.
    fn seat_guest(&mut self, i: usize, conn: u64, name: String, player_id: &String) -> (out: Vec<Outgoing>)
        requires
            old(self).wf(),
            i < old(self)@.len(),
            old(self)@[i as int].is_pending(),
            !plays(old(self)@, conn),
            player_id@ != old(self)@[i as int].host.id,
        ensures
            final(self).wf(),
            final(self)@.len() == old(self)@.len(),
            forall|j: int| 0 <= j < old(self)@.len() && j != i ==> #[trigger] final(self)@[j] == old(self)@[j],
            joined(old(self)@[i as int], final(self)@[i as int], player_id@, name@, conn),
            announces_start(views(out@), final(self)@[i as int]),
    {
        let ghost before = self@;
        assert(self@[i as int] == self.games[i as int]@);
        assert(!before[i as int].has_address(conn));
        let game_id = self.games[i].get_id();
        let client = Player::new(player_id.clone(), name, game_id, conn);
        self.games[i].set_client(client);
        proof {
            assert(self@ =~= before.update(i as int, self.games[i as int]@));
            lemma_wf_update(before, self@, i as int);
        }
        announce_start(&self.games[i])
    }

    /// Adds a pending game hosted at `conn`.
    fn host_new_game(&mut self, conn: u64, name: String, difficulty: Difficulty, fresh: &FreshIds)
        requires
            old(self).wf(),
            !plays(old(self)@, conn),
            !id_in_use(old(self)@, fresh.session@),
        ensures
            final(self).wf(),
            final(self)@ == old(self)@.push(
                new_game(fresh.session@, name@, difficulty, fresh.player@, conn),
            ),
    {
        let ghost before = self@;
        let host = Player::new(fresh.player.clone(), name, fresh.session.clone(), conn);
        let game = Game::new(host, fresh.session.clone(), difficulty);
        self.games.push(game);
        proof {
            let g = new_game(fresh.session@, name@, difficulty, fresh.player@, conn);
            assert(self@ =~= before.push(g));
            lemma_wf_push(before, g);
        }
    }

    /// Identifies `conn` as `name`: renames a player who already plays; otherwise seats
    /// the player in the first pending game, which starts, or else opens a new game.
    pub fn identify(&mut self, conn: u64, name: String, fresh: &FreshIds) -> (r: Result<Vec<Outgoing>, SessionError>)
        requires
            old(self).wf(),
        ensures
            final(self).wf(),
            identify_post(
                old(self)@,
                final(self)@,
                conn,
                name@,
                fresh.player@,
                fresh.session@,
                result_views(r),
            ),
    {
        let ghost before = self@;
        match self.find_game_of(conn) {
            Some(i) => {
                assert(self@[i as int] == self.games[i as int]@);
                self.games[i].rename_player(conn, name);
                proof {
                    assert(self@ =~= before.update(i as int, rename_in(before[i as int], conn, name@)));
                    lemma_wf_update(before, self@, i as int);
                    assert forall|k: int|
                        0 <= k < before.len() && #[trigger] before[k].has_address(conn) implies k == i by {}
                }
                let out: Vec<Outgoing> = Vec::new();
                assert(views(out@) =~= Seq::<OutgoingView>::empty());
                Ok(out)
            },
            None => match self.find_first_pending() {
                Some(i) => {
                    assert(self@[i as int] == self.games[i as int]@);
                    if self.games[i].get_host().get_id() == fresh.player {
                        return Err(SessionError::IdInUse);
                    }
                    let out = self.seat_guest(i, conn, name, &fresh.player);
                    Ok(out)
                },
                None => {
                    if self.find_game_by_id(&fresh.session).is_some() {
                        return Err(SessionError::IdInUse);
                    }
                    self.host_new_game(conn, name, Difficulty::Easy, fresh);
                    let out: Vec<Outgoing> = Vec::new();
                    assert(views(out@) =~= Seq::<OutgoingView>::empty());
                    Ok(out)
                },
            },
        }
    }

    /// Seats `conn` as the second player of game `session_id`, which starts.
    pub fn join_session(
        &mut self,
        conn: u64,
        session_id: &String,
        name: String,
        fresh: &FreshIds,
    ) -> (r: Result<Vec<Outgoing>, SessionError>)
        requires
            old(self).wf(),
        ensures
            final(self).wf(),
            join_post(old(self)@, final(self)@, conn, session_id@, name@, fresh.player@, result_views(r)),
    {
        let ghost before = self@;
        match self.find_game_by_id(session_id) {
            None => Err(SessionError::SessionNotFound),
            Some(i) => {
                assert(self@[i as int] == self.games[i as int]@);
                assert forall|k: int|
                    0 <= k < before.len() && #[trigger] before[k].id == session_id@ implies k == i by {}
                if self.games[i].has_client() {
                    return Err(SessionError::SessionFull);
                }
                if self.find_game_of(conn).is_some() {
                    return Err(SessionError::AlreadyInSession);
                }
                if self.games[i].get_host().get_id() == fresh.player {
                    return Err(SessionError::IdInUse);
                }
                let out = self.seat_guest(i, conn, name, &fresh.player);
                Ok(out)
            },
        }
    }

    /// Opens a pending game listed under `name`, hosted at `conn` by a player of that name, and
    /// tells its host to wait.
    pub fn create_named_session(
        &mut self,
        conn: u64,
        name: String,
        difficulty: Difficulty,
        fresh: &FreshIds,
    ) -> (r: Result<Vec<Outgoing>, SessionError>)
        requires
            old(self).wf(),
        ensures
            final(self).wf(),
            create_post(
                old(self)@,
                final(self)@,
                conn,
                name@,
                difficulty,
                fresh.player@,
                fresh.session@,
                result_views(r),
            ),
    {
        if self.find_game_of(conn).is_some() {
            return Err(SessionError::AlreadyInSession);
        }
        if self.find_game_by_id(&fresh.session).is_some() {
            return Err(SessionError::IdInUse);
        }
        self.host_new_game(conn, name, difficulty, fresh);
        let mut out: Vec<Outgoing> = Vec::new();
        let wait = SimpleMessage::new("waiting_enemy");
        out.push(Outgoing { to: conn, message: ServerMessage::Simple(wait) });
        Ok(out)
    }
}

impl Server {
    /// Forgets connection `conn`: a game it hosted is closed and its second player told;
    /// a game it joined waits again for a second player and its host is told.
    pub fn remove_player(&mut self, conn: u64) -> (out: Vec<Outgoing>)
        requires
            old(self).wf(),
        ensures
            final(self).wf(),
            remove_post(old(self)@, final(self)@, conn, views(out@)),
    {
        let ghost before = self@;
        let mut out: Vec<Outgoing> = Vec::new();
        match self.find_game_of(conn) {
            None => {
                assert(views(out@) =~= Seq::<OutgoingView>::empty());
                assert forall|k: int| 0 <= k < before.len() implies #[trigger] before[k].host.address != conn by {
                    if before[k].host.address == conn {
                        assert(before[k].has_address(conn));
                    }
                }
            },
            Some(i) => {
                assert(self@[i as int] == self.games[i as int]@);
                assert forall|k: int|
                    0 <= k < before.len() && #[trigger] before[k].has_address(conn) implies k == i by {}
                assert forall|k: int|
                    0 <= k < before.len() && #[trigger] before[k].host.address == conn implies k == i by {
                    assert(before[k].has_address(conn));
                }
                if self.games[i].get_host().get_address() == conn {
                    let game = self.games.remove(i);
                    proof {
                        assert(self@ =~= before.remove(i as int));
                        lemma_wf_remove(before, i as int);
                    }
                    match game.get_client() {
                        Some(c) => {
                            let notice = SimpleMessage::new("host_disconnected");
                            out.push(Outgoing { to: c.get_address(), message: ServerMessage::Simple(notice) });
                        },
                        None => {},
                    }
                    assert(views(out@) =~= match before[i as int].client {
                        Some(c) => seq![OutgoingView { to: c.address, message: ServerMessageView::Simple("host_disconnected"@) }],
                        None => Seq::<OutgoingView>::empty(),
                    });

                } else {
                    self.games[i].remove_client();
                    proof {
                        let g = GameView { client: None, turns: None, ..before[i as int] };
                        assert(self@ =~= before.update(i as int, g));
                        lemma_wf_update(before, self@, i as int);
                    }
                    let host = self.games[i].get_host().get_address();
                    let notice = SimpleMessage::new("client_disconnected");
                    out.push(Outgoing { to: host, message: ServerMessage::Simple(notice) });
                    assert(views(out@) =~= seq![
                        OutgoingView { to: before[i as int].host.address, message: ServerMessageView::Simple("client_disconnected"@) },
                    ]);
                }
            },
        }
        out
    }

    /// Applies the move at `at` of the player at `conn`, when it is that player's turn, and
    /// tells both players.
    pub fn apply_move(&mut self, conn: u64, at: SerializablePoint) -> (r: Result<(MoveResult, Vec<Outgoing>), SessionError>)
        requires
            old(self).wf(),
        ensures
            final(self).wf(),
            move_post(old(self)@, final(self)@, conn, at, move_views(r)),
    {
        let ghost before = self@;
        let i = match self.find_game_of(conn) {
            None => return Err(SessionError::PlayerNotFound),
            Some(i) => i,
        };
        assert(self@[i as int] == self.games[i as int]@);
        assert forall|k: int|
            0 <= k < before.len() && #[trigger] before[k].has_address(conn) implies k == i by {}
        if !self.games[i].has_client() {
            return Err(SessionError::NotStarted);
        }
        let mover = if self.games[i].get_host().get_address() == conn {
            self.games[i].get_host().get_id()
        } else {
            match self.games[i].get_client() {
                Some(c) => c.get_id(),
                None => return Err(SessionError::NotStarted),
            }
        };
        if self.games[i].active_player_id() != mover {
            return Err(SessionError::OutOfTurn);
        }
        self.games[i].player_selected(at);
        proof {
            assert(self@ =~= before.update(i as int, self.games[i as int]@));
            lemma_wf_update(before, self@, i as int);
        }
        let game = &self.games[i];
        let active = game.active_player_id();
        let winner = game.winner_id();
        let mines = game.remaining_mines();
        let mut out: Vec<Outgoing> = Vec::new();
        let host = game.get_host();
        let host_turn = host.get_id() == active;
        out.push(Outgoing {
            to: host.get_address(),
            message: ServerMessage::CellSelected(CellSelectedMessage::new(at, host_turn)),
        });
        match game.get_client() {
            Some(c) => {
                let client_turn = c.get_id() == active;
                out.push(Outgoing {
                    to: c.get_address(),
                    message: ServerMessage::CellSelected(CellSelectedMessage::new(at, client_turn)),
                });
            },
            None => {},
        }
        let result = MoveResult { accepted: true, new_active_player: active, winner, remaining_mines: mines };
        assert(views(out@) =~= seq![out@[0]@, out@[1]@]);
        Ok((result, out))
    }
}

fn sent_messages(r: Result<Vec<Outgoing>, SessionError>) -> (out: Vec<Outgoing>)
    ensures
        views(out@) == sent(result_views(r)),
{
    match r {
        Ok(out) => out,
        Err(_) => {
            let out: Vec<Outgoing> = Vec::new();
            assert(views(out@) =~= Seq::<OutgoingView>::empty());
            out
        },
    }
}

impl Server {
    /// The request to identify, for a connection that just arrived.
    pub fn request_identification(&self, conn: u64) -> (r: Outgoing)
        ensures
            notice(r@, conn, "identify"@),
    {
        Outgoing { to: conn, message: ServerMessage::Simple(SimpleMessage::new("identify")) }
    }

    /// Acts on document `msg` from `conn`, with `fresh` as the ids of a new player or game.
    pub fn handle_message(&mut self, conn: u64, msg: &JsonValue, fresh: &FreshIds) -> (out: Vec<Outgoing>)
        requires
            old(self).wf(),
        ensures
            final(self).wf(),
            handle_post(old(self)@, final(self)@, conn, msg.model(), fresh.player@, fresh.session@, views(out@)),
    {
        let ghost before = self@;
        let empty: Vec<Outgoing> = Vec::new();
        assert(views(empty@) =~= Seq::<OutgoingView>::empty());
        match Inbound::from_json(msg) {
            None => empty,
            Some(Inbound::Identification(m)) => {
                let r = self.identify(conn, m.user_id, fresh);
                let ghost rv = result_views(r);
                let out = sent_messages(r);
                assert(identify_post(before, self@, conn, m@.user_id, fresh.player@, fresh.session@, rv));
                out
            },
            Some(Inbound::CellSelected(m)) => {
                let r = self.apply_move(conn, m.coordinates);
                let ghost rv = move_views(r);
                let out = match r {
                    Ok((_, out)) => out,
                    Err(_) => empty,
                };
                assert(views(out@) == sent_after_move(rv));
                assert(move_post(before, self@, conn, m@.coordinates, rv));
                out
            },
            Some(Inbound::CreateGame(m)) => match Difficulty::from_name(&m.difficulty) {
                None => empty,
                Some(d) => {
                    let r = self.create_named_session(conn, m.game_name, d, fresh);
                    let ghost rv = result_views(r);
                    let out = sent_messages(r);
                    assert(create_post(before, self@, conn, m@.game_name, d, fresh.player@, fresh.session@, rv));
                    out
                },
            },
            Some(Inbound::JoinGame(m)) => {
                let r = self.join_session(conn, &m.game_id, m.client_name, fresh);
                let ghost rv = result_views(r);
                let out = sent_messages(r);
                assert(join_post(before, self@, conn, m@.game_id, m@.client_name, fresh.player@, rv));
                out
            },
            Some(Inbound::Simple(m)) => {
                if m.name == "games_request".to_owned() {
                    let mut out: Vec<Outgoing> = Vec::new();
                    out.push(self.send_open_games(conn));
                    assert(views(out@) =~= seq![out@[0]@]);
                    out
                } else {
                    empty
                }
            },
        }
    }

    /// Acts on document `msg` from `conn`, drawing random ids for a new player or game.
    pub fn handle_received_message(&mut self, conn: u64, msg: &JsonValue) -> (out: Vec<Outgoing>)
        requires
            old(self).wf(),
        ensures
            final(self).wf(),
            exists|player_id: Seq<char>, session_id: Seq<char>|
                handle_post(old(self)@, final(self)@, conn, msg.model(), player_id, session_id, views(out@)),
    {
        let fresh = FreshIds::generate();
        self.handle_message(conn, msg, &fresh)
    }
}

// ---------------------------------------------------------------------------
// Laws of the registry
// ---------------------------------------------------------------------------

/// Every pending game is listed.
pub proof fn lemma_pending_game_listed(gs: Seq<GameView>, i: int)
    requires
        0 <= i < gs.len(),
        gs[i].is_pending(),
    ensures
        open_games(gs).contains(definition_of_game(gs[i])),
    decreases gs.len(),
{
    let rest = gs.drop_last();
    if i == gs.len() - 1 {
        let l = open_games(gs);
        assert(l[l.len() - 1] == definition_of_game(gs[i]));
    } else {
        assert(rest[i] == gs[i]);
        lemma_pending_game_listed(rest, i);
        let k = choose|k: int| 0 <= k < open_games(rest).len() && open_games(rest)[k] == definition_of_game(gs[i]);
        if gs.last().is_pending() {
            assert(open_games(gs)[k] == open_games(rest)[k]);
        }
    }
}

/// When two connections identify one after the other on a server where no game waits,
/// the first opens a game and the second is seated in it: the game starts, both players
/// are shown the same board, and exactly one of them, the first, is told that it is its
/// turn.
pub proof fn lemma_second_identification_starts_game(
    s0: Seq<GameView>,
    s1: Seq<GameView>,
    s2: Seq<GameView>,
    first: u64,
    second: u64,
    first_name: Seq<char>,
    second_name: Seq<char>,
    first_ids: (Seq<char>, Seq<char>),
    second_ids: (Seq<char>, Seq<char>),
    r1: Result<Seq<OutgoingView>, SessionError>,
    r2: Result<Seq<OutgoingView>, SessionError>,
)
    requires
        games_wf(s0),
        !has_pending(s0),
        first != second,
        !plays(s0, first),
        !plays(s0, second),
        !id_in_use(s0, first_ids.1),
        second_ids.0 != first_ids.0,
        identify_post(s0, s1, first, first_name, first_ids.0, first_ids.1, r1),
        identify_post(s1, s2, second, second_name, second_ids.0, second_ids.1, r2),
    ensures
        s1 == s0.push(new_game(first_ids.1, first_name, Difficulty::Easy, first_ids.0, first)),
        s2.len() == s1.len(),
        s2.drop_last() == s0,
        joined(s1.last(), s2.last(), second_ids.0, second_name, second),
        r2 matches Ok(out) && announces_start(out, s2.last()),
        r2->Ok_0[0].to == first,
        r2->Ok_0[1].to == second,
        r2->Ok_0[0].message->Start_0.board == r2->Ok_0[1].message->Start_0.board,
        r2->Ok_0[0].message->Start_0.is_active,
        !r2->Ok_0[1].message->Start_0.is_active,
{
    let n = s0.len() as int;
    assert(s1[n].is_pending());
    assert forall|j: int| 0 <= j < n implies !(#[trigger] s1[j]).is_pending() by {
        assert(s1[j] == s0[j]);
    }
    assert(is_first_pending(s1, n));
    assert(!plays(s1, second)) by {
        if plays(s1, second) {
            let k = choose|k: int| 0 <= k < s1.len() && s1[k].has_address(second);
            if k < n {
                assert(s1[k] == s0[k]);
            }
        }
    }
    assert(has_pending(s1));
    assert(s2.drop_last() =~= s0) by {
        assert forall|j: int| 0 <= j < n implies s2[j] == s0[j] by {
            assert(s2[j] == s1[j]);
        }
    }
}

/// Once the host of a started game is gone, its second player is told so, and neither
/// of the two can make a move any more.
pub proof fn lemma_host_loss_ends_game(
    s0: Seq<GameView>,
    s1: Seq<GameView>,
    i: int,
    out: Seq<OutgoingView>,
    at: SerializablePoint,
    r_host: Result<(MoveResultView, Seq<OutgoingView>), SessionError>,
    r_guest: Result<(MoveResultView, Seq<OutgoingView>), SessionError>,
    s2: Seq<GameView>,
    s3: Seq<GameView>,
)
    requires
        games_wf(s0),
        0 <= i < s0.len(),
        s0[i].client is Some,
        remove_post(s0, s1, s0[i].host.address, out),
        move_post(s1, s2, s0[i].client->0.address, at, r_guest),
        move_post(s1, s3, s0[i].host.address, at, r_host),
    ensures
        out.len() == 1,
        notice(out[0], s0[i].client->0.address, "host_disconnected"@),
        r_guest == Err::<(MoveResultView, Seq<OutgoingView>), SessionError>(SessionError::PlayerNotFound),
        r_host == Err::<(MoveResultView, Seq<OutgoingView>), SessionError>(SessionError::PlayerNotFound),
{
    let g = s0[i];
    let guest = g.client->0.address;
    let host = g.host.address;
    assert(g.has_address(host));
    assert(g.has_address(guest));
    assert(s1 == s0.remove(i));
    assert(!plays(s1, guest)) by {
        if plays(s1, guest) {
            let k = choose|k: int| 0 <= k < s1.len() && s1[k].has_address(guest);
            let ok = if k < i { k } else { k + 1 };
            assert(s1[k] == s0[ok]);
        }
    }
    assert(!plays(s1, host)) by {
        if plays(s1, host) {
            let k = choose|k: int| 0 <= k < s1.len() && s1[k].has_address(host);
            let ok = if k < i { k } else { k + 1 };
            assert(s1[k] == s0[ok]);
        }
    }
}

/// Once the second player of a started game is gone, its host is told so, and the game
/// waits again and is listed among the open games.
pub proof fn lemma_guest_loss_reopens_game(
    s0: Seq<GameView>,
    s1: Seq<GameView>,
    i: int,
    out: Seq<OutgoingView>,
)
    requires
        games_wf(s0),
        0 <= i < s0.len(),
        s0[i].client is Some,
        remove_post(s0, s1, s0[i].client->0.address, out),
    ensures
        out.len() == 1,
        notice(out[0], s0[i].host.address, "client_disconnected"@),
        s1.len() == s0.len(),
        s1[i] == (GameView { client: None, turns: None, ..s0[i] }),
        open_games(s1).contains(definition_of_game(s1[i])),
{
    let g = s0[i];
    assert(g.has_address(g.client->0.address));
    assert(s1 == s0.update(i, GameView { client: None, turns: None, ..g }));
    lemma_pending_game_listed(s1, i);
}

/// No game is listed on a new server; after one game is created there, exactly that
/// game is listed, under the name and difficulty its host chose.
pub proof fn lemma_listing_after_one_creation(
    s1: Seq<GameView>,
    conn: u64,
    name: Seq<char>,
    difficulty: Difficulty,
    player_id: Seq<char>,
    session_id: Seq<char>,
    r: Result<Seq<OutgoingView>, SessionError>,
)
    requires
        create_post(Seq::empty(), s1, conn, name, difficulty, player_id, session_id, r),
    ensures
        open_games(Seq::empty()) == Seq::<GameDefinitionView>::empty(),
        r is Ok,
        open_games(s1) == seq![GameDefinitionView { name, id: session_id, difficulty: difficulty.spec_name() }],
{
    let s0 = Seq::<GameView>::empty();
    assert(!plays(s0, conn));
    assert(!id_in_use(s0, session_id));
    assert(s1.drop_last() =~= s0);
    assert(open_games(s0) =~= Seq::<GameDefinitionView>::empty());
    assert(s1.last().is_pending());
    assert(open_games(s1) == open_games(s0).push(definition_of_game(s1.last())));
    assert(open_games(s1) =~= seq![GameDefinitionView { name, id: session_id, difficulty: difficulty.spec_name() }]);
}

/// A move never raises the count of mines left hidden: the count it reports is at most
/// the count on the board it was made on.
pub proof fn lemma_move_never_adds_hidden_mines(
    old: Seq<GameView>,
    new: Seq<GameView>,
    conn: u64,
    at: SerializablePoint,
    i: int,
    res: MoveResultView,
    out: Seq<OutgoingView>,
)
    requires
        games_wf(old),
        0 <= i < old.len(),
        old[i].has_address(conn),
        move_post(old, new, conn, at, Ok((res, out))),
    ensures
        old[i].turns is Some,
        new[i].turns is Some,
        res.remaining_mines == hidden_mines(board_cells(new[i].turns->0)),
        res.remaining_mines <= hidden_mines(board_cells(old[i].turns->0)),
{
    assert(plays(old, conn));
    assert(old[i].wf());
    lemma_clearing_never_adds_hidden_mines(
        board_cells(old[i].turns->0),
        board_cells(new[i].turns->0),
    );
}

/// A move on a cell already cleared leaves the board and the turn as they were; a move on a
/// cell neither cleared nor a mine hands the turn to the other player, and each player is
/// told so.
pub proof fn lemma_move_turn_effect(
    old: Seq<GameView>,
    new: Seq<GameView>,
    conn: u64,
    at: SerializablePoint,
    i: int,
    res: MoveResultView,
    out: Seq<OutgoingView>,
)
    requires
        games_wf(old),
        0 <= i < old.len(),
        old[i].has_address(conn),
        move_post(old, new, conn, at, Ok((res, out))),
        on_board(board_cells(old[i].turns->0), at),
    ensures
        board_cells(old[i].turns->0)[at.x as int][at.y as int].cleared ==> {
            &&& board_cells(new[i].turns->0) == board_cells(old[i].turns->0)
            &&& new[i].host_turn() == old[i].host_turn()
        },
        !board_cells(old[i].turns->0)[at.x as int][at.y as int].cleared
            && board_cells(old[i].turns->0)[at.x as int][at.y as int].number >= 0 ==> {
            &&& new[i].host_turn() == !old[i].host_turn()
            &&& out[0].message->CellSelected_0.is_active_player == !old[i].host_turn()
            &&& out[1].message->CellSelected_0.is_active_player == old[i].host_turn()
        },
{
    assert(plays(old, conn));
    assert(old[i].wf());
    let (s0, s1) = (seats(old[i].turns->0), seats(new[i].turns->0));
    assert(s1[0].0 == s0[0].0 && s1[0].1 == (s0[0].1 != passes_turn(board_cells(old[i].turns->0), at)));
    assert(s1[1].0 == s0[1].0);
}

} // verus!
