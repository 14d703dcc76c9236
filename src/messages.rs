use vstd::prelude::*;

use crate::json::{Json, JsonValue};

verus! {

// ---------------------------------------------------------------------------
// Message values and their models
// ---------------------------------------------------------------------------

/// A board coordinate as it travels on the wire.
#[derive(Clone, Copy, Debug, PartialEq, Eq, Structural)]
pub struct SerializablePoint {
    pub x: usize,
    pub y: usize,
}

/// One cell of a board snapshot: `number` is negative for a mine, else the count of
/// neighbouring mines.
#[derive(Clone, Copy, Debug, PartialEq, Eq, Structural)]
pub struct SerializableCell {
    pub number: i8,
    pub cleared: bool,
    pub flagged: bool,
    pub coordinates: SerializablePoint,
}

/// A board snapshot: `data[x][y]` is the cell at column `x`, row `y`.
#[derive(Clone, Debug)]
pub struct SerializableBoard {
    pub data: Vec<Vec<SerializableCell>>,
}

impl View for SerializableBoard {
    type V = Seq<Seq<SerializableCell>>;

    open spec fn view(&self) -> Seq<Seq<SerializableCell>> {
        self.data@.map_values(|row: Vec<SerializableCell>| row@)
    }
}

/// Sent to each player when a game starts.
#[derive(Clone, Debug)]
pub struct GameStartMessage {
    pub name: String,
    pub board: SerializableBoard,
    pub is_active: bool,
}

pub struct GameStartView {
    pub name: Seq<char>,
    pub board: Seq<Seq<SerializableCell>>,
    pub is_active: bool,
}

impl View for GameStartMessage {
    type V = GameStartView;

    open spec fn view(&self) -> GameStartView {
        GameStartView { name: self.name@, board: self.board@, is_active: self.is_active }
    }
}

/// A message that carries nothing but its name.
#[derive(Clone, Debug)]
pub struct SimpleMessage {
    pub name: String,
}

impl View for SimpleMessage {
    type V = Seq<char>;

    open spec fn view(&self) -> Seq<char> {
        self.name@
    }
}

/// A client telling the server its display name.
#[derive(Clone, Debug)]
pub struct IdentificationMessage {
    pub name: String,
    pub user_id: String,
}

pub struct IdentificationView {
    pub name: Seq<char>,
    pub user_id: Seq<char>,
}

impl View for IdentificationMessage {
    type V = IdentificationView;

    open spec fn view(&self) -> IdentificationView {
        IdentificationView { name: self.name@, user_id: self.user_id@ }
    }
}

/// A move, from a client to the server and from the server to both players.
#[derive(Clone, Debug)]
pub struct CellSelectedMessage {
    pub name: String,
    pub is_active_player: bool,
    pub coordinates: SerializablePoint,
}

pub struct CellSelectedView {
    pub name: Seq<char>,
    pub is_active_player: bool,
    pub coordinates: SerializablePoint,
}

impl View for CellSelectedMessage {
    type V = CellSelectedView;

    open spec fn view(&self) -> CellSelectedView {
        CellSelectedView {
            name: self.name@,
            is_active_player: self.is_active_player,
            coordinates: self.coordinates,
        }
    }
}

/// One entry of the open-games listing.
#[derive(Clone, Debug)]
pub struct GameDefinition {
    pub name: String,
    pub id: String,
    pub difficulty: String,
}

pub struct GameDefinitionView {
    pub name: Seq<char>,
    pub id: Seq<char>,
    pub difficulty: Seq<char>,
}

impl View for GameDefinition {
    type V = GameDefinitionView;

    open spec fn view(&self) -> GameDefinitionView {
        GameDefinitionView { name: self.name@, id: self.id@, difficulty: self.difficulty@ }
    }
}

/// The listing of the games that wait for a second player.
#[derive(Clone, Debug)]
pub struct OpenGamesMessage {
    pub games: Vec<GameDefinition>,
}

impl View for OpenGamesMessage {
    type V = Seq<GameDefinitionView>;

    open spec fn view(&self) -> Seq<GameDefinitionView> {
        self.games@.map_values(|g: GameDefinition| g@)
    }
}

/// A client asking for a new named game.
#[derive(Clone, Debug)]
pub struct CreateGameMessage {
    pub game_name: String,
    pub difficulty: String,
}

pub struct CreateGameView {
    pub game_name: Seq<char>,
    pub difficulty: Seq<char>,
}

impl View for CreateGameMessage {
    type V = CreateGameView;

    open spec fn view(&self) -> CreateGameView {
        CreateGameView { game_name: self.game_name@, difficulty: self.difficulty@ }
    }
}

/// A client asking to join a listed game.
#[derive(Clone, Debug)]
pub struct JoinGameMessage {
    pub game_id: String,
    pub client_name: String,
}

pub struct JoinGameView {
    pub game_id: Seq<char>,
    pub client_name: Seq<char>,
}

impl View for JoinGameMessage {
    type V = JoinGameView;

    open spec fn view(&self) -> JoinGameView {
        JoinGameView { game_id: self.game_id@, client_name: self.client_name@ }
    }
}

// ---------------------------------------------------------------------------
// Constructors
// ---------------------------------------------------------------------------

impl GameStartMessage {
    pub fn new(board: SerializableBoard, is_active: bool) -> (r: Self)
        ensures
            r@ == (GameStartView { name: "start"@, board: board@, is_active }),
    {
        GameStartMessage { name: "start".to_owned(), board, is_active }
    }

    pub fn get_board(&self) -> (r: &SerializableBoard)
        ensures
            r@ == self@.board,
    {
        &self.board
    }
}

impl SimpleMessage {
    pub fn new(name: &str) -> (r: Self)
        ensures
            r@ == name@,
    {
        SimpleMessage { name: name.to_owned() }
    }
}

impl IdentificationMessage {
    pub fn new(user_id: String) -> (r: Self)
        ensures
            r@ == (IdentificationView { name: "user_identification"@, user_id: user_id@ }),
    {
        IdentificationMessage { name: "user_identification".to_owned(), user_id }
    }
}

impl CellSelectedMessage {
    pub fn new(coordinates: SerializablePoint, is_active_player: bool) -> (r: Self)
        ensures
            r@ == (CellSelectedView { name: "cell_selected"@, is_active_player, coordinates }),
    {
        CellSelectedMessage { name: "cell_selected".to_owned(), is_active_player, coordinates }
    }
}

impl GameDefinition {
    pub fn new(id: String, name: String, difficulty: String) -> (r: Self)
        ensures
            r@ == (GameDefinitionView { name: name@, id: id@, difficulty: difficulty@ }),
    {
        GameDefinition { name, id, difficulty }
    }
}

impl OpenGamesMessage {
    pub fn new(games: Vec<GameDefinition>) -> (r: Self)
        ensures
            r@ == games@.map_values(|g: GameDefinition| g@),
    {
        OpenGamesMessage { games }
    }
}

impl CreateGameMessage {
    pub fn new(game_name: String, difficulty: String) -> (r: Self)
        ensures
            r@ == (CreateGameView { game_name: game_name@, difficulty: difficulty@ }),
    {
        CreateGameMessage { game_name, difficulty }
    }
}

impl JoinGameMessage {
    pub fn new(game_id: String, client_name: String) -> (r: Self)
        ensures
            r@ == (JoinGameView { game_id: game_id@, client_name: client_name@ }),
    {
        JoinGameMessage { game_id, client_name }
    }
}

} // verus!
