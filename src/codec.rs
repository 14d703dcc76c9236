use vstd::prelude::*;

use crate::json::{lemma_field_absent, lemma_field_first, Json, JsonValue};
use crate::messages::{
    CellSelectedMessage, CellSelectedView, CreateGameMessage, CreateGameView, GameDefinition,
    GameDefinitionView, GameStartMessage, GameStartView, IdentificationMessage, IdentificationView,
    JoinGameMessage, JoinGameView, OpenGamesMessage, SerializableBoard, SerializableCell,
    SerializablePoint, SimpleMessage,
};

verus! {

// ---------------------------------------------------------------------------
// The wire shape of each message
// ---------------------------------------------------------------------------

pub open spec fn point_json(p: SerializablePoint) -> Json {
    Json::Object(seq![("x"@, Json::Number(p.x as int)), ("y"@, Json::Number(p.y as int))])
}

pub open spec fn cell_json(c: SerializableCell) -> Json {
    Json::Object(
        seq![
            ("number"@, Json::Number(c.number as int)),
            ("cleared"@, Json::Bool(c.cleared)),
            ("flagged"@, Json::Bool(c.flagged)),
            ("coordinates"@, point_json(c.coordinates)),
        ],
    )
}

pub open spec fn row_json(row: Seq<SerializableCell>) -> Json {
    Json::Array(row.map_values(|c: SerializableCell| cell_json(c)))
}

pub open spec fn board_json(b: Seq<Seq<SerializableCell>>) -> Json {
    Json::Object(seq![("data"@, Json::Array(b.map_values(|row: Seq<SerializableCell>| row_json(row))))])
}

pub open spec fn start_json(m: GameStartView) -> Json {
    Json::Object(
        seq![
            ("name"@, Json::Str(m.name)),
            ("board"@, board_json(m.board)),
            ("is_active"@, Json::Bool(m.is_active)),
        ],
    )
}

pub open spec fn simple_json(name: Seq<char>) -> Json {
    Json::Object(seq![("name"@, Json::Str(name))])
}

pub open spec fn identification_json(m: IdentificationView) -> Json {
    Json::Object(seq![("name"@, Json::Str(m.name)), ("user_id"@, Json::Str(m.user_id))])
}

pub open spec fn cell_selected_json(m: CellSelectedView) -> Json {
    Json::Object(
        seq![
            ("name"@, Json::Str(m.name)),
            ("is_active_player"@, Json::Bool(m.is_active_player)),
            ("coordinates"@, point_json(m.coordinates)),
        ],
    )
}

pub open spec fn definition_json(d: GameDefinitionView) -> Json {
    Json::Object(
        seq![
            ("name"@, Json::Str(d.name)),
            ("id"@, Json::Str(d.id)),
            ("difficulty"@, Json::Str(d.difficulty)),
        ],
    )
}

pub open spec fn open_games_json(games: Seq<GameDefinitionView>) -> Json {
    Json::Object(
        seq![("games"@, Json::Array(games.map_values(|d: GameDefinitionView| definition_json(d))))],
    )
}

pub open spec fn create_game_json(m: CreateGameView) -> Json {
    Json::Object(
        seq![
            ("game"@, Json::Object(seq![("name"@, Json::Str(m.game_name))])),
            ("difficulty"@, Json::Str(m.difficulty)),
        ],
    )
}

pub open spec fn join_game_json(m: JoinGameView) -> Json {
    Json::Object(
        seq![("game_id"@, Json::Str(m.game_id)), ("client_name"@, Json::Str(m.client_name))],
    )
}

// ---------------------------------------------------------------------------
// What each schema accepts: every listed member present with the right type;
// other members are ignored
// ---------------------------------------------------------------------------

pub open spec fn point_of(j: Json) -> Option<SerializablePoint> {
    match (j.number_at("x"@), j.number_at("y"@)) {
        (Some(x), Some(y)) => if 0 <= x <= usize::MAX && 0 <= y <= usize::MAX {
            Some(SerializablePoint { x: x as usize, y: y as usize })
        } else {
            None
        },
        _ => None,
    }
}

pub open spec fn cell_of(j: Json) -> Option<SerializableCell> {
    match (j.number_at("number"@), j.bool_at("cleared"@), j.bool_at("flagged"@), j.get("coordinates"@)) {
        (Some(n), Some(cleared), Some(flagged), Some(c)) => match point_of(c) {
            Some(p) => if i8::MIN <= n <= i8::MAX {
                Some(SerializableCell { number: n as i8, cleared, flagged, coordinates: p })
            } else {
                None
            },
            None => None,
        },
        _ => None,
    }
}

pub open spec fn row_of(j: Json) -> Option<Seq<SerializableCell>> {
    match j {
        Json::Array(items) => if forall|i: int| 0 <= i < items.len() ==> (#[trigger] cell_of(items[i])) is Some {
            Some(Seq::new(items.len(), |i: int| cell_of(items[i])->0))
        } else {
            None
        },
        _ => None,
    }
}

pub open spec fn board_of(j: Json) -> Option<Seq<Seq<SerializableCell>>> {
    match j.get("data"@) {
        Some(Json::Array(rows)) => if forall|i: int| 0 <= i < rows.len() ==> (#[trigger] row_of(rows[i])) is Some {
            Some(Seq::new(rows.len(), |i: int| row_of(rows[i])->0))
        } else {
            None
        },
        _ => None,
    }
}

pub open spec fn start_of(j: Json) -> Option<GameStartView> {
    match (j.str_at("name"@), j.get("board"@), j.bool_at("is_active"@)) {
        (Some(name), Some(b), Some(is_active)) => match board_of(b) {
            Some(board) => Some(GameStartView { name, board, is_active }),
            None => None,
        },
        _ => None,
    }
}

pub open spec fn simple_of(j: Json) -> Option<Seq<char>> {
    j.str_at("name"@)
}

pub open spec fn identification_of(j: Json) -> Option<IdentificationView> {
    match (j.str_at("name"@), j.str_at("user_id"@)) {
        (Some(name), Some(user_id)) => Some(IdentificationView { name, user_id }),
        _ => None,
    }
}

pub open spec fn cell_selected_of(j: Json) -> Option<CellSelectedView> {
    match (j.str_at("name"@), j.bool_at("is_active_player"@), j.get("coordinates"@)) {
        (Some(name), Some(is_active_player), Some(c)) => match point_of(c) {
            Some(coordinates) => Some(CellSelectedView { name, is_active_player, coordinates }),
            None => None,
        },
        _ => None,
    }
}

pub open spec fn definition_of(j: Json) -> Option<GameDefinitionView> {
    match (j.str_at("name"@), j.str_at("id"@), j.str_at("difficulty"@)) {
        (Some(name), Some(id), Some(difficulty)) => Some(GameDefinitionView { name, id, difficulty }),
        _ => None,
    }
}

pub open spec fn open_games_of(j: Json) -> Option<Seq<GameDefinitionView>> {
    match j.get("games"@) {
        Some(Json::Array(items)) => if forall|i: int|
            0 <= i < items.len() ==> (#[trigger] definition_of(items[i])) is Some {
            Some(Seq::new(items.len(), |i: int| definition_of(items[i])->0))
        } else {
            None
        },
        _ => None,
    }
}

pub open spec fn create_game_of(j: Json) -> Option<CreateGameView> {
    match (j.get("game"@), j.str_at("difficulty"@)) {
        (Some(g), Some(difficulty)) => match g.str_at("name"@) {
            Some(game_name) => Some(CreateGameView { game_name, difficulty }),
            None => None,
        },
        _ => None,
    }
}

pub open spec fn join_game_of(j: Json) -> Option<JoinGameView> {
    match (j.str_at("game_id"@), j.str_at("client_name"@)) {
        (Some(game_id), Some(client_name)) => Some(JoinGameView { game_id, client_name }),
        _ => None,
    }
}

// ---------------------------------------------------------------------------
// Round trips
// ---------------------------------------------------------------------------

/// A point read back from its wire shape is the same point.
pub proof fn lemma_point_round_trip(p: SerializablePoint)
    ensures
        point_of(point_json(p)) == Some(p),
{
    reveal_strlit("x");
    reveal_strlit("y");
    let m = seq![("x"@, Json::Number(p.x as int)), ("y"@, Json::Number(p.y as int))];
    assert("x"@[0] != "y"@[0]);
    lemma_field_first(m, "x"@, 0);
    lemma_field_first(m, "y"@, 1);
}

/// A name-only message read back from its wire shape has the same name.
pub proof fn lemma_simple_round_trip(name: Seq<char>)
    ensures
        simple_of(simple_json(name)) == Some(name),
{
    lemma_field_first(seq![("name"@, Json::Str(name))], "name"@, 0);
}

/// A cell read back from its wire shape is the same cell.
pub proof fn lemma_cell_round_trip(c: SerializableCell)
    ensures
        cell_of(cell_json(c)) == Some(c),
{
    reveal_strlit("number");
    reveal_strlit("cleared");
    reveal_strlit("flagged");
    reveal_strlit("coordinates");
    let m = seq![
        ("number"@, Json::Number(c.number as int)),
        ("cleared"@, Json::Bool(c.cleared)),
        ("flagged"@, Json::Bool(c.flagged)),
        ("coordinates"@, point_json(c.coordinates)),
    ];
    assert("number"@[0] != "cleared"@[0]);
    assert("number"@[0] != "flagged"@[0]);
    assert("cleared"@[0] != "flagged"@[0]);
    assert("cleared"@[1] != "coordinates"@[1]);
    lemma_field_first(m, "number"@, 0);
    lemma_field_first(m, "cleared"@, 1);
    lemma_field_first(m, "flagged"@, 2);
    lemma_field_first(m, "coordinates"@, 3);
    lemma_point_round_trip(c.coordinates);
}

/// A row of cells read back from its wire shape is the same row.
pub proof fn lemma_row_round_trip(row: Seq<SerializableCell>)
    ensures
        row_of(row_json(row)) == Some(row),
{
    let items = row.map_values(|c: SerializableCell| cell_json(c));
    assert forall|i: int| 0 <= i < items.len() implies (#[trigger] cell_of(items[i])) == Some(row[i]) by {
        lemma_cell_round_trip(row[i]);
    }
    assert(Seq::new(items.len(), |i: int| cell_of(items[i])->0) =~= row);
}

/// A board read back from its wire shape is the same board.
pub proof fn lemma_board_round_trip(board: Seq<Seq<SerializableCell>>)
    ensures
        board_of(board_json(board)) == Some(board),
{
    let rows = board.map_values(|row: Seq<SerializableCell>| row_json(row));
    lemma_field_first(seq![("data"@, Json::Array(rows))], "data"@, 0);
    assert forall|i: int| 0 <= i < rows.len() implies (#[trigger] row_of(rows[i])) == Some(board[i]) by {
        lemma_row_round_trip(board[i]);
    }
    assert(Seq::new(rows.len(), |i: int| row_of(rows[i])->0) =~= board);
}

/// A game-start message read back from its wire shape is the same message.
pub proof fn lemma_start_round_trip(m: GameStartView)
    ensures
        start_of(start_json(m)) == Some(m),
{
    reveal_strlit("name");
    reveal_strlit("board");
    reveal_strlit("is_active");
    let f = seq![
        ("name"@, Json::Str(m.name)),
        ("board"@, board_json(m.board)),
        ("is_active"@, Json::Bool(m.is_active)),
    ];
    assert("name"@[0] != "board"@[0]);
    assert("name"@[0] != "is_active"@[0]);
    assert("board"@[0] != "is_active"@[0]);
    lemma_field_first(f, "name"@, 0);
    lemma_field_first(f, "board"@, 1);
    lemma_field_first(f, "is_active"@, 2);
    lemma_board_round_trip(m.board);
}

/// An identification message read back from its wire shape is the same message.
pub proof fn lemma_identification_round_trip(m: IdentificationView)
    ensures
        identification_of(identification_json(m)) == Some(m),
{
    reveal_strlit("name");
    reveal_strlit("user_id");
    let f = seq![("name"@, Json::Str(m.name)), ("user_id"@, Json::Str(m.user_id))];
    assert("name"@[0] != "user_id"@[0]);
    lemma_field_first(f, "name"@, 0);
    lemma_field_first(f, "user_id"@, 1);
}

/// A move message read back from its wire shape is the same message.
pub proof fn lemma_cell_selected_round_trip(m: CellSelectedView)
    ensures
        cell_selected_of(cell_selected_json(m)) == Some(m),
{
    reveal_strlit("name");
    reveal_strlit("is_active_player");
    reveal_strlit("coordinates");
    let f = seq![
        ("name"@, Json::Str(m.name)),
        ("is_active_player"@, Json::Bool(m.is_active_player)),
        ("coordinates"@, point_json(m.coordinates)),
    ];
    assert("name"@[0] != "is_active_player"@[0]);
    assert("name"@[0] != "coordinates"@[0]);
    assert("is_active_player"@[0] != "coordinates"@[0]);
    lemma_field_first(f, "name"@, 0);
    lemma_field_first(f, "is_active_player"@, 1);
    lemma_field_first(f, "coordinates"@, 2);
    lemma_point_round_trip(m.coordinates);
}

/// A listing entry read back from its wire shape is the same entry.
pub proof fn lemma_definition_round_trip(d: GameDefinitionView)
    ensures
        definition_of(definition_json(d)) == Some(d),
{
    reveal_strlit("name");
    reveal_strlit("id");
    reveal_strlit("difficulty");
    let f = seq![
        ("name"@, Json::Str(d.name)),
        ("id"@, Json::Str(d.id)),
        ("difficulty"@, Json::Str(d.difficulty)),
    ];
    assert("name"@[0] != "id"@[0]);
    assert("name"@[0] != "difficulty"@[0]);
    assert("id"@[0] != "difficulty"@[0]);
    lemma_field_first(f, "name"@, 0);
    lemma_field_first(f, "id"@, 1);
    lemma_field_first(f, "difficulty"@, 2);
}

/// An open-games listing read back from its wire shape is the same listing.
pub proof fn lemma_open_games_round_trip(games: Seq<GameDefinitionView>)
    ensures
        open_games_of(open_games_json(games)) == Some(games),
{
    let items = games.map_values(|d: GameDefinitionView| definition_json(d));
    lemma_field_first(seq![("games"@, Json::Array(items))], "games"@, 0);
    assert forall|i: int| 0 <= i < items.len() implies (#[trigger] definition_of(items[i])) == Some(
        games[i],
    ) by {
        lemma_definition_round_trip(games[i]);
    }
    assert(Seq::new(items.len(), |i: int| definition_of(items[i])->0) =~= games);
}

/// A create-game request read back from its wire shape is the same request.
pub proof fn lemma_create_game_round_trip(m: CreateGameView)
    ensures
        create_game_of(create_game_json(m)) == Some(m),
{
    reveal_strlit("game");
    reveal_strlit("difficulty");
    let f = seq![
        ("game"@, Json::Object(seq![("name"@, Json::Str(m.game_name))])),
        ("difficulty"@, Json::Str(m.difficulty)),
    ];
    assert("game"@[0] != "difficulty"@[0]);
    lemma_field_first(f, "game"@, 0);
    lemma_field_first(f, "difficulty"@, 1);
    lemma_field_first(seq![("name"@, Json::Str(m.game_name))], "name"@, 0);
}

/// A join request read back from its wire shape is the same request.
pub proof fn lemma_join_game_round_trip(m: JoinGameView)
    ensures
        join_game_of(join_game_json(m)) == Some(m),
{
    reveal_strlit("game_id");
    reveal_strlit("client_name");
    let f = seq![("game_id"@, Json::Str(m.game_id)), ("client_name"@, Json::Str(m.client_name))];
    assert("game_id"@[0] != "client_name"@[0]);
    lemma_field_first(f, "game_id"@, 0);
    lemma_field_first(f, "client_name"@, 1);
}

// ---------------------------------------------------------------------------
// Encoding and decoding
// ---------------------------------------------------------------------------

fn str_value(s: &String) -> (r: JsonValue)
    ensures
        r.model() == Json::Str(s@),
{
    JsonValue::Str(s.clone())
}

fn bool_value(b: bool) -> (r: JsonValue)
    ensures
        r.model() == Json::Bool(b),
{
    JsonValue::Bool(b)
}

fn index_value(n: usize) -> (r: JsonValue)
    ensures
        r.model() == Json::Number(n as int),
{
    JsonValue::UInt(n as u64)
}

fn small_value(n: i8) -> (r: JsonValue)
    ensures
        r.model() == Json::Number(n as int),
{
    JsonValue::Int(n as i64)
}

/// The string member `key` of an object, copied out.
fn str_member(v: &JsonValue, key: &str) -> (r: Option<String>)
    ensures
        match r {
            Some(s) => v.model().str_at(key@) == Some(s@),
            None => v.model().str_at(key@) is None,
        },
{
    match v.get(&key.to_owned()) {
        Some(x) => match x.as_str() {
            Some(s) => Some(s.clone()),
            None => None,
        },
        None => None,
    }
}

fn bool_member(v: &JsonValue, key: &str) -> (r: Option<bool>)
    ensures
        r == v.model().bool_at(key@),
{
    match v.get(&key.to_owned()) {
        Some(x) => x.as_bool(),
        None => None,
    }
}

impl SerializablePoint {
    pub fn to_json(&self) -> (r: JsonValue)
        ensures
            r.model() == point_json(*self),
    {
        let r = JsonValue::Object(
            vec![
                ("x".to_owned(), index_value(self.x)),
                ("y".to_owned(), index_value(self.y)),
            ],
        );
        assert(r.model()->Object_0 =~= point_json(*self)->Object_0);
        r
    }

    pub fn from_json(v: &JsonValue) -> (r: Option<Self>)
        ensures
            r == point_of(v.model()),
    {
        let x = match v.get(&"x".to_owned()) {
            Some(x) => x.as_i128_in(0, usize::MAX as i128),
            None => None,
        };
        let y = match v.get(&"y".to_owned()) {
            Some(y) => y.as_i128_in(0, usize::MAX as i128),
            None => None,
        };
        match (x, y) {
            (Some(x), Some(y)) => Some(SerializablePoint { x: x as usize, y: y as usize }),
            _ => None,
        }
    }
}

impl SerializableCell {
    pub fn to_json(&self) -> (r: JsonValue)
        ensures
            r.model() == cell_json(*self),
    {
        let r = JsonValue::Object(
            vec![
                ("number".to_owned(), small_value(self.number)),
                ("cleared".to_owned(), bool_value(self.cleared)),
                ("flagged".to_owned(), bool_value(self.flagged)),
                ("coordinates".to_owned(), self.coordinates.to_json()),
            ],
        );
        assert(r.model()->Object_0 =~= cell_json(*self)->Object_0);
        r
    }

    pub fn from_json(v: &JsonValue) -> (r: Option<Self>)
        ensures
            r == cell_of(v.model()),
    {
        let number = match v.get(&"number".to_owned()) {
            Some(n) => n.as_i128_in(i8::MIN as i128, i8::MAX as i128),
            None => None,
        };
        let cleared = bool_member(v, "cleared");
        let flagged = bool_member(v, "flagged");
        let coordinates = match v.get(&"coordinates".to_owned()) {
            Some(c) => SerializablePoint::from_json(c),
            None => None,
        };
        match (number, cleared, flagged, coordinates) {
            (Some(n), Some(cleared), Some(flagged), Some(coordinates)) => Some(
                SerializableCell { number: n as i8, cleared, flagged, coordinates },
            ),
            _ => None,
        }
    }
}

fn row_to_json(row: &Vec<SerializableCell>) -> (r: JsonValue)
    ensures
        r.model() == row_json(row@),
{
    let mut items: Vec<JsonValue> = Vec::new();
    let mut i: usize = 0;
    while i < row.len()
        invariant
            0 <= i <= row.len(),
            items.len() == i,
            forall|j: int| 0 <= j < i ==> #[trigger] items[j].model() == cell_json(row[j]),
        decreases row.len() - i,
    {
        items.push(row[i].to_json());
        i = i + 1;
    }
    let r = JsonValue::Array(items);
    assert forall|j: int| 0 <= j < row.len() implies #[trigger] r.model()->Array_0[j] == row_json(row@)->Array_0[j] by {
        assert(items[j].model() == cell_json(row[j]));
    }
    assert(r.model()->Array_0 =~= row_json(row@)->Array_0);
    r
}

fn row_from_json(v: &JsonValue) -> (r: Option<Vec<SerializableCell>>)
    ensures
        match r {
            Some(row) => row_of(v.model()) == Some(row@),
            None => row_of(v.model()) is None,
        },
{
    let items = match v.as_array() {
        Some(a) => a,
        None => return None,
    };
    let ghost s = v.model()->Array_0;
    let mut out: Vec<SerializableCell> = Vec::new();
    let mut i: usize = 0;
    while i < items.len()
        invariant
            0 <= i <= items.len(),
            v.model() == Json::Array(s),
            s.len() == items.len(),
            forall|j: int| 0 <= j < items.len() ==> #[trigger] s[j] == items[j].model(),
            out.len() == i,
            forall|j: int| 0 <= j < i ==> #[trigger] cell_of(s[j]) == Some(out[j]),
        decreases items.len() - i,
    {
        match SerializableCell::from_json(&items[i]) {
            Some(c) => out.push(c),
            None => {
                assert(cell_of(s[i as int]) is None);
                return None;
            },
        }
        i = i + 1;
    }
    assert(Seq::new(s.len(), |j: int| cell_of(s[j])->0) =~= out@);
    Some(out)
}

impl SerializableBoard {
    pub fn to_json(&self) -> (r: JsonValue)
        ensures
            r.model() == board_json(self@),
    {
        let mut rows: Vec<JsonValue> = Vec::new();
        let mut i: usize = 0;
        while i < self.data.len()
            invariant
                0 <= i <= self.data.len(),
                rows.len() == i,
                forall|j: int| 0 <= j < i ==> #[trigger] rows[j].model() == row_json(self.data[j]@),
            decreases self.data.len() - i,
        {
            rows.push(row_to_json(&self.data[i]));
            i = i + 1;
        }
        let data = JsonValue::Array(rows);
        assert forall|j: int| 0 <= j < self.data.len() implies #[trigger] data.model()->Array_0[j] == row_json(self@[j]) by {
            assert(rows[j].model() == row_json(self.data[j]@));
            assert(self@[j] == self.data[j]@);
        }
        assert(data.model()->Array_0 =~= self@.map_values(
            |row: Seq<SerializableCell>| row_json(row),
        ));
        let r = JsonValue::Object(vec![("data".to_owned(), data)]);
        assert(r.model()->Object_0 =~= board_json(self@)->Object_0);
        r
    }

    pub fn from_json(v: &JsonValue) -> (r: Option<Self>)
        ensures
            match r {
                Some(b) => board_of(v.model()) == Some(b@),
                None => board_of(v.model()) is None,
            },
    {
        let data = match v.get(&"data".to_owned()) {
            Some(d) => d,
            None => return None,
        };
        let rows = match data.as_array() {
            Some(a) => a,
            None => return None,
        };
        let ghost s = data.model()->Array_0;
        let mut out: Vec<Vec<SerializableCell>> = Vec::new();
        let mut i: usize = 0;
        while i < rows.len()
            invariant
                0 <= i <= rows.len(),
                v.model().get("data"@) == Some(Json::Array(s)),
                s.len() == rows.len(),
                forall|j: int| 0 <= j < rows.len() ==> #[trigger] s[j] == rows[j].model(),
                out.len() == i,
                forall|j: int| 0 <= j < i ==> #[trigger] row_of(s[j]) == Some(out[j]@),
            decreases rows.len() - i,
        {
            match row_from_json(&rows[i]) {
                Some(row) => out.push(row),
                None => {
                    assert(row_of(s[i as int]) is None);
                    return None;
                },
            }
            i = i + 1;
        }
        let b = SerializableBoard { data: out };
        assert(Seq::new(s.len(), |j: int| row_of(s[j])->0) =~= b@);
        Some(b)
    }
}

impl GameStartMessage {
    pub fn to_json(&self) -> (r: JsonValue)
        ensures
            r.model() == start_json(self@),
    {
        let r = JsonValue::Object(
            vec![
                ("name".to_owned(), str_value(&self.name)),
                ("board".to_owned(), self.board.to_json()),
                ("is_active".to_owned(), bool_value(self.is_active)),
            ],
        );
        assert(r.model()->Object_0 =~= start_json(self@)->Object_0);
        r
    }

    pub fn from_json(v: &JsonValue) -> (r: Option<Self>)
        ensures
            match r {
                Some(m) => start_of(v.model()) == Some(m@),
                None => start_of(v.model()) is None,
            },
    {
        let name = str_member(v, "name");
        let board = match v.get(&"board".to_owned()) {
            Some(b) => SerializableBoard::from_json(b),
            None => None,
        };
        let is_active = bool_member(v, "is_active");
        match (name, board, is_active) {
            (Some(name), Some(board), Some(is_active)) => Some(GameStartMessage { name, board, is_active }),
            _ => None,
        }
    }
}

impl SimpleMessage {
    pub fn to_json(&self) -> (r: JsonValue)
        ensures
            r.model() == simple_json(self@),
    {
        let r = JsonValue::Object(vec![("name".to_owned(), str_value(&self.name))]);
        assert(r.model()->Object_0 =~= simple_json(self@)->Object_0);
        r
    }

    pub fn from_json(v: &JsonValue) -> (r: Option<Self>)
        ensures
            match r {
                Some(m) => simple_of(v.model()) == Some(m@),
                None => simple_of(v.model()) is None,
            },
    {
        match str_member(v, "name") {
            Some(name) => Some(SimpleMessage { name }),
            None => None,
        }
    }
}

impl IdentificationMessage {
    pub fn to_json(&self) -> (r: JsonValue)
        ensures
            r.model() == identification_json(self@),
    {
        let r = JsonValue::Object(
            vec![
                ("name".to_owned(), str_value(&self.name)),
                ("user_id".to_owned(), str_value(&self.user_id)),
            ],
        );
        assert(r.model()->Object_0 =~= identification_json(self@)->Object_0);
        r
    }

    pub fn from_json(v: &JsonValue) -> (r: Option<Self>)
        ensures
            match r {
                Some(m) => identification_of(v.model()) == Some(m@),
                None => identification_of(v.model()) is None,
            },
    {
        match (str_member(v, "name"), str_member(v, "user_id")) {
            (Some(name), Some(user_id)) => Some(IdentificationMessage { name, user_id }),
            _ => None,
        }
    }
}

impl CellSelectedMessage {
    pub fn to_json(&self) -> (r: JsonValue)
        ensures
            r.model() == cell_selected_json(self@),
    {
        let r = JsonValue::Object(
            vec![
                ("name".to_owned(), str_value(&self.name)),
                ("is_active_player".to_owned(), bool_value(self.is_active_player)),
                ("coordinates".to_owned(), self.coordinates.to_json()),
            ],
        );
        assert(r.model()->Object_0 =~= cell_selected_json(self@)->Object_0);
        r
    }

    pub fn from_json(v: &JsonValue) -> (r: Option<Self>)
        ensures
            match r {
                Some(m) => cell_selected_of(v.model()) == Some(m@),
                None => cell_selected_of(v.model()) is None,
            },
    {
        let name = str_member(v, "name");
        let is_active_player = bool_member(v, "is_active_player");
        let coordinates = match v.get(&"coordinates".to_owned()) {
            Some(c) => SerializablePoint::from_json(c),
            None => None,
        };
        match (name, is_active_player, coordinates) {
            (Some(name), Some(is_active_player), Some(coordinates)) => Some(
                CellSelectedMessage { name, is_active_player, coordinates },
            ),
            _ => None,
        }
    }
}

impl GameDefinition {
    pub fn to_json(&self) -> (r: JsonValue)
        ensures
            r.model() == definition_json(self@),
    {
        let r = JsonValue::Object(
            vec![
                ("name".to_owned(), str_value(&self.name)),
                ("id".to_owned(), str_value(&self.id)),
                ("difficulty".to_owned(), str_value(&self.difficulty)),
            ],
        );
        assert(r.model()->Object_0 =~= definition_json(self@)->Object_0);
        r
    }

    pub fn from_json(v: &JsonValue) -> (r: Option<Self>)
        ensures
            match r {
                Some(d) => definition_of(v.model()) == Some(d@),
                None => definition_of(v.model()) is None,
            },
    {
        match (str_member(v, "name"), str_member(v, "id"), str_member(v, "difficulty")) {
            (Some(name), Some(id), Some(difficulty)) => Some(GameDefinition { name, id, difficulty }),
            _ => None,
        }
    }
}

impl OpenGamesMessage {
    pub fn to_json(&self) -> (r: JsonValue)
        ensures
            r.model() == open_games_json(self@),
    {
        let mut items: Vec<JsonValue> = Vec::new();
        let mut i: usize = 0;
        while i < self.games.len()
            invariant
                0 <= i <= self.games.len(),
                items.len() == i,
                forall|j: int| 0 <= j < i ==> #[trigger] items[j].model() == definition_json(self.games[j]@),
            decreases self.games.len() - i,
        {
            items.push(self.games[i].to_json());
            i = i + 1;
        }
        let games = JsonValue::Array(items);
        assert forall|j: int| 0 <= j < self.games.len() implies #[trigger] games.model()->Array_0[j] == definition_json(self@[j]) by {
            assert(items[j].model() == definition_json(self.games[j]@));
            assert(self@[j] == self.games[j]@);
        }
        assert(games.model()->Array_0 =~= self@.map_values(
            |d: GameDefinitionView| definition_json(d),
        ));
        let r = JsonValue::Object(vec![("games".to_owned(), games)]);
        assert(r.model()->Object_0 =~= open_games_json(self@)->Object_0);
        r
    }

    pub fn from_json(v: &JsonValue) -> (r: Option<Self>)
        ensures
            match r {
                Some(m) => open_games_of(v.model()) == Some(m@),
                None => open_games_of(v.model()) is None,
            },
    {
        let games = match v.get(&"games".to_owned()) {
            Some(g) => g,
            None => return None,
        };
        let items = match games.as_array() {
            Some(a) => a,
            None => return None,
        };
        let ghost s = games.model()->Array_0;
        let mut out: Vec<GameDefinition> = Vec::new();
        let mut i: usize = 0;
        while i < items.len()
            invariant
                0 <= i <= items.len(),
                v.model().get("games"@) == Some(Json::Array(s)),
                s.len() == items.len(),
                forall|j: int| 0 <= j < items.len() ==> #[trigger] s[j] == items[j].model(),
                out.len() == i,
                forall|j: int| 0 <= j < i ==> #[trigger] definition_of(s[j]) == Some(out[j]@),
            decreases items.len() - i,
        {
            match GameDefinition::from_json(&items[i]) {
                Some(d) => out.push(d),
                None => {
                    assert(definition_of(s[i as int]) is None);
                    return None;
                },
            }
            i = i + 1;
        }
        let m = OpenGamesMessage { games: out };
        assert(Seq::new(s.len(), |j: int| definition_of(s[j])->0) =~= m@);
        Some(m)
    }
}

impl CreateGameMessage {
    pub fn to_json(&self) -> (r: JsonValue)
        ensures
            r.model() == create_game_json(self@),
    {
        let game = JsonValue::Object(vec![("name".to_owned(), str_value(&self.game_name))]);
        assert(game.model()->Object_0 =~= seq![("name"@, Json::Str(self.game_name@))]);
        let r = JsonValue::Object(
            vec![("game".to_owned(), game), ("difficulty".to_owned(), str_value(&self.difficulty))],
        );
        assert(r.model()->Object_0 =~= create_game_json(self@)->Object_0);
        r
    }

    pub fn from_json(v: &JsonValue) -> (r: Option<Self>)
        ensures
            match r {
                Some(m) => create_game_of(v.model()) == Some(m@),
                None => create_game_of(v.model()) is None,
            },
    {
        let game_name = match v.get(&"game".to_owned()) {
            Some(g) => str_member(g, "name"),
            None => None,
        };
        match (game_name, str_member(v, "difficulty")) {
            (Some(game_name), Some(difficulty)) => Some(CreateGameMessage { game_name, difficulty }),
            _ => None,
        }
    }
}

impl JoinGameMessage {
    pub fn to_json(&self) -> (r: JsonValue)
        ensures
            r.model() == join_game_json(self@),
    {
        let r = JsonValue::Object(
            vec![
                ("game_id".to_owned(), str_value(&self.game_id)),
                ("client_name".to_owned(), str_value(&self.client_name)),
            ],
        );
        assert(r.model()->Object_0 =~= join_game_json(self@)->Object_0);
        r
    }

    pub fn from_json(v: &JsonValue) -> (r: Option<Self>)
        ensures
            match r {
                Some(m) => join_game_of(v.model()) == Some(m@),
                None => join_game_of(v.model()) is None,
            },
    {
        match (str_member(v, "game_id"), str_member(v, "client_name")) {
            (Some(game_id), Some(client_name)) => Some(JoinGameMessage { game_id, client_name }),
            _ => None,
        }
    }
}

// ---------------------------------------------------------------------------
// Dispatch: each side tries the schemas it may receive in a fixed order and
// takes the first that accepts the document
// ---------------------------------------------------------------------------

/// A message that a client sends to the server.
pub enum Inbound {
    Identification(IdentificationMessage),
    CellSelected(CellSelectedMessage),
    CreateGame(CreateGameMessage),
    JoinGame(JoinGameMessage),
    Simple(SimpleMessage),
}

pub enum InboundView {
    Identification(IdentificationView),
    CellSelected(CellSelectedView),
    CreateGame(CreateGameView),
    JoinGame(JoinGameView),
    Simple(Seq<char>),
}

impl View for Inbound {
    type V = InboundView;

    open spec fn view(&self) -> InboundView {
        match self {
            Inbound::Identification(m) => InboundView::Identification(m@),
            Inbound::CellSelected(m) => InboundView::CellSelected(m@),
            Inbound::CreateGame(m) => InboundView::CreateGame(m@),
            Inbound::JoinGame(m) => InboundView::JoinGame(m@),
            Inbound::Simple(m) => InboundView::Simple(m@),
        }
    }
}

pub open spec fn inbound_json(m: InboundView) -> Json {
    match m {
        InboundView::Identification(m) => identification_json(m),
        InboundView::CellSelected(m) => cell_selected_json(m),
        InboundView::CreateGame(m) => create_game_json(m),
        InboundView::JoinGame(m) => join_game_json(m),
        InboundView::Simple(name) => simple_json(name),
    }
}

/// What the server reads a document as.
pub open spec fn inbound_of(j: Json) -> Option<InboundView> {
    if let Some(m) = identification_of(j) {
        Some(InboundView::Identification(m))
    } else if let Some(m) = cell_selected_of(j) {
        Some(InboundView::CellSelected(m))
    } else if let Some(m) = create_game_of(j) {
        Some(InboundView::CreateGame(m))
    } else if let Some(m) = join_game_of(j) {
        Some(InboundView::JoinGame(m))
    } else if let Some(name) = simple_of(j) {
        Some(InboundView::Simple(name))
    } else {
        None
    }
}

/// A message that the server sends to a client.
pub enum ServerMessage {
    Start(GameStartMessage),
    CellSelected(CellSelectedMessage),
    OpenGames(OpenGamesMessage),
    Simple(SimpleMessage),
}

pub enum ServerMessageView {
    Start(GameStartView),
    CellSelected(CellSelectedView),
    OpenGames(Seq<GameDefinitionView>),
    Simple(Seq<char>),
}

impl View for ServerMessage {
    type V = ServerMessageView;

    open spec fn view(&self) -> ServerMessageView {
        match self {
            ServerMessage::Start(m) => ServerMessageView::Start(m@),
            ServerMessage::CellSelected(m) => ServerMessageView::CellSelected(m@),
            ServerMessage::OpenGames(m) => ServerMessageView::OpenGames(m@),
            ServerMessage::Simple(m) => ServerMessageView::Simple(m@),
        }
    }
}

pub open spec fn server_message_json(m: ServerMessageView) -> Json {
    match m {
        ServerMessageView::Start(m) => start_json(m),
        ServerMessageView::CellSelected(m) => cell_selected_json(m),
        ServerMessageView::OpenGames(games) => open_games_json(games),
        ServerMessageView::Simple(name) => simple_json(name),
    }
}

/// What a client reads a document as.
pub open spec fn server_message_of(j: Json) -> Option<ServerMessageView> {
    if let Some(m) = start_of(j) {
        Some(ServerMessageView::Start(m))
    } else if let Some(m) = cell_selected_of(j) {
        Some(ServerMessageView::CellSelected(m))
    } else if let Some(games) = open_games_of(j) {
        Some(ServerMessageView::OpenGames(games))
    } else if let Some(name) = simple_of(j) {
        Some(ServerMessageView::Simple(name))
    } else {
        None
    }
}

impl Inbound {
    pub fn to_json(&self) -> (r: JsonValue)
        ensures
            r.model() == inbound_json(self@),
    {
        match self {
            Inbound::Identification(m) => m.to_json(),
            Inbound::CellSelected(m) => m.to_json(),
            Inbound::CreateGame(m) => m.to_json(),
            Inbound::JoinGame(m) => m.to_json(),
            Inbound::Simple(m) => m.to_json(),
        }
    }

    pub fn from_json(v: &JsonValue) -> (r: Option<Self>)
        ensures
            match r {
                Some(m) => inbound_of(v.model()) == Some(m@),
                None => inbound_of(v.model()) is None,
            },
    {
        if let Some(m) = IdentificationMessage::from_json(v) {
            Some(Inbound::Identification(m))
        } else if let Some(m) = CellSelectedMessage::from_json(v) {
            Some(Inbound::CellSelected(m))
        } else if let Some(m) = CreateGameMessage::from_json(v) {
            Some(Inbound::CreateGame(m))
        } else if let Some(m) = JoinGameMessage::from_json(v) {
            Some(Inbound::JoinGame(m))
        } else if let Some(m) = SimpleMessage::from_json(v) {
            Some(Inbound::Simple(m))
        } else {
            None
        }
    }
}

impl ServerMessage {
    pub fn to_json(&self) -> (r: JsonValue)
        ensures
            r.model() == server_message_json(self@),
    {
        match self {
            ServerMessage::Start(m) => m.to_json(),
            ServerMessage::CellSelected(m) => m.to_json(),
            ServerMessage::OpenGames(m) => m.to_json(),
            ServerMessage::Simple(m) => m.to_json(),
        }
    }

    pub fn from_json(v: &JsonValue) -> (r: Option<Self>)
        ensures
            match r {
                Some(m) => server_message_of(v.model()) == Some(m@),
                None => server_message_of(v.model()) is None,
            },
    {
        if let Some(m) = GameStartMessage::from_json(v) {
            Some(ServerMessage::Start(m))
        } else if let Some(m) = CellSelectedMessage::from_json(v) {
            Some(ServerMessage::CellSelected(m))
        } else if let Some(m) = OpenGamesMessage::from_json(v) {
            Some(ServerMessage::OpenGames(m))
        } else if let Some(m) = SimpleMessage::from_json(v) {
            Some(ServerMessage::Simple(m))
        } else {
            None
        }
    }
}

/// Every message a client sends is read back by the server as that same message:
/// no schema tried earlier accepts it.
pub proof fn lemma_inbound_round_trip(m: InboundView)
    ensures
        inbound_of(inbound_json(m)) == Some(m),
{
    reveal_strlit("name");
    reveal_strlit("user_id");
    reveal_strlit("is_active_player");
    reveal_strlit("coordinates");
    reveal_strlit("game");
    reveal_strlit("difficulty");
    reveal_strlit("game_id");
    reveal_strlit("client_name");
    let j = inbound_json(m);
    match m {
        InboundView::Identification(i) => {
            lemma_identification_round_trip(i);
        },
        InboundView::CellSelected(c) => {
            let f = j->Object_0;
            assert("user_id"@[0] != "name"@[0] && "user_id"@[0] != "is_active_player"@[0]
                && "user_id"@[0] != "coordinates"@[0]);
            assert(f[0].0 == "name"@ && f[1].0 == "is_active_player"@ && f[2].0 == "coordinates"@);
            lemma_field_absent(f, "user_id"@);
            lemma_cell_selected_round_trip(c);
        },
        InboundView::CreateGame(c) => {
            let f = j->Object_0;
            assert("name"@[0] != "game"@[0] && "name"@[0] != "difficulty"@[0]);
            assert(f[0].0 == "game"@ && f[1].0 == "difficulty"@);
            lemma_field_absent(f, "name"@);
            lemma_create_game_round_trip(c);
        },
        InboundView::JoinGame(c) => {
            let f = j->Object_0;
            assert("name"@[0] != "game_id"@[0] && "name"@[0] != "client_name"@[0]);
            assert("game"@.len() != "game_id"@.len() && "game"@[0] != "client_name"@[0]);
            assert(f[0].0 == "game_id"@ && f[1].0 == "client_name"@);
            lemma_field_absent(f, "name"@);
            lemma_field_absent(f, "game"@);
            lemma_join_game_round_trip(c);
        },
        InboundView::Simple(name) => {
            let f = j->Object_0;
            assert(f[0].0 == "name"@);
            assert("user_id"@[0] != "name"@[0] && "is_active_player"@[0] != "name"@[0]);
            assert("game"@[0] != "name"@[0] && "game_id"@[0] != "name"@[0]);
            lemma_field_absent(f, "user_id"@);
            lemma_field_absent(f, "is_active_player"@);
            lemma_field_absent(f, "game"@);
            lemma_field_absent(f, "game_id"@);
            lemma_simple_round_trip(name);
        },
    }
}

/// Every message the server sends is read back by a client as that same message:
/// no schema tried earlier accepts it.
pub proof fn lemma_server_message_round_trip(m: ServerMessageView)
    ensures
        server_message_of(server_message_json(m)) == Some(m),
{
    reveal_strlit("name");
    reveal_strlit("board");
    reveal_strlit("is_active_player");
    reveal_strlit("coordinates");
    reveal_strlit("games");
    let j = server_message_json(m);
    match m {
        ServerMessageView::Start(s) => {
            lemma_start_round_trip(s);
        },
        ServerMessageView::CellSelected(c) => {
            let f = j->Object_0;
            assert("board"@[0] != "name"@[0] && "board"@[0] != "is_active_player"@[0]
                && "board"@[0] != "coordinates"@[0]);
            assert(f[0].0 == "name"@ && f[1].0 == "is_active_player"@ && f[2].0 == "coordinates"@);
            lemma_field_absent(f, "board"@);
            lemma_cell_selected_round_trip(c);
        },
        ServerMessageView::OpenGames(games) => {
            let f = j->Object_0;
            assert("name"@[0] != "games"@[0]);
            assert(f[0].0 == "games"@);
            lemma_field_absent(f, "name"@);
            lemma_open_games_round_trip(games);
        },
        ServerMessageView::Simple(name) => {
            let f = j->Object_0;
            assert(f[0].0 == "name"@);
            assert("board"@[0] != "name"@[0] && "is_active_player"@[0] != "name"@[0]);
            assert("games"@[0] != "name"@[0]);
            lemma_field_absent(f, "board"@);
            lemma_field_absent(f, "is_active_player"@);
            lemma_field_absent(f, "games"@);
            lemma_simple_round_trip(name);
        },
    }
}

} // verus!
