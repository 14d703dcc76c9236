use minesboomer::codec::{Inbound, ServerMessage};
use minesboomer::json::JsonValue;
use minesboomer::messages::{
    CellSelectedMessage, CreateGameMessage, GameDefinition, GameStartMessage, IdentificationMessage,
    JoinGameMessage, OpenGamesMessage, SerializableBoard, SerializableCell, SerializablePoint,
    SimpleMessage,
};

fn text(s: &str) -> JsonValue {
    JsonValue::Str(s.to_owned())
}

fn object(members: Vec<(&str, JsonValue)>) -> JsonValue {
    JsonValue::Object(members.into_iter().map(|(k, v)| (k.to_owned(), v)).collect())
}

fn member<'a>(v: &'a JsonValue, key: &str) -> &'a JsonValue {
    v.get(&key.to_owned()).expect("member present")
}

#[test]
fn point_round_trips() {
    let p = SerializablePoint { x: 3, y: 7 };
    let v = p.to_json();
    let back = SerializablePoint::from_json(&v).unwrap();
    assert_eq!(back, p);
    assert!(matches!(member(&v, "x"), JsonValue::UInt(3)));
    assert!(matches!(member(&v, "y"), JsonValue::UInt(7)));
}

#[test]
fn cell_selected_round_trips() {
    let m = CellSelectedMessage::new(SerializablePoint { x: 3, y: 7 }, true);
    assert_eq!(m.name, "cell_selected");
    let back = CellSelectedMessage::from_json(&m.to_json()).unwrap();
    assert_eq!(back.name, "cell_selected");
    assert!(back.is_active_player);
    assert_eq!(back.coordinates, SerializablePoint { x: 3, y: 7 });
}

#[test]
fn constructors_set_their_names() {
    assert_eq!(SimpleMessage::new("identify").name, "identify");
    let id = IdentificationMessage::new("Player".to_owned());
    assert_eq!(id.name, "user_identification");
    assert_eq!(id.user_id, "Player");
    let start = GameStartMessage::new(SerializableBoard { data: vec![] }, false);
    assert_eq!(start.name, "start");
    assert!(!start.is_active);
    assert!(start.get_board().data.is_empty());
}

fn sample_board() -> SerializableBoard {
    let mut data = Vec::new();
    for x in 0..3usize {
        let mut column = Vec::new();
        for y in 0..2usize {
            column.push(SerializableCell {
                number: x as i8 - 1,
                cleared: x == 1,
                flagged: x == 2,
                coordinates: SerializablePoint { x, y },
            });
        }
        data.push(column);
    }
    SerializableBoard { data }
}

#[test]
fn game_start_round_trips_with_its_board() {
    let m = GameStartMessage::new(sample_board(), true);
    let back = GameStartMessage::from_json(&m.to_json()).unwrap();
    assert_eq!(back.name, "start");
    assert!(back.is_active);
    assert_eq!(back.board.data, sample_board().data);
    assert_eq!(back.board.data[0][1].number, -1);
}

#[test]
fn negative_cell_numbers_are_kept() {
    let c = SerializableCell {
        number: -1,
        cleared: false,
        flagged: true,
        coordinates: SerializablePoint { x: 0, y: 4 },
    };
    assert_eq!(SerializableCell::from_json(&c.to_json()), Some(c));
}

#[test]
fn open_games_round_trip() {
    let m = OpenGamesMessage::new(vec![
        GameDefinition::new("g1".to_owned(), "A's Game".to_owned(), "Easy".to_owned()),
        GameDefinition::new("g2".to_owned(), "Other".to_owned(), "Hard".to_owned()),
    ]);
    let back = OpenGamesMessage::from_json(&m.to_json()).unwrap();
    assert_eq!(back.games.len(), 2);
    assert_eq!(back.games[0].id, "g1");
    assert_eq!(back.games[0].name, "A's Game");
    assert_eq!(back.games[1].difficulty, "Hard");
}

#[test]
fn empty_open_games_round_trip() {
    let m = OpenGamesMessage::new(vec![]);
    let back = OpenGamesMessage::from_json(&m.to_json()).unwrap();
    assert!(back.games.is_empty());
}

#[test]
fn every_inbound_schema_is_read_back_as_itself() {
    let id = Inbound::Identification(IdentificationMessage::new("Ann".to_owned()));
    assert!(matches!(Inbound::from_json(&id.to_json()), Some(Inbound::Identification(m)) if m.user_id == "Ann"));

    let cell = Inbound::CellSelected(CellSelectedMessage::new(SerializablePoint { x: 1, y: 2 }, false));
    assert!(matches!(Inbound::from_json(&cell.to_json()), Some(Inbound::CellSelected(m)) if m.coordinates.y == 2));

    let create = Inbound::CreateGame(CreateGameMessage::new("Mine".to_owned(), "Medium".to_owned()));
    assert!(matches!(Inbound::from_json(&create.to_json()), Some(Inbound::CreateGame(m)) if m.game_name == "Mine" && m.difficulty == "Medium"));

    let join = Inbound::JoinGame(JoinGameMessage::new("g7".to_owned(), "Bob".to_owned()));
    assert!(matches!(Inbound::from_json(&join.to_json()), Some(Inbound::JoinGame(m)) if m.game_id == "g7" && m.client_name == "Bob"));

    let simple = Inbound::Simple(SimpleMessage::new("games_request"));
    assert!(matches!(Inbound::from_json(&simple.to_json()), Some(Inbound::Simple(m)) if m.name == "games_request"));
}

#[test]
fn every_server_schema_is_read_back_as_itself() {
    let start = ServerMessage::Start(GameStartMessage::new(sample_board(), false));
    assert!(matches!(ServerMessage::from_json(&start.to_json()), Some(ServerMessage::Start(m)) if !m.is_active));

    let cell = ServerMessage::CellSelected(CellSelectedMessage::new(SerializablePoint { x: 3, y: 7 }, true));
    assert!(matches!(ServerMessage::from_json(&cell.to_json()), Some(ServerMessage::CellSelected(m)) if m.coordinates.x == 3));

    let open = ServerMessage::OpenGames(OpenGamesMessage::new(vec![]));
    assert!(matches!(ServerMessage::from_json(&open.to_json()), Some(ServerMessage::OpenGames(m)) if m.games.is_empty()));

    let simple = ServerMessage::Simple(SimpleMessage::new("host_disconnected"));
    assert!(matches!(ServerMessage::from_json(&simple.to_json()), Some(ServerMessage::Simple(m)) if m.name == "host_disconnected"));
}

#[test]
fn schemas_are_matched_in_priority_order() {
    // carries the members of both an identification and a plain name
    let doc = object(vec![("name", text("user_identification")), ("user_id", text("Zed"))]);
    assert!(matches!(Inbound::from_json(&doc), Some(Inbound::Identification(_))));
    // unknown members are ignored
    let doc = object(vec![("name", text("games_request")), ("extra", JsonValue::Bool(true))]);
    assert!(matches!(Inbound::from_json(&doc), Some(Inbound::Simple(_))));
}

#[test]
fn malformed_documents_are_not_read() {
    assert!(Inbound::from_json(&JsonValue::Null).is_none());
    assert!(Inbound::from_json(&object(vec![("name", JsonValue::UInt(1))])).is_none());
    let bad_point = object(vec![
        ("name", text("cell_selected")),
        ("is_active_player", JsonValue::Bool(true)),
        ("coordinates", object(vec![("x", JsonValue::Int(-1)), ("y", JsonValue::UInt(0))])),
    ]);
    assert!(CellSelectedMessage::from_json(&bad_point).is_none());
    let big = object(vec![
        ("number", JsonValue::UInt(200)),
        ("cleared", JsonValue::Bool(false)),
        ("flagged", JsonValue::Bool(false)),
        ("coordinates", SerializablePoint { x: 0, y: 0 }.to_json()),
    ]);
    assert!(SerializableCell::from_json(&big).is_none());
}
