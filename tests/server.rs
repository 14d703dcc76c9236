use minesboomer::codec::{Inbound, ServerMessage};
use minesboomer::json::JsonValue;
use minesboomer::messages::{
    CellSelectedMessage, CreateGameMessage, GameStartMessage, IdentificationMessage,
    JoinGameMessage, SerializableBoard, SerializablePoint, SimpleMessage,
};
use minesboomer::registry::ConnectionRegistry;
use minesboomer::server::{FreshIds, Outgoing, Server, SessionError};
use minesboomer::turn::Difficulty;

fn ids(player: &str, session: &str) -> FreshIds {
    FreshIds::new(player.to_owned(), session.to_owned())
}

fn start_of(o: &Outgoing) -> &GameStartMessage {
    match &o.message {
        ServerMessage::Start(m) => m,
        _ => panic!("expected a game start"),
    }
}

fn cell_selected_of(o: &Outgoing) -> &CellSelectedMessage {
    match &o.message {
        ServerMessage::CellSelected(m) => m,
        _ => panic!("expected a move"),
    }
}

fn notice_of(o: &Outgoing) -> &str {
    match &o.message {
        ServerMessage::Simple(m) => &m.name,
        _ => panic!("expected a notice"),
    }
}

fn started_game(server: &mut Server) -> (Outgoing, Outgoing) {
    server.create_named_session(1, "A's Game".to_owned(), Difficulty::Easy, &ids("alice", "g1")).unwrap();
    let mut out = server.join_session(2, &"g1".to_owned(), "Bob".to_owned(), &ids("bob", "unused")).unwrap();
    assert_eq!(out.len(), 2);
    let second = out.pop().unwrap();
    let first = out.pop().unwrap();
    (first, second)
}

fn is_mine(board: &SerializableBoard, x: usize, y: usize) -> bool {
    board.data[x][y].number < 0
}

#[test]
fn second_identification_joins_first_pending_game() {
    let mut server = Server::new();
    let out = server.identify(10, "Ann".to_owned(), &ids("ann-id", "g1")).unwrap();
    assert!(out.is_empty());
    assert_eq!(server.list_open_sessions().len(), 1);
    let out = server.identify(20, "Ben".to_owned(), &ids("ben-id", "g2")).unwrap();
    assert_eq!(out.len(), 2);
    assert_eq!(out[0].to, 10);
    assert_eq!(out[1].to, 20);
    let (a, b) = (start_of(&out[0]), start_of(&out[1]));
    assert_eq!(a.name, "start");
    assert_eq!(a.board.data, b.board.data);
    assert!(a.is_active != b.is_active);
    assert!(server.list_open_sessions().is_empty());
}

#[test]
fn repeated_identification_only_renames() {
    let mut server = Server::new();
    server.identify(10, "Ann".to_owned(), &ids("ann-id", "g1")).unwrap();
    let out = server.identify(10, "Anna".to_owned(), &ids("anna-id", "g3")).unwrap();
    assert!(out.is_empty());
    let open = server.list_open_sessions();
    assert_eq!(open.len(), 1);
    assert_eq!(open[0].id, "g1");
    assert_eq!(open[0].name, "Anna");
}

#[test]
fn games_request_on_empty_server_lists_nothing() {
    let mut server = Server::new();
    let request = Inbound::Simple(SimpleMessage::new("games_request")).to_json();
    let out = server.handle_message(5, &request, &ids("p", "g"));
    assert_eq!(out.len(), 1);
    assert_eq!(out[0].to, 5);
    match &out[0].message {
        ServerMessage::OpenGames(m) => assert!(m.games.is_empty()),
        _ => panic!("expected the open games"),
    }
}

#[test]
fn games_request_after_one_creation_lists_it() {
    let mut server = Server::new();
    let create = Inbound::CreateGame(CreateGameMessage::new("Duel".to_owned(), "Medium".to_owned())).to_json();
    let out = server.handle_message(5, &create, &ids("p", "g"));
    assert_eq!(out.len(), 1);
    assert_eq!(notice_of(&out[0]), "waiting_enemy");
    let request = Inbound::Simple(SimpleMessage::new("games_request")).to_json();
    let out = server.handle_message(6, &request, &ids("q", "h"));
    match &out[0].message {
        ServerMessage::OpenGames(m) => {
            assert_eq!(m.games.len(), 1);
            assert_eq!(m.games[0].name, "Duel");
            assert_eq!(m.games[0].id, "g");
            assert_eq!(m.games[0].difficulty, "Medium");
        },
        _ => panic!("expected the open games"),
    }
}

#[test]
fn named_game_scenario() {
    let mut server = Server::new();
    let out = server.create_named_session(1, "A's Game".to_owned(), Difficulty::Easy, &ids("alice", "g1")).unwrap();
    assert_eq!(out.len(), 1);
    assert_eq!(out[0].to, 1);
    assert_eq!(notice_of(&out[0]), "waiting_enemy");
    let open = server.list_open_sessions();
    assert_eq!(open.len(), 1);
    assert_eq!(open[0].name, "A's Game");
    assert_eq!(open[0].difficulty, "Easy");
    assert_eq!(open[0].id, "g1");

    let out = server.join_session(2, &open[0].id, "Bob".to_owned(), &ids("bob", "unused")).unwrap();
    let (alice, bob) = (start_of(&out[0]), start_of(&out[1]));
    assert_eq!(out[0].to, 1);
    assert_eq!(out[1].to, 2);
    assert!(alice.is_active);
    assert!(!bob.is_active);
    assert_eq!(alice.board.data, bob.board.data);
    assert_eq!(alice.board.data.len(), 10);
    assert_eq!(alice.board.data[0].len(), 10);
    let board = alice.board.clone();

    // not Bob's turn
    let refused = server.apply_move(2, SerializablePoint { x: 2, y: 2 });
    assert!(matches!(refused, Err(SessionError::OutOfTurn)));

    let (result, out) = server.apply_move(1, SerializablePoint { x: 2, y: 2 }).unwrap();
    assert!(result.accepted);
    assert_eq!(out.len(), 2);
    let (to_alice, to_bob) = (cell_selected_of(&out[0]), cell_selected_of(&out[1]));
    assert_eq!(to_alice.coordinates, SerializablePoint { x: 2, y: 2 });
    assert_eq!(to_bob.coordinates, SerializablePoint { x: 2, y: 2 });
    assert_eq!(to_alice.name, "cell_selected");
    if is_mine(&board, 2, 2) {
        assert!(to_alice.is_active_player && !to_bob.is_active_player);
        assert_eq!(result.new_active_player, "alice");
        assert_eq!(result.remaining_mines, 10);
    } else {
        assert!(!to_alice.is_active_player && to_bob.is_active_player);
        assert_eq!(result.new_active_player, "bob");
        assert_eq!(result.remaining_mines, 11);
    }
    assert!(result.winner.is_none());
}

#[test]
fn host_loss_notifies_guest_and_ends_moves() {
    let mut server = Server::new();
    started_game(&mut server);
    let out = server.remove_player(1);
    assert_eq!(out.len(), 1);
    assert_eq!(out[0].to, 2);
    assert_eq!(notice_of(&out[0]), "host_disconnected");
    assert!(matches!(server.apply_move(2, SerializablePoint { x: 0, y: 0 }), Err(SessionError::PlayerNotFound)));
    assert!(server.list_open_sessions().is_empty());
}

#[test]
fn guest_loss_notifies_host_and_relists_game() {
    let mut server = Server::new();
    started_game(&mut server);
    let out = server.remove_player(2);
    assert_eq!(out.len(), 1);
    assert_eq!(out[0].to, 1);
    assert_eq!(notice_of(&out[0]), "client_disconnected");
    let open = server.list_open_sessions();
    assert_eq!(open.len(), 1);
    assert_eq!(open[0].id, "g1");
    assert_eq!(open[0].name, "A's Game");
    assert!(matches!(server.apply_move(1, SerializablePoint { x: 0, y: 0 }), Err(SessionError::NotStarted)));
    // the host, identifying again under a new name, is listed under it
    server.identify(1, "Alice".to_owned(), &ids("x", "y")).unwrap();
    assert_eq!(server.list_open_sessions()[0].name, "Alice");
}

#[test]
fn unknown_connection_removal_changes_nothing() {
    let mut server = Server::new();
    server.create_named_session(1, "Solo".to_owned(), Difficulty::Hard, &ids("p", "g")).unwrap();
    assert!(server.remove_player(99).is_empty());
    assert_eq!(server.list_open_sessions().len(), 1);
    assert_eq!(server.list_open_sessions()[0].difficulty, "Hard");
}

#[test]
fn each_session_error_has_its_case() {
    let mut server = Server::new();
    assert!(matches!(
        server.join_session(3, &"nope".to_owned(), "C".to_owned(), &ids("c", "x")),
        Err(SessionError::SessionNotFound)
    ));
    assert!(matches!(server.apply_move(3, SerializablePoint { x: 0, y: 0 }), Err(SessionError::PlayerNotFound)));
    started_game(&mut server);
    assert!(matches!(
        server.join_session(3, &"g1".to_owned(), "C".to_owned(), &ids("c", "x")),
        Err(SessionError::SessionFull)
    ));
    assert!(matches!(
        server.create_named_session(1, "Again".to_owned(), Difficulty::Easy, &ids("a2", "g9")),
        Err(SessionError::AlreadyInSession)
    ));
    assert!(matches!(
        server.create_named_session(4, "Clash".to_owned(), Difficulty::Easy, &ids("d", "g1")),
        Err(SessionError::IdInUse)
    ));
    server.create_named_session(4, "Wait".to_owned(), Difficulty::Easy, &ids("d", "g4")).unwrap();
    assert!(matches!(server.apply_move(4, SerializablePoint { x: 0, y: 0 }), Err(SessionError::NotStarted)));
    assert!(matches!(
        server.join_session(1, &"g4".to_owned(), "A".to_owned(), &ids("e", "x")),
        Err(SessionError::AlreadyInSession)
    ));
    assert!(matches!(
        server.join_session(5, &"g4".to_owned(), "E".to_owned(), &ids("d", "x")),
        Err(SessionError::IdInUse)
    ));
    assert!(matches!(server.apply_move(2, SerializablePoint { x: 0, y: 0 }), Err(SessionError::OutOfTurn)));
}

#[test]
fn messages_from_the_wire_drive_the_server() {
    let mut server = Server::new();
    let hello = server.request_identification(7);
    assert_eq!(hello.to, 7);
    assert_eq!(notice_of(&hello), "identify");
    let ident = Inbound::Identification(IdentificationMessage::new("Ann".to_owned())).to_json();
    assert!(server.handle_message(7, &ident, &ids("a", "g")).is_empty());
    let open = server.list_open_sessions();
    assert_eq!(open[0].name, "Ann");
    let join = Inbound::JoinGame(JoinGameMessage::new("g".to_owned(), "Bo".to_owned())).to_json();
    let out = server.handle_message(8, &join, &ids("b", "h"));
    assert_eq!(out.len(), 2);
    let active_conn = if start_of(&out[0]).is_active { 7 } else { 8 };
    let mv = Inbound::CellSelected(CellSelectedMessage::new(SerializablePoint { x: 0, y: 0 }, true)).to_json();
    let out = server.handle_message(active_conn, &mv, &ids("c", "i"));
    assert_eq!(out.len(), 2);
    // a move by the player whose turn it is not is refused, and sends nothing
    let waiting_conn = if cell_selected_of(&out[0]).is_active_player { 8 } else { 7 };
    let mv = Inbound::CellSelected(CellSelectedMessage::new(SerializablePoint { x: 9, y: 9 }, true)).to_json();
    assert!(server.handle_message(waiting_conn, &mv, &ids("c", "i")).is_empty());
    // documents no schema accepts are dropped
    assert!(server.handle_message(7, &JsonValue::Null, &ids("d", "j")).is_empty());
    let unknown = Inbound::CreateGame(CreateGameMessage::new("X".to_owned(), "Impossible".to_owned())).to_json();
    assert!(server.handle_message(9, &unknown, &ids("e", "k")).is_empty());
}

#[test]
fn random_ids_are_drawn() {
    let mut server = Server::new();
    let ident = Inbound::Identification(IdentificationMessage::new("Ann".to_owned())).to_json();
    assert!(server.handle_received_message(7, &ident).is_empty());
    let open = server.list_open_sessions();
    assert_eq!(open.len(), 1);
    assert_eq!(open[0].id.len(), 36);
    let fresh = FreshIds::generate();
    assert_ne!(fresh.player, fresh.session);
}

#[test]
fn difficulty_names() {
    assert_eq!(Difficulty::Easy.name(), "Easy");
    assert_eq!(Difficulty::Medium.name(), "Medium");
    assert_eq!(Difficulty::Hard.name(), "Hard");
    assert_eq!(Difficulty::from_name(&"Hard".to_owned()), Some(Difficulty::Hard));
    assert_eq!(Difficulty::from_name(&"easy".to_owned()), None);
}

#[test]
fn hard_games_have_thirty_columns() {
    let mut server = Server::new();
    server.create_named_session(1, "Big".to_owned(), Difficulty::Hard, &ids("a", "g")).unwrap();
    let out = server.join_session(2, &"g".to_owned(), "B".to_owned(), &ids("b", "h")).unwrap();
    let board = &start_of(&out[0]).board;
    assert_eq!(board.data.len(), 30);
    assert_eq!(board.data[29].len(), 16);
    let mines: usize = board.data.iter().flatten().filter(|c| c.number < 0).count();
    assert_eq!(mines, 99);
    assert_eq!(board.data[4][7].coordinates, SerializablePoint { x: 4, y: 7 });
}

#[test]
fn registry_keeps_one_channel_per_connection() {
    let mut registry: ConnectionRegistry<&str> = ConnectionRegistry::new();
    registry.register(1, "one");
    registry.register(2, "two");
    registry.register(1, "uno");
    assert_eq!(registry.get(1), Some(&"uno"));
    assert_eq!(registry.unregister(2), Some("two"));
    assert_eq!(registry.get(2), None);
    assert_eq!(registry.unregister(2), None);
}

#[test]
fn remaining_mines_never_rise_over_a_game() {
    let mut server = Server::new();
    let (to_host, _) = started_game(&mut server);
    let board = start_of(&to_host).board.clone();
    let mut active = 1u64;
    let mut remaining = 11u32;
    'play: for x in 0..10usize {
        for y in 0..10usize {
            let (result, out) = server.apply_move(active, SerializablePoint { x, y }).unwrap();
            assert!(result.remaining_mines <= remaining);
            remaining = result.remaining_mines;
            let host_turn = cell_selected_of(&out[0]).is_active_player;
            assert!(host_turn != cell_selected_of(&out[1]).is_active_player);
            assert_eq!(result.new_active_player, if host_turn { "alice" } else { "bob" });
            if is_mine(&board, x, y) {
                // the player who found a mine keeps the turn
                assert_eq!(host_turn, active == 1);
            }
            active = if host_turn { 1 } else { 2 };
            if result.winner.is_some() {
                break 'play;
            }
        }
    }
    assert!(remaining < 11);
}

#[test]
fn each_connection_is_found_in_its_game() {
    let mut server = Server::new();
    assert_eq!(server.session_of(1), None);
    started_game(&mut server);
    assert_eq!(server.session_of(1), Some("g1".to_owned()));
    assert_eq!(server.session_of(2), Some("g1".to_owned()));
    server.remove_player(2);
    assert_eq!(server.session_of(2), None);
    assert_eq!(server.session_of(1), Some("g1".to_owned()));
}
