use minesboomer::game::{Game, Player};
use minesboomer::messages::SerializablePoint;
use minesboomer::turn::Difficulty;

fn host() -> Player {
    Player::new("h".to_owned(), "Host".to_owned(), "g".to_owned(), 1)
}

#[test]
fn player_accessors() {
    let p = host();
    assert_eq!(p.get_id(), "h");
    assert_eq!(p.get_name(), "Host");
    assert_eq!(p.game_id(), "g");
    assert_eq!(p.get_address(), 1);
}

#[test]
fn pending_game_has_host_only() {
    let game = Game::new(host(), "g".to_owned(), Difficulty::Medium);
    assert_eq!(game.get_id(), "g");
    assert_eq!(game.get_difficulty(), Difficulty::Medium);
    assert!(!game.has_client());
    assert!(game.get_client().is_none());
    assert_eq!(game.get_players().len(), 1);
    assert_eq!(game.get_host().get_name(), "Host");
}

#[test]
fn seating_a_client_starts_the_game_with_the_host_to_move() {
    let mut game = Game::new(host(), "g".to_owned(), Difficulty::Medium);
    game.set_client(Player::new("c".to_owned(), "Guest".to_owned(), "g".to_owned(), 2));
    assert!(game.has_client());
    let players = game.get_players();
    assert_eq!(players.len(), 2);
    assert_eq!(players[1].get_name(), "Guest");
    assert_eq!(game.active_player_id(), "h");
    assert!(game.is_player_active(&"h".to_owned()));
    assert!(!game.is_player_active(&"c".to_owned()));
    let board = game.get_board();
    assert_eq!(board.data.len(), 16);
    assert!(board.data.iter().all(|column| column.len() == 16));
    assert_eq!(board.data.iter().flatten().filter(|c| c.number < 0).count(), 41);
    assert_eq!(game.remaining_mines(), 41);
    assert!(game.winner_id().is_none());
}

#[test]
fn a_move_on_a_safe_cell_passes_the_turn() {
    let mut game = Game::new(host(), "g".to_owned(), Difficulty::Easy);
    game.set_client(Player::new("c".to_owned(), "Guest".to_owned(), "g".to_owned(), 2));
    let board = game.get_board();
    let mut safe = None;
    for (x, column) in board.data.iter().enumerate() {
        for (y, cell) in column.iter().enumerate() {
            if cell.number >= 0 && safe.is_none() {
                safe = Some(SerializablePoint { x, y });
            }
        }
    }
    let at = safe.unwrap();
    game.player_selected(at);
    assert_eq!(game.active_player_id(), "c");
    let after = game.get_board();
    assert!(after.data[at.x][at.y].cleared);
    assert_eq!(game.remaining_mines(), 11);
    // the same cell again: nothing changes, the turn stays
    game.player_selected(at);
    assert_eq!(game.active_player_id(), "c");
    assert_eq!(game.get_board().data, after.data);
    // off the board: the turn passes, the board stays
    game.player_selected(SerializablePoint { x: 50, y: 0 });
    assert_eq!(game.active_player_id(), "h");
    assert_eq!(game.get_board().data, after.data);
}

#[test]
fn a_mine_keeps_the_turn_and_a_full_game_has_a_winner() {
    let mut game = Game::new(host(), "g".to_owned(), Difficulty::Easy);
    game.set_client(Player::new("c".to_owned(), "Guest".to_owned(), "g".to_owned(), 2));
    let board = game.get_board();
    let mut mines = Vec::new();
    for (x, column) in board.data.iter().enumerate() {
        for (y, cell) in column.iter().enumerate() {
            if cell.number < 0 {
                mines.push(SerializablePoint { x, y });
            }
        }
    }
    for (k, at) in mines.iter().enumerate() {
        assert!(game.winner_id().is_none());
        game.player_selected(*at);
        assert_eq!(game.active_player_id(), "h");
        assert_eq!(game.remaining_mines() as usize, 11 - k - 1);
        if game.winner_id().is_some() {
            break;
        }
    }
    assert_eq!(game.winner_id(), Some("h".to_owned()));
}

#[test]
fn renaming_and_removing_the_client() {
    let mut game = Game::new(host(), "g".to_owned(), Difficulty::Easy);
    game.set_client(Player::new("c".to_owned(), "Guest".to_owned(), "g".to_owned(), 2));
    game.rename_player(2, "Visitor".to_owned());
    assert_eq!(game.get_client().unwrap().get_name(), "Visitor");
    game.rename_player(1, "Owner".to_owned());
    assert_eq!(game.get_host().get_name(), "Owner");
    game.remove_client();
    assert!(!game.has_client());
    assert_eq!(game.get_players().len(), 1);
}
