use vstd::prelude::*;

use minesweeper_multiplayer::Multiplayer;

use crate::messages::{SerializableBoard, SerializablePoint};
use crate::turn::{
    board_cells, cells_in_place, current_player_id, first_active, has_shape, hidden_mines,
    on_board, only_cleared, passes_turn, turn_moved, winner_of, zeros_open,
    lemma_hidden_mines_bound, remaining_mines, seats, select_cell, snapshot, start_turns,
    winner_id, Difficulty,
};

verus! {

/// A participant of a game: a display name bound to a connection.
pub struct Player {
    id: String,
    name: String,
    game_id: String,
    address: u64,
}

pub struct PlayerView {
    pub id: Seq<char>,
    pub name: Seq<char>,
    pub game_id: Seq<char>,
    pub address: u64,
}

impl View for Player {
    type V = PlayerView;

    closed spec fn view(&self) -> PlayerView {
        PlayerView { id: self.id@, name: self.name@, game_id: self.game_id@, address: self.address }
    }
}

impl Player {
    pub fn new(id: String, name: String, game_id: String, address: u64) -> (r: Self)
        ensures
            r@ == (PlayerView { id: id@, name: name@, game_id: game_id@, address }),
    {
        Player { id, name, game_id, address }
    }

    pub fn game_id(&self) -> (r: String)
        ensures
            r@ == self@.game_id,
    {
        self.game_id.clone()
    }

    pub fn get_id(&self) -> (r: String)
        ensures
            r@ == self@.id,
    {
        self.id.clone()
    }

    pub fn get_address(&self) -> (r: u64)
        ensures
            r == self@.address,
    {
        self.address
    }

    pub fn get_name(&self) -> (r: &String)
        ensures
            r@ == self@.name,
    {
        &self.name
    }

    pub fn set_name(&mut self, name: String)
        ensures
            final(self)@ == (PlayerView { name: name@, ..old(self)@ }),
    {
        self.name = name;
    }
}

/// A game: pending while it has a host only, started once a second player joined.
pub struct Game {
    id: String,
    difficulty: Difficulty,
    host: Player,
    client: Option<Player>,
    multi_game: Option<Multiplayer>,
}

pub struct GameView {
    pub id: Seq<char>,
    pub difficulty: Difficulty,
    pub host: PlayerView,
    pub client: Option<PlayerView>,
    pub turns: Option<Multiplayer>,
}

impl GameView {
    pub open spec fn is_pending(self) -> bool {
        self.client is None
    }

    /// `conn` plays in this game, as host or as second player.
    pub open spec fn has_address(self, conn: u64) -> bool {
        self.host.address == conn || (self.client matches Some(c) && c.address == conn)
    }

    /// Both players belong to this game, under distinct ids and connections.
    pub open spec fn seats_ok(self) -> bool {
        &&& self.host.game_id == self.id
        &&& self.client matches Some(c) ==> {
            &&& c.game_id == self.id
            &&& c.id != self.host.id
            &&& c.address != self.host.address
        }
    }

    /// In a started game: whether it is the host's turn.
    pub open spec fn host_turn(self) -> bool {
        seats(self.turns->0)[0].1
    }

    /// In a started game: the id of the player whose turn it is.
    pub open spec fn active_id(self) -> Seq<char> {
        if self.host_turn() {
            self.host.id
        } else {
            self.client->0.id
        }
    }

    /// A game is started exactly when it has a second player; the turn authority then
    /// knows the two players by their ids, in seat order host first.
    pub open spec fn wf(self) -> bool {
        &&& self.seats_ok()
        &&& self.client is Some <==> self.turns is Some
        &&& self.client matches Some(c) ==> {
            &&& seats(self.turns->0).len() == 2
            &&& seats(self.turns->0)[0].0 == self.host.id
            &&& seats(self.turns->0)[1].0 == c.id
            &&& seats(self.turns->0)[0].1 != seats(self.turns->0)[1].1
            &&& has_shape(
                board_cells(self.turns->0),
                self.difficulty.width(),
                self.difficulty.height(),
            )
            &&& cells_in_place(board_cells(self.turns->0))
            &&& zeros_open(board_cells(self.turns->0))
        }
    }
}

impl View for Game {
    type V = GameView;

    closed spec fn view(&self) -> GameView {
        GameView {
            id: self.id@,
            difficulty: self.difficulty,
            host: self.host@,
            client: match &self.client {
                Some(c) => Some(c@),
                None => None,
            },
            turns: self.multi_game,
        }
    }
}

impl Game {
    /// A pending game hosted by `player`.
    pub fn new(player: Player, id: String, difficulty: Difficulty) -> (r: Self)
        requires
            player@.game_id == id@,
        ensures
            r@ == (GameView { id: id@, difficulty, host: player@, client: None, turns: None }),
            r@.wf(),
    {
        Game { id, difficulty, host: player, client: None, multi_game: None }
    }

    /// Deals a fresh board to the host and the second player; the host moves first.
    pub fn generate_multi_game(&mut self)
        requires
            old(self)@.seats_ok(),
            old(self)@.client is Some,
        ensures
            final(self)@.wf(),
            final(self)@.turns is Some,
            final(self)@.host_turn(),
            winner_of(final(self)@.turns->0) is None,
            final(self)@ == (GameView { turns: final(self)@.turns, ..old(self)@ }),
    {
        match &self.client {
            Some(client) => {
                let turns = start_turns(
                    &self.host.id,
                    &self.host.name,
                    &client.id,
                    &client.name,
                    self.difficulty,
                );
                self.multi_game = Some(turns);
            },
            None => {},
        }
    }

    /// A copy of the board of a started game.
    pub fn get_board(&self) -> (r: SerializableBoard)
        requires
            self@.wf(),
            self@.turns is Some,
        ensures
            r@ == board_cells(self@.turns->0),
    {
        match &self.multi_game {
            Some(m) => snapshot(
                m,
                Ghost(self.difficulty.width()),
                Ghost(self.difficulty.height()),
            ),
            None => SerializableBoard { data: Vec::new() },
        }
    }

    pub fn get_id(&self) -> (r: String)
        ensures
            r@ == self@.id,
    {
        self.id.clone()
    }

    pub fn get_client(&self) -> (r: Option<&Player>)
        ensures
            match r {
                Some(c) => self@.client == Some(c@),
                None => self@.client is None,
            },
    {
        match &self.client {
            Some(c) => Some(c),
            None => None,
        }
    }

    /// Seats `client` as the second player and starts the game.
    pub fn set_client(&mut self, client: Player)
        requires
            old(self)@.wf(),
            old(self)@.client is None,
            client@.game_id == old(self)@.id,
            client@.id != old(self)@.host.id,
            client@.address != old(self)@.host.address,
        ensures
            final(self)@.wf(),
            final(self)@.turns is Some,
            final(self)@.host_turn(),
            winner_of(final(self)@.turns->0) is None,
            final(self)@ == (GameView {
                client: Some(client@),
                turns: final(self)@.turns,
                ..old(self)@
            }),
    {
        self.client = Some(client);
        self.generate_multi_game();
    }

    /// Takes the second player out; the game is pending again.
    pub fn remove_client(&mut self)
        requires
            old(self)@.wf(),
        ensures
            final(self)@.wf(),
            final(self)@ == (GameView { client: None, turns: None, ..old(self)@ }),
    {
        self.client = None;
        self.multi_game = None;
    }

    pub fn has_client(&self) -> (r: bool)
        ensures
            r == (self@.client is Some),
    {
        self.client.is_some()
    }

    pub fn get_host(&self) -> (r: &Player)
        ensures
            r@ == self@.host,
    {
        &self.host
    }

    /// Changes the display name of the player at `conn`.
    pub fn rename_player(&mut self, conn: u64, name: String)
        requires
            old(self)@.wf(),
        ensures
            final(self)@.wf(),
            final(self)@ == rename_in(old(self)@, conn, name@),
    {
        if self.host.address == conn {
            self.host.set_name(name);
        } else {
            match &mut self.client {
                Some(c) => {
                    if c.address == conn {
                        c.set_name(name);
                    }
                },
                None => {},
            }
        }
    }

    pub fn get_difficulty(&self) -> (r: Difficulty)
        ensures
            r == self@.difficulty,
    {
        self.difficulty
    }

    /// Hands a move to the turn authority of a started game.
    pub fn player_selected(&mut self, coordinates: SerializablePoint)
        requires
            old(self)@.wf(),
            old(self)@.turns is Some,
        ensures
            final(self)@.wf(),
            final(self)@.turns is Some,
            turn_moved(
                seats(old(self)@.turns->0),
                seats(final(self)@.turns->0),
                passes_turn(board_cells(old(self)@.turns->0), coordinates),
            ),
            only_cleared(board_cells(old(self)@.turns->0), board_cells(final(self)@.turns->0)),
            on_board(board_cells(old(self)@.turns->0), coordinates) ==> board_cells(
                final(self)@.turns->0,
            )[coordinates.x as int][coordinates.y as int].cleared,
            !on_board(board_cells(old(self)@.turns->0), coordinates) || board_cells(
                old(self)@.turns->0,
            )[coordinates.x as int][coordinates.y as int].cleared ==> board_cells(
                final(self)@.turns->0,
            ) == board_cells(old(self)@.turns->0),
            final(self)@ == (GameView { turns: final(self)@.turns, ..old(self)@ }),
    {
        match &mut self.multi_game {
            Some(m) => {
                proof {
                    let s = seats(*m);
                    assert(s.drop_first()[0] == s[1]);
                    if !s[0].1 {
                        assert(first_active(s.drop_first()) == Some(s[1].0));
                    }
                }
                select_cell(m, coordinates);
                proof {
                    let (o, n) = (board_cells(self@.turns->0), board_cells(*m));
                    assert forall|x: int, y: int|
                        0 <= x < n.len() && 0 <= y < n[x].len() implies (#[trigger] n[x][y]).coordinates
                            == (SerializablePoint { x: x as usize, y: y as usize }) by {
                        assert(n[x][y].coordinates == o[x][y].coordinates);
                    }
                }
            },
            None => {},
        }
    }

    /// The id of the player whose turn it is in a started game.
    pub fn active_player_id(&self) -> (r: String)
        requires
            self@.wf(),
            self@.turns is Some,
        ensures
            r@ == self@.active_id(),
    {
        match &self.multi_game {
            Some(m) => {
                let ghost s = seats(*m);
                proof {
                    assert(s.drop_first()[0] == s[1]);
                    if !s[0].1 {
                        assert(first_active(s.drop_first()) == Some(s[1].0));
                    }
                    assert(first_active(s) == Some(self@.active_id()));
                }
                current_player_id(m)
            },
            None => self.host.id.clone(),
        }
    }

    /// The id of the winner of a started game, if the game is decided.
    pub fn winner_id(&self) -> (r: Option<String>)
        requires
            self@.wf(),
            self@.turns is Some,
        ensures
            match r {
                Some(w) => winner_of(self@.turns->0) == Some(w@),
                None => winner_of(self@.turns->0) is None,
            },
            r matches Some(w) ==> w@ == self@.host.id || w@ == self@.client->0.id,
    {
        match &self.multi_game {
            Some(m) => winner_id(m),
            None => None,
        }
    }

    /// The mines of a started game that are neither cleared nor flagged.
    pub fn remaining_mines(&self) -> (r: u32)
        requires
            self@.wf(),
            self@.turns is Some,
        ensures
            r as nat == hidden_mines(board_cells(self@.turns->0)),
    {
        match &self.multi_game {
            Some(m) => {
                proof {
                    lemma_hidden_mines_bound(
                        board_cells(*m),
                        self.difficulty.width(),
                        self.difficulty.height(),
                    );
                }
                remaining_mines(m)
            },
            None => 0,
        }
    }

    /// Whether it is the turn of the player with `player_id` in a started game.
    pub fn is_player_active(&self, player_id: &String) -> (r: bool)
        requires
            self@.wf(),
            self@.turns is Some,
        ensures
            r == (player_id@ == self@.active_id()),
    {
        let active = self.active_player_id();
        active == *player_id
    }

    /// The host, then the second player if there is one.
    pub fn get_players(&self) -> (r: Vec<&Player>)
        ensures
            r@.map_values(|p: &Player| p@) == match self@.client {
                Some(c) => seq![self@.host, c],
                None => seq![self@.host],
            },
    {
        let mut players: Vec<&Player> = Vec::new();
        players.push(&self.host);
        match &self.client {
            Some(c) => players.push(c),
            None => {},
        }
        proof {
            assert(players@.map_values(|p: &Player| p@) =~= match self@.client {
                Some(c) => seq![self@.host, c],
                None => seq![self@.host],
            });
        }
        players
    }
}

/// `g` with the player at `conn` renamed to `name`.
pub open spec fn rename_in(g: GameView, conn: u64, name: Seq<char>) -> GameView {
    if g.host.address == conn {
        GameView { host: PlayerView { name, ..g.host }, ..g }
    } else if g.client is Some && g.client->0.address == conn {
        GameView { client: Some(PlayerView { name, ..g.client->0 }), ..g }
    } else {
        g
    }
}

} // verus!
