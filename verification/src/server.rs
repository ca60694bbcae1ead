//! The registry of a game server: the players that have connected and the
//! rooms that they can join.
//!
//! Players and rooms are known by their place in the registry. A place
//! stays taken for good; it is emptied when its player or room is gone, and
//! whoever still holds the number then finds nothing there.

use vstd::prelude::*;
use vstd::string::*;
use crate::connection::Connection;

verus! {

/// Somebody who plays, and the connection on which to reach them.
pub struct Player {
    pub name: String,
    pub con: Connection,
}

/// A player as a mathematical value.
pub struct PlayerView {
    pub name: Seq<char>,
    pub con: Connection,
}

impl View for Player {
    type V = PlayerView;

    open spec fn view(&self) -> PlayerView {
        PlayerView { name: self.name@, con: self.con }
    }
}

impl Player {
    /// A player called `name`, reachable on `con`.
    pub fn new(name: &str, con: Connection) -> (player: Player)
        ensures
            player@ == (PlayerView { name: name@, con }),
    {
        Player { name: String::from_str(name), con }
    }
}

/// A room: the places of the players seated in it, in the order of
/// seating, and the connection of the screen that shows it.
pub struct Room {
    pub players: Vec<usize>,
    con: Connection,
}

/// A room as a mathematical value.
pub struct RoomView {
    pub players: Seq<usize>,
    pub con: Connection,
}

impl View for Room {
    type V = RoomView;

    closed spec fn view(&self) -> RoomView {
        RoomView { players: self.players@, con: self.con }
    }
}

/// The registry as a mathematical value.
pub struct ServerView {
    /// The players by place; `None` where the player is gone.
    pub players: Seq<Option<PlayerView>>,
    /// The names of the rooms by place.
    pub room_names: Seq<Seq<char>>,
    /// The rooms by place; `None` where the room is gone.
    pub rooms: Seq<Option<RoomView>>,
}

/// The place of the first room called `name`, if there is one.
pub open spec fn room_index(names: Seq<Seq<char>>, name: Seq<char>) -> Option<int>
    decreases names.len(),
{
    if names.len() == 0 {
        None
    } else {
        match room_index(names.drop_last(), name) {
            Some(i) => Some(i),
            None => if names.last() == name {
                Some(names.len() - 1)
            } else {
                None
            },
        }
    }
}

/// Where no room has that name, `room_index` finds none.
pub proof fn lemma_room_index_none(names: Seq<Seq<char>>, name: Seq<char>)
    requires
        forall|j: int| 0 <= j < names.len() ==> names[j] != name,
    ensures
        room_index(names, name) is None,
    decreases names.len(),
{
    if names.len() > 0 {
        assert forall|j: int| 0 <= j < names.drop_last().len() implies names.drop_last()[j]
            != name by {
            assert(names.drop_last()[j] == names[j]);
        }
        lemma_room_index_none(names.drop_last(), name);
        assert(names.last() == names[names.len() - 1]);
    }
}

/// `room_index` finds the first room of that name.
pub proof fn lemma_room_index_first(names: Seq<Seq<char>>, name: Seq<char>, i: int)
    requires
        0 <= i < names.len(),
        names[i] == name,
        forall|j: int| 0 <= j < i ==> names[j] != name,
    ensures
        room_index(names, name) == Some(i),
    decreases names.len(),
{
    let front = names.drop_last();
    if i == names.len() - 1 {
        assert forall|j: int| 0 <= j < front.len() implies front[j] != name by {
            assert(front[j] == names[j]);
        }
        lemma_room_index_none(front, name);
    } else {
        assert(front[i] == names[i]);
        assert forall|j: int| 0 <= j < i implies front[j] != name by {
            assert(front[j] == names[j]);
        }
        lemma_room_index_first(front, name, i);
    }
}

/// The players seated at `seats` who are still there, in the order of the
/// seats.
pub open spec fn present(players: Seq<Option<PlayerView>>, seats: Seq<usize>) -> Seq<PlayerView>
    decreases seats.len(),
{
    if seats.len() == 0 {
        Seq::empty()
    } else {
        let before = present(players, seats.drop_last());
        let place = seats.last() as int;
        if place < players.len() && players[place] is Some {
            before.push(players[place]->Some_0)
        } else {
            before
        }
    }
}

impl ServerView {
    /// A registry without players or rooms.
    pub open spec fn empty() -> Self {
        ServerView { players: Seq::empty(), room_names: Seq::empty(), rooms: Seq::empty() }
    }

    /// What holds of every registry: each room has a name.
    pub open spec fn wf(self) -> bool {
        self.room_names.len() == self.rooms.len()
    }

    /// What looking up the room called `name` gives.
    pub open spec fn room_by_name(self, name: Seq<char>) -> Result<int, Seq<char>> {
        match room_index(self.room_names, name) {
            None => Err("Room missing"@),
            Some(i) => if self.rooms[i] is Some {
                Ok(i)
            } else {
                Err("Room invalid"@)
            },
        }
    }

    /// Whether `room` is the place of a room that is still there.
    pub open spec fn has_room(self, room: int) -> bool {
        0 <= room < self.rooms.len() && self.rooms[room] is Some
    }

    /// The registry after `player` has taken the next free place.
    pub open spec fn with_player(self, player: PlayerView) -> Self {
        ServerView { players: self.players.push(Some(player)), ..self }
    }

    /// The registry after the player with place `place` is gone.
    pub open spec fn without_player(self, place: int) -> Self {
        if 0 <= place < self.players.len() {
            ServerView { players: self.players.update(place, None), ..self }
        } else {
            self
        }
    }

    /// The registry after the player with place `player` has been seated
    /// in the room with place `room`.
    pub open spec fn with_seated(self, player: usize, room: int) -> Self {
        if self.has_room(room) {
            let before = self.rooms[room]->Some_0;
            ServerView {
                rooms: self.rooms.update(
                    room,
                    Some(RoomView { players: before.players.push(player), ..before }),
                ),
                ..self
            }
        } else {
            self
        }
    }

    /// The players seated in the room with place `room` who are still
    /// there, in the order of seating.
    pub open spec fn roster(self, room: int) -> Seq<PlayerView> {
        if self.has_room(room) {
            present(self.players, self.rooms[room]->Some_0.players)
        } else {
            Seq::empty()
        }
    }
}

/// The players and rooms of one server.
pub struct Server {
    players: Vec<Option<Player>>,
    room_names: Vec<String>,
    rooms: Vec<Option<Room>>,
}

impl View for Server {
    type V = ServerView;

    closed spec fn view(&self) -> ServerView {
        ServerView {
            players: Seq::new(
                self.players@.len(),
                |i: int|
                    match self.players@[i] {
                        Some(player) => Some(player@),
                        None => None,
                    },
            ),
            room_names: Seq::new(self.room_names@.len(), |i: int| self.room_names@[i]@),
            rooms: Seq::new(
                self.rooms@.len(),
                |i: int|
                    match self.rooms@[i] {
                        Some(room) => Some(room@),
                        None => None,
                    },
            ),
        }
    }
}

impl Server {
    /// Well-formedness: each room has a name.
    pub open spec fn wf(&self) -> bool {
        self@.wf()
    }

    /// A server without players or rooms.
    pub fn new() -> (server: Server)
        ensures
            server.wf(),
            server@ == ServerView::empty(),
    {
        let server = Server { players: Vec::new(), room_names: Vec::new(), rooms: Vec::new() };
        proof {
            assert(server@.players =~= Seq::<Option<PlayerView>>::empty());
            assert(server@.room_names =~= Seq::<Seq<char>>::empty());
            assert(server@.rooms =~= Seq::<Option<RoomView>>::empty());
        }
        server
    }

    /// Number of places for players, taken or emptied.
    pub fn player_count(&self) -> (n: usize)
        ensures
            n == self@.players.len(),
    {
        self.players.len()
    }

    /// Gives `player` the next free place and returns its number.
    pub fn add_player(&mut self, player: Player) -> (place: usize)
        requires
            old(self).wf(),
        ensures
            final(self).wf(),
            place == old(self)@.players.len(),
            final(self)@ == old(self)@.with_player(player@),
    {
        let place = self.players.len();
        self.players.push(Some(player));
        assert(self@.players =~= old(self)@.with_player(player@).players);
        place
    }

    /// Empties the place of a player who is gone. A number that names no
    /// place changes nothing.
    pub fn remove_player(&mut self, place: usize)
        requires
            old(self).wf(),
        ensures
            final(self).wf(),
            final(self)@ == old(self)@.without_player(place as int),
    {
        if place < self.players.len() {
            self.players[place] = None;
            assert(self@.players =~= old(self)@.without_player(place as int).players);
        }
    }

    /// The place of the room called `room_name`.
    ///
    /// Fails with `Room missing` where no room has that name, and with
    /// `Room invalid` where the room of that name is gone.
    pub fn get_room_by_name(&self, room_name: &str) -> (result: Result<usize, String>)
        requires
            self.wf(),
        ensures
            match self@.room_by_name(room_name@) {
                Ok(i) => result matches Ok(place) && place as int == i,
                Err(text) => result matches Err(e) && e@ == text,
            },
    {
        let wanted = String::from_str(room_name);
        let ghost names = self@.room_names;
        let mut i: usize = 0;
        while i < self.room_names.len()
            invariant
                self.wf(),
                names == self@.room_names,
                i <= self.room_names@.len(),
                wanted@ == room_name@,
                forall|j: int| 0 <= j < i ==> names[j] != room_name@,
            decreases self.room_names@.len() - i,
        {
            assert(names[i as int] == self.room_names@[i as int]@);
            if self.room_names[i] == wanted {
                proof {
                    lemma_room_index_first(names, room_name@, i as int);
                }
                return match &self.rooms[i] {
                    Some(_) => Ok(i),
                    None => Err(String::from_str("Room invalid")),
                };
            }
            i = i + 1;
        }
        proof {
            lemma_room_index_none(names, room_name@);
        }
        Err(String::from_str("Room missing"))
    }

    /// Seats the player with place `player` in the room with place `room`,
    /// behind those already seated. Where `room` names no room that is
    /// still there, nothing changes.
    pub fn add_player_to_room(&mut self, player: usize, room: usize)
        requires
            old(self).wf(),
        ensures
            final(self).wf(),
            final(self)@ == old(self)@.with_seated(player, room as int),
    {
        if room < self.rooms.len() {
            let found = self.rooms[room].take();
            match found {
                Some(mut seats) => {
                    seats.players.push(player);
                    self.rooms[room] = Some(seats);
                    assert(self@.rooms =~= old(self)@.with_seated(player, room as int).rooms);
                },
                None => {
                    assert(self@.rooms =~= old(self)@.rooms);
                },
            }
        }
    }

    /// The players seated in the room with place `room` who are still
    /// there, in the order of seating.
    pub fn roster(&self, room: usize) -> (list: Vec<Player>)
        requires
            self.wf(),
        ensures
            list@.len() == self@.roster(room as int).len(),
            forall|i: int| 0 <= i < list@.len() ==> (#[trigger] list@[i])@ == self@.roster(room as int)[i],
    {
        let mut list: Vec<Player> = Vec::new();
        if room < self.rooms.len() {
            match &self.rooms[room] {
                Some(seats) => {
                    let ghost players = self@.players;
                    let mut i: usize = 0;
                    while i < seats.players.len()
                        invariant
                            i <= seats.players@.len(),
                            players == self@.players,
                            list@.len() == present(players, seats.players@.take(i as int)).len(),
                            forall|k: int|
                                0 <= k < list@.len() ==> (#[trigger] list@[k])@ == present(
                                    players,
                                    seats.players@.take(i as int),
                                )[k],
                        decreases seats.players@.len() - i,
                    {
                        proof {
                            assert(seats.players@.take(i + 1).drop_last() =~= seats.players@.take(
                                i as int,
                            ));
                        }
                        let place = seats.players[i];
                        if place < self.players.len() {
                            match &self.players[place] {
                                Some(player) => {
                                    list.push(Player { name: player.name.clone(), con: player.con });
                                },
                                None => {},
                            }
                        }
                        i = i + 1;
                    }
                    proof {
                        assert(seats.players@.take(i as int) =~= seats.players@);
                    }
                },
                None => {},
            }
        }
        list
    }
}

} // verus!
