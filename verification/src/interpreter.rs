//! What a client message asks for, and what the server does about it.
//!
//! A message is a JSON document. Only its text members are read: `type`
//! says what is asked, `role` who asks, `name` and `room` who and where.

use vstd::prelude::*;
use vstd::string::*;
use crate::connection::Connection;
use crate::json::{member_text, text_members};
use crate::server::{Player, PlayerView, Server, ServerView};

verus! {

/// Who is connecting.
#[derive(Clone, Copy, Debug, PartialEq, Eq, Structural)]
pub enum Role {
    Player,
    Room,
}

/// What is left to do once a message has been handled.
#[derive(Clone, Copy, Debug, PartialEq, Eq, Structural)]
pub enum ResultAction {
    /// Nothing is left to do.
    Nothing,
    /// Tell the players of the room with this place who is in it.
    UpdatePlayers(usize),
}

/// The complaint about a member that is missing or is not a string.
pub open spec fn not_text(key: Seq<char>) -> Seq<char> {
    "Message '"@ + key + "' must be of type string"@
}

/// The complaint about a message of a type that the server does not know.
pub open spec fn unknown_type(name: Seq<char>) -> Seq<char> {
    "Unknown message type "@ + name
}

/// The text member called `key`, or the complaint that there is none.
pub open spec fn text_of(members: Map<Seq<char>, Seq<char>>, key: Seq<char>) -> Result<
    Seq<char>,
    Seq<char>,
> {
    if members.contains_key(key) {
        Ok(members[key])
    } else {
        Err(not_text(key))
    }
}

/// The role that the message names.
pub open spec fn role_of(members: Map<Seq<char>, Seq<char>>) -> Result<Role, Seq<char>> {
    match text_of(members, "role"@) {
        Err(complaint) => Err(complaint),
        Ok(role) => if role == "room"@ {
            Ok(Role::Room)
        } else if role == "player"@ {
            Ok(Role::Player)
        } else {
            Err("Role not set"@)
        },
    }
}

/// The answer to a room that connects, and the registry afterwards: the
/// room has to give its name, and the registry stays as it is.
pub open spec fn room_connected(server: ServerView, members: Map<Seq<char>, Seq<char>>) -> (
    Result<ResultAction, Seq<char>>,
    ServerView,
) {
    match text_of(members, "name"@) {
        Err(complaint) => (Err(complaint), server),
        Ok(_) => (Ok(ResultAction::Nothing), server),
    }
}

/// The answer to a player who connects, and the registry afterwards.
///
/// The player takes the next free place, and is seated in the room that
/// the message names if that room is there. The interpreter holds the
/// player only while it handles the message, so the place is empty again
/// when it is done.
pub open spec fn player_connected(
    server: ServerView,
    members: Map<Seq<char>, Seq<char>>,
    con: Connection,
) -> (Result<ResultAction, Seq<char>>, ServerView) {
    match text_of(members, "name"@) {
        Err(complaint) => (Err(complaint), server),
        Ok(name) => {
            let place = server.players.len() as int;
            let joined = server.with_player(PlayerView { name, con });
            match text_of(members, "room"@) {
                Err(complaint) => (Err(complaint), joined.without_player(place)),
                Ok(room_name) => match joined.room_by_name(room_name) {
                    Err(complaint) => (Err(complaint), joined.without_player(place)),
                    Ok(room) => (
                        Ok(ResultAction::UpdatePlayers(room as usize)),
                        joined.with_seated(place as usize, room).without_player(place),
                    ),
                },
            }
        },
    }
}

/// The answer to a `connect` message, and the registry afterwards.
pub open spec fn connected(
    server: ServerView,
    members: Map<Seq<char>, Seq<char>>,
    con: Connection,
) -> (Result<ResultAction, Seq<char>>, ServerView) {
    match role_of(members) {
        Err(complaint) => (Err(complaint), server),
        Ok(Role::Room) => room_connected(server, members),
        Ok(Role::Player) => player_connected(server, members, con),
    }
}

/// The answer to a message with these text members that came in on `con`,
/// and the registry afterwards.
pub open spec fn interpreted(
    server: ServerView,
    members: Map<Seq<char>, Seq<char>>,
    con: Connection,
) -> (Result<ResultAction, Seq<char>>, ServerView) {
    match text_of(members, "type"@) {
        Err(complaint) => (Err(complaint), server),
        Ok(kind) => if kind == "connect"@ {
            connected(server, members, con)
        } else if kind == "createRoom"@ {
            room_connected(server, members)
        } else {
            (Err(unknown_type(kind)), server)
        },
    }
}

/// Whether `got` is `expected`, text for text.
pub open spec fn same_text(got: Result<String, String>, expected: Result<Seq<char>, Seq<char>>) -> bool {
    match expected {
        Ok(text) => got matches Ok(t) && t@ == text,
        Err(text) => got matches Err(t) && t@ == text,
    }
}

/// Whether `got` is `expected`, with the complaint compared as text.
pub open spec fn same_answer<T>(got: Result<T, String>, expected: Result<T, Seq<char>>) -> bool {
    match expected {
        Ok(value) => got matches Ok(v) && v == value,
        Err(text) => got matches Err(t) && t@ == text,
    }
}

/// One message from a client, with what is known of its sender.
pub struct InterpMsg {
    player: Option<usize>,
    room: Option<usize>,
    value: serde_json::Value,
    pub con: Connection,
}

impl InterpMsg {
    /// The text members of the message.
    pub closed spec fn members(&self) -> Map<Seq<char>, Seq<char>> {
        text_members(self.value)
    }

    /// The connection on which the message came in.
    pub closed spec fn sender(&self) -> Connection {
        self.con
    }

    /// The sender's place as a player, if it has one.
    pub closed spec fn player(&self) -> Option<usize> {
        self.player
    }

    /// The sender's place as a room, if it has one.
    pub closed spec fn room(&self) -> Option<usize> {
        self.room
    }

    /// The message `value` that came in on `con` from the sender with
    /// these places.
    pub fn new(
        con: Connection,
        player: Option<usize>,
        room: Option<usize>,
        value: serde_json::Value,
    ) -> (msg: InterpMsg)
        ensures
            msg.sender() == con,
            msg.player() == player,
            msg.room() == room,
            msg.members() == text_members(value),
    {
        InterpMsg { con, player, room, value }
    }

    /// The text of the member called `key`. Fails with a complaint that
    /// names the key where the message has no such member or the member is
    /// not a string.
    pub fn get_str(&self, key: &str) -> (result: Result<String, String>)
        ensures
            same_text(result, text_of(self.members(), key@)),
    {
        match member_text(&self.value, key) {
            Some(text) => Ok(text),
            None => {
                let mut complaint = String::from_str("Message '");
                complaint.append(key);
                complaint.append("' must be of type string");
                Err(complaint)
            },
        }
    }

    /// The role that the message names: `room` or `player`. Fails where
    /// `role` is no text member, and with `Role not set` where it is
    /// neither of the two.
    pub fn get_role(&self) -> (result: Result<Role, String>)
        ensures
            same_answer(result, role_of(self.members())),
    {
        match self.get_str("role") {
            Err(complaint) => Err(complaint),
            Ok(role) => {
                if role == String::from_str("room") {
                    Ok(Role::Room)
                } else if role == String::from_str("player") {
                    Ok(Role::Player)
                } else {
                    Err(String::from_str("Role not set"))
                }
            },
        }
    }
}

/// Handles client messages against one server.
pub struct Interpreter {
    server: Server,
}

impl View for Interpreter {
    type V = ServerView;

    closed spec fn view(&self) -> ServerView {
        self.server@
    }
}

impl Interpreter {
    /// Well-formedness: the server is well-formed.
    pub open spec fn wf(&self) -> bool {
        self@.wf()
    }

    /// An interpreter for `server`.
    pub fn new(server: Server) -> (interp: Interpreter)
        requires
            server.wf(),
        ensures
            interp.wf(),
            interp@ == server@,
    {
        Interpreter { server }
    }

    /// The server that the messages act on.
    pub fn server(&self) -> (server: &Server)
        requires
            self.wf(),
        ensures
            server.wf(),
            server@ == self@,
    {
        &self.server
    }

    /// Handles one message: `connect` for a player or a room, `createRoom`
    /// for a room. Anything else is answered with a complaint.
    pub fn handle_message(&mut self, msg: &InterpMsg) -> (result: Result<ResultAction, String>)
        requires
            old(self).wf(),
        ensures
            final(self).wf(),
            same_answer(result, interpreted(old(self)@, msg.members(), msg.sender()).0),
            final(self)@ == interpreted(old(self)@, msg.members(), msg.sender()).1,
    {
        match msg.get_str("type") {
            Err(complaint) => Err(complaint),
            Ok(kind) => {
                if kind == String::from_str("connect") {
                    self.connect(msg)
                } else if kind == String::from_str("createRoom") {
                    self.connect_room(msg)
                } else {
                    let mut complaint = String::from_str("Unknown message type ");
                    complaint.append(kind.as_str());
                    Err(complaint)
                }
            },
        }
    }

    fn connect(&mut self, msg: &InterpMsg) -> (result: Result<ResultAction, String>)
        requires
            old(self).wf(),
        ensures
            final(self).wf(),
            same_answer(result, connected(old(self)@, msg.members(), msg.sender()).0),
            final(self)@ == connected(old(self)@, msg.members(), msg.sender()).1,
    {
        match msg.get_role() {
            Err(complaint) => Err(complaint),
            Ok(Role::Room) => self.connect_room(msg),
            Ok(Role::Player) => self.connect_player(msg),
        }
    }

    fn connect_player(&mut self, msg: &InterpMsg) -> (result: Result<ResultAction, String>)
        requires
            old(self).wf(),
        ensures
            final(self).wf(),
            same_answer(result, player_connected(old(self)@, msg.members(), msg.sender()).0),
            final(self)@ == player_connected(old(self)@, msg.members(), msg.sender()).1,
    {
        let name = match msg.get_str("name") {
            Err(complaint) => { return Err(complaint); },
            Ok(name) => name,
        };
        let place = self.server.add_player(Player::new(name.as_str(), msg.con));
        let result = match msg.get_str("room") {
            Err(complaint) => Err(complaint),
            Ok(room_name) => match self.server.get_room_by_name(room_name.as_str()) {
                Err(complaint) => Err(complaint),
                Ok(room) => {
                    self.server.add_player_to_room(place, room);
                    Ok(ResultAction::UpdatePlayers(room))
                },
            },
        };
        self.server.remove_player(place);
        result
    }

    fn connect_room(&mut self, msg: &InterpMsg) -> (result: Result<ResultAction, String>)
        requires
            old(self).wf(),
        ensures
            final(self).wf(),
            same_answer(result, room_connected(old(self)@, msg.members()).0),
            final(self)@ == room_connected(old(self)@, msg.members()).1,
    {
        match msg.get_str("name") {
            Err(complaint) => Err(complaint),
            Ok(_) => Ok(ResultAction::Nothing),
        }
    }
}

} // verus!
