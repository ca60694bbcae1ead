//! One client connection: where replies go, and what a handler does with
//! what arrives on it.

use vstd::prelude::*;
use vstd::string::*;
use crate::interpreter::{interpreted, InterpMsg, Interpreter, ResultAction};
use crate::json::{parse, parsed_members, quote, quoted, text_members};
use crate::server::{Player, PlayerView, ServerView};

verus! {

/// The sending half of one client connection, known by its number.
/// Whoever owns the sockets knows which socket has which number.
#[derive(Clone, Copy, Debug, PartialEq, Eq, Structural)]
pub struct Connection {
    pub id: u64,
}

/// A text on its way to a client.
#[derive(Debug)]
pub struct Outgoing {
    /// Number of the connection to send on.
    pub to: u64,
    pub text: String,
}

/// An outgoing text as a mathematical value.
pub struct OutgoingView {
    pub to: u64,
    pub text: Seq<char>,
}

impl View for Outgoing {
    type V = OutgoingView;

    open spec fn view(&self) -> OutgoingView {
        OutgoingView { to: self.to, text: self.text@ }
    }
}

/// These outgoing texts as mathematical values.
pub open spec fn sent(out: Seq<Outgoing>) -> Seq<OutgoingView> {
    Seq::new(out.len(), |i: int| out[i]@)
}

/// The reply to a text that is not JSON.
pub open spec fn invalid_reply() -> Seq<char> {
    "{err: \"Invalid message\"}"@
}

/// The reply that carries a complaint.
pub open spec fn complaint_reply(complaint: Seq<char>) -> Seq<char> {
    "{err:\""@ + complaint + "\"}"@
}

/// The items, with a comma between each two.
pub open spec fn comma_separated(items: Seq<Seq<char>>) -> Seq<char>
    decreases items.len(),
{
    if items.len() == 0 {
        Seq::empty()
    } else if items.len() == 1 {
        items[0]
    } else {
        comma_separated(items.drop_last()) + ","@ + items.last()
    }
}

/// The names of these players, each as a JSON string.
pub open spec fn quoted_names(players: Seq<PlayerView>) -> Seq<Seq<char>> {
    Seq::new(players.len(), |i: int| quoted(players[i].name))
}

/// The message that lists `names`, each of them a JSON string already: a
/// JSON object with the action `updatePlayers` and the names as its
/// `players`.
pub open spec fn update_frame(names: Seq<Seq<char>>) -> Seq<char> {
    "{\"action\":\"updatePlayers\",\"players\":["@ + comma_separated(names) + "]}"@
}

/// The message that tells who is in a room: the names of the players, in
/// the order of seating.
pub open spec fn players_update(players: Seq<PlayerView>) -> Seq<char> {
    update_frame(quoted_names(players))
}

/// These texts as mathematical values.
pub open spec fn texts(items: Seq<String>) -> Seq<Seq<char>> {
    Seq::new(items.len(), |i: int| items[i]@)
}

/// The text members of a message that was parsed, or `None` where parsing
/// failed.
pub open spec fn members_of(parsed: Result<serde_json::Value, serde_json::Error>) -> Option<
    Map<Seq<char>, Seq<char>>,
> {
    match parsed {
        Ok(value) => Some(text_members(value)),
        Err(_) => None,
    }
}

/// `text` addressed to each of these players, in their order.
pub open spec fn to_each(players: Seq<PlayerView>, text: Seq<char>) -> Seq<OutgoingView> {
    Seq::new(players.len(), |i: int| OutgoingView { to: players[i].con.id, text })
}

/// What is sent when a text with this parse comes in on `con`, and the
/// registry afterwards.
///
/// A text that is not JSON is answered with a fixed complaint. A message
/// that the interpreter refuses is answered with the interpreter's
/// complaint. A player who joined a room has the room's players told who
/// is in it. Anything else is not answered.
pub open spec fn replies(
    con: Connection,
    server: ServerView,
    parsed: Option<Map<Seq<char>, Seq<char>>>,
) -> (Seq<OutgoingView>, ServerView) {
    match parsed {
        None => (seq![OutgoingView { to: con.id, text: invalid_reply() }], server),
        Some(members) => {
            let (answer, after) = interpreted(server, members, con);
            match answer {
                Err(complaint) => (
                    seq![OutgoingView { to: con.id, text: complaint_reply(complaint) }],
                    after,
                ),
                Ok(ResultAction::Nothing) => (Seq::empty(), after),
                Ok(ResultAction::UpdatePlayers(room)) => {
                    let roster = after.roster(room as int);
                    (to_each(roster, players_update(roster)), after)
                },
            }
        },
    }
}

impl Connection {
    /// The connection with number `id`.
    pub fn new(id: u64) -> (con: Connection)
        ensures
            con.id == id,
    {
        Connection { id }
    }

    /// Addresses `msg` to this connection.
    pub fn send(&self, msg: &str) -> (out: Outgoing)
        ensures
            out.to == self.id,
            out.text@ == msg@,
    {
        Outgoing { to: self.id, text: String::from_str(msg) }
    }
}

/// Writes the message that lists `names`, which are JSON strings already.
pub fn players_update_frame(names: &Vec<String>) -> (text: String)
    ensures
        text@ == update_frame(texts(names@)),
{
    let ghost items = texts(names@);
    let mut list = String::new();
    let mut i: usize = 0;
    while i < names.len()
        invariant
            i <= names@.len(),
            items == texts(names@),
            list@ == comma_separated(items.take(i as int)),
        decreases names@.len() - i,
    {
        proof {
            assert(items.take(i + 1).drop_last() =~= items.take(i as int));
            assert(items.take(i + 1).last() == names@[i as int]@);
        }
        if i > 0 {
            list.append(",");
        }
        list.append(names[i].as_str());
        proof {
            if i == 0 {
                assert(list@ =~= items.take(1)[0]);
            }
        }
        i = i + 1;
    }
    proof {
        assert(items.take(i as int) =~= items);
    }
    let mut text = String::from_str("{\"action\":\"updatePlayers\",\"players\":[");
    text.append(list.as_str());
    text.append("]}");
    text
}

/// Writes the message that tells these players who is in their room.
pub fn players_update_text(players: &Vec<Player>) -> (text: String)
    ensures
        text@ == players_update(Seq::new(players@.len(), |i: int| players@[i]@)),
{
    let ghost views = Seq::new(players@.len(), |i: int| players@[i]@);
    let mut names: Vec<String> = Vec::new();
    let mut i: usize = 0;
    while i < players.len()
        invariant
            i <= players@.len(),
            views == Seq::new(players@.len(), |i: int| players@[i]@),
            names@.len() == i,
            texts(names@) == quoted_names(views).take(i as int),
        decreases players@.len() - i,
    {
        let ghost before = texts(names@);
        names.push(quote(players[i].name.as_str()));
        i = i + 1;
        assert forall|k: int| 0 <= k < i implies texts(names@)[k] == quoted_names(views).take(
            i as int,
        )[k] by {
            if k < i - 1 {
                assert(texts(names@)[k] == before[k]);
            }
        }
        assert(texts(names@) =~= quoted_names(views).take(i as int));
    }
    proof {
        assert(quoted_names(views).take(i as int) =~= quoted_names(views));
    }
    players_update_frame(&names)
}

/// What a server keeps for one client connection.
pub struct ConnectionHandler {
    connection: Connection,
    player: Option<usize>,
    room: Option<usize>,
}

impl ConnectionHandler {
    /// The connection that replies go out on.
    pub closed spec fn connection(&self) -> Connection {
        self.connection
    }

    /// The client's place as a player, if it has one.
    pub closed spec fn player(&self) -> Option<usize> {
        self.player
    }

    /// The client's place as a room, if it has one.
    pub closed spec fn room(&self) -> Option<usize> {
        self.room
    }

    /// A handler for a client that has just connected on `out`: it is
    /// neither a player nor a room yet.
    pub fn new(out: Connection) -> (handler: ConnectionHandler)
        ensures
            handler.connection() == out,
            handler.player() is None,
            handler.room() is None,
    {
        ConnectionHandler { connection: out, player: None, room: None }
    }

    /// The connection has closed: the client is no player and no room any
    /// more.
    pub fn on_close(&mut self)
        ensures
            final(self).connection() == old(self).connection(),
            final(self).player() is None,
            final(self).room() is None,
    {
        self.player = None;
        self.room = None;
    }

    /// A text has come in from the client. Parses it, has `interp` handle
    /// it, and returns what is to be sent, to whom, in the order of sending.
    pub fn on_message(&mut self, interp: &mut Interpreter, text: &str) -> (out: Vec<Outgoing>)
        requires
            old(interp).wf(),
        ensures
            final(interp).wf(),
            sent(out@) == replies(old(self).connection(), old(interp)@, parsed_members(text@)).0,
            final(interp)@ == replies(old(self).connection(), old(interp)@, parsed_members(text@)).1,
            final(self).connection() == old(self).connection(),
            final(self).player() == old(self).player(),
            final(self).room() == old(self).room(),
    {
        let parsed = parse(text);
        self.on_parsed(interp, parsed)
    }

    /// What `on_message` does once the text has been parsed: has `interp`
    /// handle the message, or complains where parsing failed, and returns
    /// what is to be sent, to whom, in the order of sending.
    pub fn on_parsed(
        &mut self,
        interp: &mut Interpreter,
        parsed: Result<serde_json::Value, serde_json::Error>,
    ) -> (out: Vec<Outgoing>)
        requires
            old(interp).wf(),
        ensures
            final(interp).wf(),
            sent(out@) == replies(old(self).connection(), old(interp)@, members_of(parsed)).0,
            final(interp)@ == replies(old(self).connection(), old(interp)@, members_of(parsed)).1,
            final(self).connection() == old(self).connection(),
            final(self).player() == old(self).player(),
            final(self).room() == old(self).room(),
    {
        let mut out: Vec<Outgoing> = Vec::new();
        match parsed {
            Err(_) => {
                out.push(self.connection.send("{err: \"Invalid message\"}"));
                assert(sent(out@) =~= seq![
                    OutgoingView { to: self.connection.id, text: invalid_reply() },
                ]);
            },
            Ok(value) => {
                let msg = InterpMsg::new(self.connection, self.player, self.room, value);
                match interp.handle_message(&msg) {
                    Err(complaint) => {
                        let mut reply = String::from_str("{err:\"");
                        reply.append(complaint.as_str());
                        reply.append("\"}");
                        out.push(self.connection.send(reply.as_str()));
                        assert(sent(out@) =~= seq![
                            OutgoingView {
                                to: self.connection.id,
                                text: complaint_reply(complaint@),
                            },
                        ]);
                    },
                    Ok(ResultAction::Nothing) => {
                        assert(sent(out@) =~= Seq::<OutgoingView>::empty());
                    },
                    Ok(ResultAction::UpdatePlayers(room)) => {
                        let players = interp.server().roster(room);
                        let update = players_update_text(&players);
                        let ghost roster = interp@.roster(room as int);
                        assert(Seq::new(players@.len(), |i: int| players@[i]@) =~= roster);
                        let mut i: usize = 0;
                        while i < players.len()
                            invariant
                                i <= players@.len(),
                                players@.len() == roster.len(),
                                forall|k: int|
                                    0 <= k < players@.len() ==> (#[trigger] players@[k])@
                                        == roster[k],
                                update@ == players_update(roster),
                                out@.len() == i,
                                sent(out@) == to_each(roster, update@).take(i as int),
                            decreases players@.len() - i,
                        {
                            assert(players@[i as int]@ == roster[i as int]);
                            let ghost before = sent(out@);
                            out.push(players[i].con.send(update.as_str()));
                            i = i + 1;
                            assert forall|k: int| 0 <= k < i implies sent(out@)[k] == to_each(
                                roster,
                                update@,
                            ).take(i as int)[k] by {
                                if k < i - 1 {
                                    assert(sent(out@)[k] == before[k]);
                                }
                            }
                            assert(sent(out@) =~= to_each(roster, update@).take(i as int));
                        }
                        assert(to_each(roster, update@).take(i as int) =~= to_each(
                            roster,
                            update@,
                        ));
                    },
                }
            },
        }
        out
    }
}

} // verus!
