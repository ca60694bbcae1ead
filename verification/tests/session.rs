use simple_tcp_server::connection::{
    players_update_frame, players_update_text, Connection, ConnectionHandler, Outgoing,
};
use simple_tcp_server::interpreter::{InterpMsg, Interpreter, ResultAction, Role};
use simple_tcp_server::server::{Player, Server};

fn message(text: &str) -> InterpMsg {
    let value: serde_json::Value = serde_json::from_str(text).unwrap();
    InterpMsg::new(Connection::new(1), None, None, value)
}

fn reply_to(text: &str) -> Vec<(u64, String)> {
    let mut interp = Interpreter::new(Server::new());
    let mut handler = ConnectionHandler::new(Connection::new(42));
    handler
        .on_message(&mut interp, text)
        .into_iter()
        .map(|out: Outgoing| (out.to, out.text))
        .collect()
}

fn complaint(text: &str) -> Vec<(u64, String)> {
    vec![(42, format!("{{err:\"{}\"}}", text))]
}

#[test]
fn text_that_is_not_json_is_called_invalid() {
    let invalid = vec![(42u64, String::from("{err: \"Invalid message\"}"))];
    assert_eq!(reply_to("not json"), invalid);
    assert_eq!(reply_to(""), invalid);
    assert_eq!(reply_to("{\"type\":\"connect\""), invalid);
    assert_eq!(reply_to("{\"type\":\"createRoom\",\"name\":\"a\"} trailing"), invalid);
}

#[test]
fn message_without_text_type_is_refused() {
    let expected = complaint("Message 'type' must be of type string");
    assert_eq!(reply_to("{}"), expected);
    assert_eq!(reply_to("{\"type\": 5}"), expected);
    assert_eq!(reply_to("{\"type\": null}"), expected);
    assert_eq!(reply_to("[1, 2]"), expected);
    assert_eq!(reply_to("\"connect\""), expected);
    assert_eq!(reply_to("{\"Type\":\"connect\"}"), expected);
}

#[test]
fn unknown_type_is_named_in_the_complaint() {
    assert_eq!(reply_to("{\"type\":\"dance\"}"), complaint("Unknown message type dance"));
    assert_eq!(reply_to("{\"type\":\"\"}"), complaint("Unknown message type "));
    assert_eq!(reply_to("{\"type\":\"Connect\"}"), complaint("Unknown message type Connect"));
}

#[test]
fn connect_needs_a_role() {
    assert_eq!(
        reply_to("{\"type\":\"connect\"}"),
        complaint("Message 'role' must be of type string")
    );
    assert_eq!(
        reply_to("{\"type\":\"connect\",\"role\":7}"),
        complaint("Message 'role' must be of type string")
    );
    assert_eq!(reply_to("{\"type\":\"connect\",\"role\":\"admin\"}"), complaint("Role not set"));
}

#[test]
fn room_needs_a_name_and_gets_no_reply() {
    let unnamed = complaint("Message 'name' must be of type string");
    assert_eq!(reply_to("{\"type\":\"connect\",\"role\":\"room\"}"), unnamed);
    assert_eq!(reply_to("{\"type\":\"createRoom\"}"), unnamed);
    assert_eq!(reply_to("{\"type\":\"createRoom\",\"name\":[\"x\"]}"), unnamed);
    assert_eq!(reply_to("{\"type\":\"connect\",\"role\":\"room\",\"name\":\"lobby\"}"), vec![]);
    assert_eq!(reply_to("{\"type\":\"createRoom\",\"name\":\"lobby\"}"), vec![]);
}

#[test]
fn player_needs_name_and_room() {
    assert_eq!(
        reply_to("{\"type\":\"connect\",\"role\":\"player\"}"),
        complaint("Message 'name' must be of type string")
    );
    assert_eq!(
        reply_to("{\"type\":\"connect\",\"role\":\"player\",\"name\":\"ann\"}"),
        complaint("Message 'room' must be of type string")
    );
    assert_eq!(
        reply_to("{\"type\":\"connect\",\"role\":\"player\",\"name\":\"ann\",\"room\":\"lobby\"}"),
        complaint("Room missing")
    );
}

#[test]
fn creating_a_room_does_not_make_it_joinable() {
    let mut interp = Interpreter::new(Server::new());
    let mut room_side = ConnectionHandler::new(Connection::new(1));
    let mut player_side = ConnectionHandler::new(Connection::new(2));
    assert!(room_side
        .on_message(&mut interp, "{\"type\":\"createRoom\",\"name\":\"lobby\"}")
        .is_empty());
    let out = player_side.on_message(
        &mut interp,
        "{\"type\":\"connect\",\"role\":\"player\",\"name\":\"ann\",\"room\":\"lobby\"}",
    );
    assert_eq!(out.len(), 1);
    assert_eq!(out[0].to, 2);
    assert_eq!(out[0].text, "{err:\"Room missing\"}");
}

#[test]
fn complaint_is_not_escaped() {
    assert_eq!(
        reply_to("{\"type\":\"say \\\"hi\\\"\"}"),
        vec![(42u64, String::from("{err:\"Unknown message type say \"hi\"\"}"))]
    );
}

#[test]
fn each_connecting_player_takes_a_place() {
    let mut interp = Interpreter::new(Server::new());
    let mut handler = ConnectionHandler::new(Connection::new(3));
    assert_eq!(interp.server().player_count(), 0);
    handler.on_message(&mut interp, "{\"type\":\"connect\",\"role\":\"player\",\"name\":\"ann\"}");
    assert_eq!(interp.server().player_count(), 1);
    handler.on_message(
        &mut interp,
        "{\"type\":\"connect\",\"role\":\"player\",\"name\":\"bob\",\"room\":\"x\"}",
    );
    assert_eq!(interp.server().player_count(), 2);
    handler.on_message(&mut interp, "{\"type\":\"connect\",\"role\":\"player\"}");
    assert_eq!(interp.server().player_count(), 2);
    handler.on_message(&mut interp, "{\"type\":\"createRoom\",\"name\":\"x\"}");
    assert_eq!(interp.server().player_count(), 2);
    handler.on_close();
    assert_eq!(interp.server().player_count(), 2);
}

#[test]
fn get_str_reads_text_members_only() {
    let msg = message("{\"type\":\"connect\",\"n\":3,\"nested\":{\"type\":\"x\"},\"e\":\"\"}");
    assert_eq!(msg.get_str("type"), Ok(String::from("connect")));
    assert_eq!(msg.get_str("e"), Ok(String::new()));
    assert_eq!(msg.get_str("n"), Err(String::from("Message 'n' must be of type string")));
    assert_eq!(
        msg.get_str("nested"),
        Err(String::from("Message 'nested' must be of type string"))
    );
    assert_eq!(
        msg.get_str("absent"),
        Err(String::from("Message 'absent' must be of type string"))
    );
    assert_eq!(msg.con, Connection::new(1));
}

#[test]
fn get_str_on_something_that_is_no_object() {
    let msg = message("[\"type\"]");
    assert_eq!(msg.get_str("type"), Err(String::from("Message 'type' must be of type string")));
    let msg = message("\"type\"");
    assert_eq!(msg.get_str("type"), Err(String::from("Message 'type' must be of type string")));
}

#[test]
fn get_role_knows_two_roles() {
    assert_eq!(message("{\"role\":\"room\"}").get_role(), Ok(Role::Room));
    assert_eq!(message("{\"role\":\"player\"}").get_role(), Ok(Role::Player));
    assert_eq!(message("{\"role\":\"Player\"}").get_role(), Err(String::from("Role not set")));
    assert_eq!(message("{\"role\":\"\"}").get_role(), Err(String::from("Role not set")));
    assert_eq!(
        message("{\"role\":true}").get_role(),
        Err(String::from("Message 'role' must be of type string"))
    );
    assert_eq!(
        message("{}").get_role(),
        Err(String::from("Message 'role' must be of type string"))
    );
}

#[test]
fn handle_message_answers() {
    let mut interp = Interpreter::new(Server::new());
    assert_eq!(
        interp.handle_message(&message("{\"type\":\"createRoom\",\"name\":\"a\"}")),
        Ok(ResultAction::Nothing)
    );
    assert_eq!(
        interp.handle_message(&message("{\"type\":\"connect\",\"role\":\"room\",\"name\":\"a\"}")),
        Ok(ResultAction::Nothing)
    );
    assert_eq!(
        interp.handle_message(&message(
            "{\"type\":\"connect\",\"role\":\"player\",\"name\":\"p\",\"room\":\"a\"}"
        )),
        Err(String::from("Room missing"))
    );
    assert_eq!(
        interp.handle_message(&message("{\"type\":\"quit\"}")),
        Err(String::from("Unknown message type quit"))
    );
    assert_eq!(
        interp.handle_message(&message("{\"role\":\"player\"}")),
        Err(String::from("Message 'type' must be of type string"))
    );
}

#[test]
fn server_hands_out_places_in_order() {
    let mut server = Server::new();
    assert_eq!(server.player_count(), 0);
    assert_eq!(server.add_player(Player::new("ann", Connection::new(7))), 0);
    assert_eq!(server.add_player(Player::new("bob", Connection::new(8))), 1);
    assert_eq!(server.add_player(Player::new("ann", Connection::new(9))), 2);
    assert_eq!(server.player_count(), 3);
    server.remove_player(1);
    server.remove_player(1);
    server.remove_player(99);
    assert_eq!(server.player_count(), 3);
    assert_eq!(server.add_player(Player::new("cy", Connection::new(10))), 3);
}

#[test]
fn server_without_rooms() {
    let mut server = Server::new();
    assert_eq!(server.get_room_by_name("lobby"), Err(String::from("Room missing")));
    assert_eq!(server.get_room_by_name(""), Err(String::from("Room missing")));
    let place = server.add_player(Player::new("ann", Connection::new(7)));
    server.add_player_to_room(place, 0);
    server.add_player_to_room(place, usize::MAX);
    assert!(server.roster(0).is_empty());
    assert!(server.roster(usize::MAX).is_empty());
    assert_eq!(server.get_room_by_name("lobby"), Err(String::from("Room missing")));
    assert_eq!(server.player_count(), 1);
}

#[test]
fn player_and_connection() {
    let player = Player::new("ann", Connection::new(5));
    assert_eq!(player.name, "ann");
    assert_eq!(player.con, Connection::new(5));
    assert_eq!(player.con.id, 5);
    let out = player.con.send("hello");
    assert_eq!(out.to, 5);
    assert_eq!(out.text, "hello");
}

/// The same message as `serde_json` writes it, built by calls.
fn update_by_serde(names: &[&str]) -> String {
    let list: Vec<serde_json::Value> =
        names.iter().map(|name| serde_json::Value::String(name.to_string())).collect();
    let mut object = serde_json::Map::new();
    object.insert(String::from("action"), serde_json::Value::String(String::from("updatePlayers")));
    object.insert(String::from("players"), serde_json::Value::Array(list));
    serde_json::Value::Object(object).to_string()
}

fn update_for(names: &[&str]) -> String {
    let players: Vec<Player> = names
        .iter()
        .enumerate()
        .map(|(i, name)| Player::new(name, Connection::new(i as u64)))
        .collect();
    players_update_text(&players)
}

#[test]
fn players_update_lists_names_in_order() {
    assert_eq!(update_for(&[]), "{\"action\":\"updatePlayers\",\"players\":[]}");
    assert_eq!(update_for(&["ann"]), "{\"action\":\"updatePlayers\",\"players\":[\"ann\"]}");
    assert_eq!(
        update_for(&["bob", "ann", "bob"]),
        "{\"action\":\"updatePlayers\",\"players\":[\"bob\",\"ann\",\"bob\"]}"
    );
}

#[test]
fn players_update_escapes_names_as_json_does() {
    assert_eq!(
        update_for(&["a\"b", "back\\slash", "line\nbreak"]),
        "{\"action\":\"updatePlayers\",\"players\":[\"a\\\"b\",\"back\\\\slash\",\"line\\nbreak\"]}"
    );
    let names = ["", "a\"b", "tab\there", "\u{1}", "é√", ",", "]}", "x\\"];
    assert_eq!(update_for(&names), update_by_serde(&names));
    assert_eq!(update_for(&[]), update_by_serde(&[]));
    assert_eq!(update_for(&["solo"]), update_by_serde(&["solo"]));
}

#[test]
fn players_update_reads_back_as_the_same_names() {
    let names = ["ann", "b\"ob", "c\\y", "d\u{7f}e"];
    let parsed: serde_json::Value = serde_json::from_str(&update_for(&names)).unwrap();
    assert_eq!(parsed["action"].as_str(), Some("updatePlayers"));
    let listed: Vec<&str> =
        parsed["players"].as_array().unwrap().iter().map(|v| v.as_str().unwrap()).collect();
    assert_eq!(listed, names);
}

#[test]
fn players_update_frame_puts_commas_between_the_names() {
    let frame = |names: &[&str]| {
        players_update_frame(&names.iter().map(|name| name.to_string()).collect())
    };
    assert_eq!(frame(&[]), "{\"action\":\"updatePlayers\",\"players\":[]}");
    assert_eq!(frame(&["1"]), "{\"action\":\"updatePlayers\",\"players\":[1]}");
    assert_eq!(frame(&["\"a\"", "\"b\""]), "{\"action\":\"updatePlayers\",\"players\":[\"a\",\"b\"]}");
    assert_eq!(frame(&["", "", ""]), "{\"action\":\"updatePlayers\",\"players\":[,,]}");
}

#[test]
fn on_parsed_answers_what_was_parsed() {
    let mut interp = Interpreter::new(Server::new());
    let mut handler = ConnectionHandler::new(Connection::new(9));
    let out = handler.on_parsed(&mut interp, serde_json::from_str("{\"type\":\"x\"}"));
    assert_eq!(out.len(), 1);
    assert_eq!(out[0].to, 9);
    assert_eq!(out[0].text, "{err:\"Unknown message type x\"}");
    let out = handler.on_parsed(&mut interp, serde_json::from_str("{\"type\":"));
    assert_eq!(out.len(), 1);
    assert_eq!(out[0].to, 9);
    assert_eq!(out[0].text, "{err: \"Invalid message\"}");
    let out =
        handler.on_parsed(&mut interp, serde_json::from_str("{\"type\":\"createRoom\",\"name\":\"r\"}"));
    assert!(out.is_empty());
}
