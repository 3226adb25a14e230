use adventure::codec::{decode_player, encode_player};
use adventure::player::{setup_player, Player};
use adventure::service::{decode_game_state, encode_game_state, GameState, StateCell};

#[test]
fn fresh_player_encodes_to_the_expected_document() {
    let p = setup_player();
    let doc = encode_player(&p);
    assert_eq!(
        doc,
        "{\"name\":\"Adventurer\",\"current_location\":\"Home\",\"inventory\":[],\"completed_quests\":[]}"
    );
}

#[test]
fn save_then_load_reproduces_the_player() {
    let mut p = Player::new("Zed", "Forest");
    p.inventory.push("stick".to_string());
    p.inventory.push("old map".to_string());
    p.completed_quests.push("Find a stick to defend yourself.".to_string());

    let doc = encode_player(&p);
    let q = decode_player(&doc).expect("an encoded document must decode");
    assert_eq!(q.name, p.name);
    assert_eq!(q.current_location, p.current_location);
    assert_eq!(q.inventory, p.inventory);
    assert_eq!(q.completed_quests, p.completed_quests);
}

#[test]
fn save_then_load_keeps_quotes_and_backslashes() {
    let mut p = Player::new("A\"B\\C", "Ho\"me");
    p.inventory.push("a\\\"b".to_string());
    let doc = encode_player(&p);
    let q = decode_player(&doc).expect("escaped values must decode");
    assert_eq!(q.name, "A\"B\\C");
    assert_eq!(q.current_location, "Ho\"me");
    assert_eq!(q.inventory, vec!["a\\\"b".to_string()]);
}

#[test]
fn save_then_load_keeps_accented_names_and_empty_items() {
    let mut p = Player::new("Åsa Müller", "Høme");
    p.inventory.push(String::new());
    p.inventory.push("ärt".to_string());
    let doc = encode_player(&p);
    let q = decode_player(&doc).expect("the document must decode");
    assert_eq!(q.name, "Åsa Müller");
    assert_eq!(q.current_location, "Høme");
    assert_eq!(q.inventory, vec![String::new(), "ärt".to_string()]);
}

#[test]
fn decode_reads_a_handwritten_document() {
    let doc = "{\"name\":\"Zed\",\"current_location\":\"Forest\",\"inventory\":[\"stick\"],\"completed_quests\":[]}";
    let p = decode_player(doc).expect("the document is well formed");
    assert_eq!(p.name, "Zed");
    assert_eq!(p.current_location, "Forest");
    assert_eq!(p.inventory, vec!["stick".to_string()]);
    assert!(p.completed_quests.is_empty());
}

#[test]
fn decode_then_encode_reproduces_the_document() {
    let doc = "{\"name\":\"Zed\",\"current_location\":\"Forest\",\"inventory\":[\"stick\",\"a\\\"b\"],\"completed_quests\":[\"one\"]}";
    let p = decode_player(doc).expect("the document is well formed");
    assert_eq!(encode_player(&p), doc);
}

#[test]
fn decode_rejects_malformed_documents() {
    assert!(decode_player("").is_none());
    assert!(decode_player("{}").is_none());
    assert!(decode_player("{\"name\":\"x\"}").is_none());
    // a missing closing brace
    assert!(decode_player(
        "{\"name\":\"A\",\"current_location\":\"H\",\"inventory\":[],\"completed_quests\":[]"
    )
    .is_none());
    // trailing characters after the document
    assert!(decode_player(
        "{\"name\":\"A\",\"current_location\":\"H\",\"inventory\":[],\"completed_quests\":[]} "
    )
    .is_none());
    // a stray escape
    assert!(decode_player(
        "{\"name\":\"\\x\",\"current_location\":\"H\",\"inventory\":[],\"completed_quests\":[]}"
    )
    .is_none());
    // the fields in the wrong order
    assert!(decode_player(
        "{\"current_location\":\"H\",\"name\":\"A\",\"inventory\":[],\"completed_quests\":[]}"
    )
    .is_none());
}

#[test]
fn encoded_player_is_valid_json_for_an_outside_reader() {
    let mut p = Player::new("A\"B\\C", "Home");
    p.inventory.push("stick".to_string());
    let doc = encode_player(&p);
    let v: serde_json::Value = serde_json::from_str(&doc).expect("the document is valid JSON");
    assert_eq!(v.get("name").unwrap().as_str().unwrap(), "A\"B\\C");
    assert_eq!(v.get("current_location").unwrap().as_str().unwrap(), "Home");
    let inv = v.get("inventory").unwrap().as_array().unwrap();
    assert_eq!(inv.len(), 1);
    assert_eq!(inv[0].as_str().unwrap(), "stick");
    assert_eq!(v.get("completed_quests").unwrap().as_array().unwrap().len(), 0);
}

#[test]
fn game_state_codec_round_trips() {
    let g = GameState::new("Adventurer", "Home");
    let doc = encode_game_state(&g);
    assert_eq!(doc, "{\"player_name\":\"Adventurer\",\"current_location\":\"Home\"}");
    let h = decode_game_state(&doc).expect("an encoded record must decode");
    assert_eq!(h.player_name, "Adventurer");
    assert_eq!(h.current_location, "Home");
}

#[test]
fn decode_game_state_rejects_malformed_documents() {
    assert!(decode_game_state("").is_none());
    assert!(decode_game_state("{\"player_name\":\"Bob\"}").is_none());
    assert!(decode_game_state("{\"player_name\":\"Bob\",\"current_location\":\"Forest\"} ").is_none());
}

#[test]
fn posting_a_record_then_reading_echoes_it_exactly() {
    let body = "{\"player_name\":\"Bob\",\"current_location\":\"Forest\"}";
    let mut cell = StateCell::new(GameState::new("Adventurer", "Home"));

    let posted = decode_game_state(body).expect("the posted body is well formed");
    cell.replace(posted);

    let read = cell.snapshot();
    assert_eq!(read.player_name, "Bob");
    assert_eq!(read.current_location, "Forest");
    assert_eq!(encode_game_state(&read), body);
}
