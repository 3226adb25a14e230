use adventure::combat::{combat_step, CombatCommand, CombatOutcome, Enemy};
use adventure::explore::{
    apply_go, explore_step, install_loaded, parse_command, render_inventory, render_location,
    Action, Command, MoveOutcome,
};
use adventure::player::{setup_player, Player};
use adventure::world::{setup_locations, Location, Quest};

#[test]
fn fresh_player_starts_at_home() {
    let p = setup_player();
    assert_eq!(p.name, "Adventurer");
    assert_eq!(p.current_location, "Home");
    assert!(p.inventory.is_empty());
    assert!(p.completed_quests.is_empty());
}

#[test]
fn new_location_is_empty() {
    let l = Location::new("Cave", "A damp cave.");
    assert_eq!(l.name, "Cave");
    assert_eq!(l.description, "A damp cave.");
    assert!(l.quests.is_empty());
    assert!(l.exits.is_empty());
}

#[test]
fn new_quest_starts_uncompleted() {
    let q = Quest::new("Find a stick.", "variables");
    assert_eq!(q.description, "Find a stick.");
    assert!(!q.completed);
    assert_eq!(q.rust_concept, "variables");
}

#[test]
fn world_has_home_and_forest() {
    let w = setup_locations();
    let home = w.lookup("Home").expect("Home must be on the map");
    assert_eq!(home.name, "Home");
    assert_eq!(home.description, "You are in your cozy home.");
    assert!(home.quests.is_empty());
    assert_eq!(home.exits.len(), 1);
    assert_eq!(home.exits[0].direction, "north");
    assert_eq!(home.exits[0].destination, "Forest");

    let forest = w.lookup("Forest").expect("Forest must be on the map");
    assert_eq!(forest.quests.len(), 1);
    assert_eq!(forest.quests[0].description, "Find a stick to defend yourself.");
    assert_eq!(forest.exits[0].direction, "south");
    assert_eq!(forest.exits[0].destination, "Home");

    assert!(w.lookup("Cave").is_none());
}

#[test]
fn go_valid_direction_moves_to_mapped_destination() {
    let w = setup_locations();
    let mut p = setup_player();
    let o = apply_go(&mut p, &w, "north");
    assert_eq!(o, MoveOutcome::Moved);
    assert_eq!(p.current_location, "Forest");
    let o2 = apply_go(&mut p, &w, "south");
    assert_eq!(o2, MoveOutcome::Moved);
    assert_eq!(p.current_location, "Home");
}

#[test]
fn go_invalid_direction_leaves_location_unchanged() {
    let w = setup_locations();
    let mut p = setup_player();
    let o = apply_go(&mut p, &w, "south");
    assert_eq!(o, MoveOutcome::NoExit);
    assert_eq!(p.current_location, "Home");
    let o2 = apply_go(&mut p, &w, "sideways");
    assert_eq!(o2, MoveOutcome::NoExit);
    assert_eq!(p.current_location, "Home");
}

#[test]
fn go_from_unknown_location_moves_nothing() {
    let w = setup_locations();
    let mut p = Player::new("Lost", "Nowhere");
    let o = apply_go(&mut p, &w, "north");
    assert_eq!(o, MoveOutcome::UnknownLocation);
    assert_eq!(p.current_location, "Nowhere");
}

#[test]
fn parse_command_recognises_the_fixed_words() {
    assert!(matches!(parse_command("quit"), Command::Quit));
    assert!(matches!(parse_command("save"), Command::Save));
    assert!(matches!(parse_command("load"), Command::Load));
    assert!(matches!(parse_command("inventory"), Command::Inventory));
    assert!(matches!(parse_command("fly"), Command::Unknown));
    assert!(matches!(parse_command(""), Command::Unknown));
}

#[test]
fn parse_command_go_takes_the_first_token() {
    match parse_command("go north") {
        Command::Go(d) => assert_eq!(d, "north"),
        _ => panic!("expected a go command"),
    }
    match parse_command("go   north") {
        Command::Go(d) => assert_eq!(d, "north"),
        _ => panic!("expected a go command"),
    }
    match parse_command("go north east") {
        Command::Go(d) => assert_eq!(d, "north"),
        _ => panic!("expected a go command"),
    }
    match parse_command("go ") {
        Command::Go(d) => assert_eq!(d, ""),
        _ => panic!("expected a go command"),
    }
    // without the blank after the keyword the line is not a go command
    assert!(matches!(parse_command("go"), Command::Unknown));
    assert!(matches!(parse_command("gonorth"), Command::Unknown));
    assert!(matches!(parse_command("go\tnorth"), Command::Unknown));
}

#[test]
fn go_with_an_empty_direction_finds_no_exit() {
    let w = setup_locations();
    let mut p = setup_player();
    let o = apply_go(&mut p, &w, "");
    assert_eq!(o, MoveOutcome::NoExit);
    assert_eq!(p.current_location, "Home");
}

#[test]
fn inventory_render_is_idempotent() {
    let mut p = setup_player();
    let first = render_inventory(&p);
    let second = render_inventory(&p);
    assert_eq!(first, "Your inventory is empty.\n");
    assert_eq!(first, second);

    p.inventory.push("sword".to_string());
    p.inventory.push("shield".to_string());
    let third = render_inventory(&p);
    let fourth = render_inventory(&p);
    assert_eq!(third, "Inventory: sword shield \n");
    assert_eq!(third, fourth);
}

#[test]
fn location_render_shows_quests_and_exits() {
    let w = setup_locations();
    let mut p = setup_player();
    let home = render_location(&p, &w).expect("Home renders");
    assert_eq!(home, "Location: Home\nYou are in your cozy home.\nExits: north \n");

    apply_go(&mut p, &w, "north");
    let forest = render_location(&p, &w).expect("Forest renders");
    assert_eq!(
        forest,
        "Location: Forest\nYou are in a dark, spooky forest.\nQuest: Find a stick to defend yourself.\nExits: south \n"
    );
}

#[test]
fn location_render_hides_completed_quests() {
    let w = setup_locations();
    let mut p = Player::new("Adventurer", "Forest");
    p.completed_quests.push("Find a stick to defend yourself.".to_string());
    let forest = render_location(&p, &w).expect("Forest renders");
    assert_eq!(forest, "Location: Forest\nYou are in a dark, spooky forest.\nExits: south \n");
}

#[test]
fn location_render_reports_unknown_location() {
    let w = setup_locations();
    let p = Player::new("Lost", "Nowhere");
    assert!(render_location(&p, &w).is_none());
}

#[test]
fn three_attacks_defeat_a_thirty_health_enemy() {
    let mut e = Enemy::new("Goblin", 30, 10);
    assert_eq!(combat_step(&mut e, &CombatCommand::Attack), CombatOutcome::EnemyCounters);
    assert_eq!(e.health, 20);
    assert_eq!(combat_step(&mut e, &CombatCommand::Attack), CombatOutcome::EnemyCounters);
    assert_eq!(e.health, 10);
    assert_eq!(combat_step(&mut e, &CombatCommand::Attack), CombatOutcome::Victory);
    assert_eq!(e.health, 0);
}

#[test]
fn an_attack_wins_exactly_when_health_drops_to_zero_or_below() {
    let mut exact = Enemy::new("Goblin", 10, 10);
    assert_eq!(combat_step(&mut exact, &CombatCommand::Attack), CombatOutcome::Victory);
    assert_eq!(exact.health, 0);

    let mut weak = Enemy::new("Imp", 1, 10);
    assert_eq!(combat_step(&mut weak, &CombatCommand::Attack), CombatOutcome::Victory);
    assert_eq!(weak.health, -9);

    let mut strong = Enemy::new("Troll", 11, 10);
    assert_eq!(combat_step(&mut strong, &CombatCommand::Attack), CombatOutcome::EnemyCounters);
    assert_eq!(strong.health, 1);
}

#[test]
fn running_ends_the_encounter_with_no_health_change() {
    let mut e = Enemy::new("Goblin", 30, 10);
    assert_eq!(combat_step(&mut e, &CombatCommand::Run), CombatOutcome::Fled);
    assert_eq!(e.health, 30);
}

#[test]
fn unrecognised_combat_input_repeats_the_turn() {
    let mut e = Enemy::new("Goblin", 30, 10);
    assert_eq!(combat_step(&mut e, &CombatCommand::Other), CombatOutcome::NotUnderstood);
    assert_eq!(e.health, 30);
}

#[test]
fn explore_step_dispatches_commands() {
    let w = setup_locations();
    let mut p = setup_player();

    assert!(matches!(explore_step(&mut p, &w, "quit"), Action::Quit));
    assert!(matches!(explore_step(&mut p, &w, "load"), Action::LoadRequest));

    match explore_step(&mut p, &w, "inventory") {
        Action::Message(t) => assert_eq!(t, "Your inventory is empty.\n"),
        _ => panic!("inventory must print"),
    }

    match explore_step(&mut p, &w, "look around") {
        Action::Message(t) => assert_eq!(t, "I don't understand that command.\n"),
        _ => panic!("unknown input must print"),
    }

    assert!(matches!(explore_step(&mut p, &w, "go north"), Action::Silent));
    assert_eq!(p.current_location, "Forest");

    match explore_step(&mut p, &w, "go north") {
        Action::Message(t) => assert_eq!(t, "You can't go that way!\n"),
        _ => panic!("a missing exit must print"),
    }
    assert_eq!(p.current_location, "Forest");
}

#[test]
fn explore_step_save_round_trips_through_load() {
    let w = setup_locations();
    let mut p = setup_player();
    p.inventory.push("stick".to_string());
    explore_step(&mut p, &w, "go north");

    let doc = match explore_step(&mut p, &w, "save") {
        Action::SaveDoc(d) => d,
        _ => panic!("save must produce a document"),
    };

    let mut other = setup_player();
    assert!(install_loaded(&mut other, &doc));
    assert_eq!(other.name, p.name);
    assert_eq!(other.current_location, p.current_location);
    assert_eq!(other.inventory, p.inventory);
    assert_eq!(other.completed_quests, p.completed_quests);
}

#[test]
fn install_loaded_rejects_garbage_and_keeps_the_player() {
    let mut p = setup_player();
    assert!(!install_loaded(&mut p, "not a save document"));
    assert_eq!(p.name, "Adventurer");
    assert_eq!(p.current_location, "Home");
}
