use mud_engine::area::{Area, Exit, Room};
use mud_engine::command::Command;
use mud_engine::engine::World;

const WELCOME_ALICE: &str =
    "Welcome to the game, Alice.  Type 'help' for a list of commands. Have fun!\r\n";

fn exit(id: u32, name: &str) -> Exit {
    Exit { id, name: name.to_string() }
}

fn room(id: u32, name: &str, description: &str, exits: Vec<Exit>) -> Room {
    Room { id, name: name.to_string(), description: description.to_string(), exits }
}

/// A tavern and a street, each with an exit to the other.
fn two_rooms() -> World {
    World::new(
        Area::new(vec![
            room(0, "tavern", "A warm tavern.", vec![exit(1, "outside")]),
            room(1, "street", "A muddy street.", vec![exit(0, "inside")]),
        ])
        .unwrap(),
    )
}

/// A tavern with a trapdoor to a cellar from which no exit leads back, a
/// street, and a swing door that leads from the tavern to the tavern.
fn town() -> World {
    World::new(
        Area::new(vec![
            room(
                0,
                "tavern",
                "A warm tavern.",
                vec![exit(1, "outside"), exit(2, "trapdoor"), exit(0, "swing door")],
            ),
            room(1, "street", "A muddy street.", vec![exit(0, "inside"), exit(0, "window")]),
            room(2, "cellar", "A dark cellar.", vec![]),
        ])
        .unwrap(),
    )
}

/// Connects `names.len()` players, names them, and empties all outboxes.
fn with_players(mut world: World, names: &[&str]) -> World {
    for name in names {
        let id = world.accept().unwrap();
        world.handle_line(id, name);
    }
    for id in 0..names.len() {
        world.take_outbound(id as u32);
    }
    world
}

fn room_of(world: &World, id: u32) -> Option<u32> {
    world.registry().get(id).unwrap().room_id
}

fn name_of(world: &World, id: u32) -> Option<String> {
    world.registry().get(id).unwrap().name.clone()
}

fn target_of(world: &World, id: u32) -> Option<u32> {
    world.registry().get(id).unwrap().attacking_id
}

#[test]
fn a_new_world_is_empty() {
    let world = two_rooms();
    assert!(world.registry().all_sessions().is_empty());
    assert_eq!(world.registry().next_id(), 0);
    assert_eq!(world.area().rooms().len(), 2);
}

#[test]
fn accept_prompts_for_a_name() {
    let mut world = two_rooms();
    assert_eq!(world.accept(), Some(0));
    assert_eq!(name_of(&world, 0), None);
    assert_eq!(room_of(&world, 0), None);
    assert_eq!(world.take_outbound(0), vec!["What is your name?\r\n"]);
}

#[test]
fn the_first_line_is_the_name() {
    let mut world = two_rooms();
    world.accept();
    world.take_outbound(0);
    world.handle_line(0, "Alice");
    assert_eq!(name_of(&world, 0).as_deref(), Some("Alice"));
    assert_eq!(room_of(&world, 0), Some(0));
    assert_eq!(world.take_outbound(0), vec![WELCOME_ALICE]);
}

#[test]
fn any_line_can_be_a_name() {
    let mut world = two_rooms();
    world.accept();
    world.handle_line(0, "say hello");
    assert_eq!(name_of(&world, 0).as_deref(), Some("say hello"));
}

#[test]
fn an_empty_line_names_nobody() {
    let mut world = two_rooms();
    world.accept();
    world.take_outbound(0);
    world.handle_line(0, "");
    assert_eq!(name_of(&world, 0), None);
    assert_eq!(room_of(&world, 0), None);
    assert!(world.take_outbound(0).is_empty());
}

#[test]
fn a_name_is_chosen_once() {
    let mut world = with_players(two_rooms(), &["Alice", "Bob"]);
    world.handle_line(0, "Mallory");
    assert_eq!(name_of(&world, 0).as_deref(), Some("Alice"));
    assert_eq!(world.take_outbound(0), vec!["Unknown command: Mallory\r\n"]);
    world.set_name(0, "Mallory");
    world.execute(0, &Command::SetName("Mallory".to_string()));
    assert_eq!(name_of(&world, 0).as_deref(), Some("Alice"));
    assert!(world.take_outbound(0).is_empty());
    assert!(world.take_outbound(1).is_empty());
    for line in ["help", "look", "say x", "go outside", "attack B", "attack A", ""] {
        world.handle_line(0, line);
        world.handle_line(1, line);
        assert_eq!(name_of(&world, 0).as_deref(), Some("Alice"));
        assert_eq!(name_of(&world, 1).as_deref(), Some("Bob"));
    }
}

#[test]
fn everyone_is_told_of_a_new_name() {
    let mut world = with_players(two_rooms(), &["Alice", "Bob"]);
    world.handle_line(1, "go outside");
    world.accept();
    world.accept();
    for id in 0..4 {
        world.take_outbound(id);
    }
    world.handle_line(2, "Carol");
    assert_eq!(world.take_outbound(0), vec!["Carol entered the game.\r\n"]);
    assert_eq!(world.take_outbound(1), vec!["Carol entered the game.\r\n"]);
    assert_eq!(
        world.take_outbound(2),
        vec!["Welcome to the game, Carol.  Type 'help' for a list of commands. Have fun!\r\n"]
    );
    assert_eq!(world.take_outbound(3), vec!["Carol entered the game.\r\n"]);
}

#[test]
fn help_lists_the_commands_to_the_asker() {
    let mut world = with_players(two_rooms(), &["Alice", "Bob"]);
    world.handle_line(0, "help");
    assert_eq!(
        world.take_outbound(0),
        vec![
            "Commands:\n    say <message>  - Says something out loud, e.g. 'say Hello'\n    look           - Examines the surroundings, e.g. 'look'\n    go <exit>      - Moves through the exit specified, e.g. 'go outside'\r\n"
        ]
    );
    assert!(world.take_outbound(1).is_empty());
}

#[test]
fn say_is_heard_in_the_room_only() {
    let mut world = with_players(town(), &["Alice", "Bob", "Carol", "Dave"]);
    world.handle_line(3, "go outside");
    world.accept();
    for id in 0..5 {
        world.take_outbound(id);
    }
    world.handle_line(0, "say hello there");
    assert!(world.take_outbound(0).is_empty());
    assert_eq!(world.take_outbound(1), vec!["Alice says: hello there\r\n"]);
    assert_eq!(world.take_outbound(2), vec!["Alice says: hello there\r\n"]);
    assert!(world.take_outbound(3).is_empty());
    assert!(world.take_outbound(4).is_empty());
}

#[test]
fn say_may_be_empty() {
    let mut world = with_players(two_rooms(), &["Alice", "Bob"]);
    world.handle_line(0, "say ");
    assert_eq!(world.take_outbound(1), vec!["Alice says: \r\n"]);
}

#[test]
fn say_changes_nobody() {
    let mut world = with_players(two_rooms(), &["Alice", "Bob"]);
    world.handle_line(0, "say hi");
    assert_eq!(room_of(&world, 0), Some(0));
    assert_eq!(room_of(&world, 1), Some(0));
    assert_eq!(target_of(&world, 0), None);
    assert_eq!(target_of(&world, 1), None);
}

#[test]
fn look_describes_the_room() {
    let mut world = with_players(town(), &["Alice", "Bob", "Carol", "Dave"]);
    world.handle_line(3, "go outside");
    world.accept();
    for id in 0..5 {
        world.take_outbound(id);
    }
    world.handle_line(1, "look");
    assert_eq!(
        world.take_outbound(1),
        vec![
            "A warm tavern.\r\n",
            "Players here: Alice, Carol\r\n",
            "Exits are: outside, trapdoor, swing door\r\n"
        ]
    );
    for id in [0, 2, 3, 4] {
        assert!(world.take_outbound(id).is_empty());
    }
}

#[test]
fn look_in_an_empty_room_without_exits() {
    let mut world = with_players(town(), &["Alice"]);
    world.handle_line(0, "go trapdoor");
    world.take_outbound(0);
    world.handle_line(0, "look");
    assert_eq!(
        world.take_outbound(0),
        vec!["A dark cellar.\r\n", "Players here: \r\n", "Exits are: \r\n"]
    );
}

#[test]
fn go_moves_to_the_destination() {
    let mut world = with_players(town(), &["Alice", "Bob"]);
    world.handle_line(0, "go outside");
    assert_eq!(room_of(&world, 0), Some(1));
    assert_eq!(room_of(&world, 1), Some(0));
    assert_eq!(world.take_outbound(0), vec!["A muddy street.\r\n"]);
    world.handle_line(0, "go inside");
    assert_eq!(room_of(&world, 0), Some(0));
    world.handle_line(0, "go trapdoor");
    assert_eq!(room_of(&world, 0), Some(2));
}

#[test]
fn go_by_an_unknown_exit_changes_nothing() {
    let mut world = with_players(town(), &["Alice", "Bob", "Carol"]);
    world.handle_line(2, "go outside");
    for id in 0..3 {
        world.take_outbound(id);
    }
    for line in ["go inside", "go nowhere", "go ", "go Outside", "go outside "] {
        world.handle_line(0, line);
        assert_eq!(room_of(&world, 0), Some(0));
        assert_eq!(room_of(&world, 1), Some(0));
        assert_eq!(room_of(&world, 2), Some(1));
        for id in 0..3 {
            assert!(world.take_outbound(id).is_empty());
        }
    }
}

#[test]
fn go_is_announced_on_both_sides() {
    let mut world = with_players(town(), &["Alice", "Bob", "Carol", "Dave"]);
    world.handle_line(2, "go outside");
    world.handle_line(3, "go trapdoor");
    for id in 0..4 {
        world.take_outbound(id);
    }
    world.handle_line(0, "go outside");
    assert_eq!(world.take_outbound(0), vec!["A muddy street.\r\n"]);
    assert_eq!(world.take_outbound(1), vec!["Alice left to the outside\r\n"]);
    assert_eq!(world.take_outbound(2), vec!["Alice arrived from the inside\r\n"]);
    assert!(world.take_outbound(3).is_empty());
}

#[test]
fn go_without_a_way_back_is_announced_on_one_side() {
    let mut world = with_players(town(), &["Alice", "Bob", "Carol"]);
    world.handle_line(2, "go trapdoor");
    for id in 0..3 {
        world.take_outbound(id);
    }
    world.handle_line(0, "go trapdoor");
    assert_eq!(room_of(&world, 0), Some(2));
    assert_eq!(world.take_outbound(0), vec!["A dark cellar.\r\n"]);
    assert_eq!(world.take_outbound(1), vec!["Alice left to the trapdoor\r\n"]);
    assert!(world.take_outbound(2).is_empty());
}

#[test]
fn go_names_the_first_exit_that_leads_back() {
    let mut world = with_players(town(), &["Alice", "Bob"]);
    world.handle_line(0, "go outside");
    world.take_outbound(0);
    world.take_outbound(1);
    world.handle_line(0, "go window");
    assert_eq!(room_of(&world, 0), Some(0));
    assert_eq!(world.take_outbound(0), vec!["A warm tavern.\r\n"]);
    assert_eq!(world.take_outbound(1), vec!["Alice arrived from the outside\r\n"]);
}

#[test]
fn go_through_a_door_that_leads_back_into_the_room() {
    let mut world = with_players(town(), &["Alice", "Bob"]);
    world.handle_line(0, "go swing door");
    assert_eq!(room_of(&world, 0), Some(0));
    assert_eq!(world.take_outbound(0), vec!["A warm tavern.\r\n"]);
    assert_eq!(
        world.take_outbound(1),
        vec!["Alice left to the swing door\r\n", "Alice arrived from the swing door\r\n"]
    );
}

#[test]
fn attack_takes_the_first_who_is_named_so() {
    let mut world = with_players(town(), &["Alice", "Bob", "Bobby"]);
    world.handle_line(0, "attack Bob");
    assert_eq!(target_of(&world, 0), Some(1));
    assert_eq!(world.take_outbound(0), vec!["You attack Bob.\r\n"]);
    assert!(world.take_outbound(1).is_empty());
    assert!(world.take_outbound(2).is_empty());
    world.handle_line(1, "attack Bobb");
    assert_eq!(target_of(&world, 1), Some(2));
    assert_eq!(world.take_outbound(1), vec!["You attack Bobby.\r\n"]);
}

#[test]
fn attack_reaches_into_other_rooms() {
    let mut world = with_players(town(), &["Alice", "Bob"]);
    world.handle_line(1, "go outside");
    world.take_outbound(0);
    world.take_outbound(1);
    world.handle_line(0, "attack B");
    assert_eq!(target_of(&world, 0), Some(1));
}

#[test]
fn attack_may_find_the_attacker() {
    let mut world = with_players(town(), &["Alice", "Bob"]);
    world.handle_line(0, "attack ");
    assert_eq!(target_of(&world, 0), Some(0));
    assert_eq!(world.take_outbound(0), vec!["You attack Alice.\r\n"]);
}

#[test]
fn attack_on_nobody_is_answered() {
    let mut world = with_players(town(), &["Alice", "Bob"]);
    world.accept();
    world.handle_line(0, "attack Zed");
    assert_eq!(target_of(&world, 0), None);
    assert_eq!(world.take_outbound(0), vec!["You do not see Zed anywhere.\r\n"]);
    world.handle_line(0, "attack bob");
    assert_eq!(target_of(&world, 0), None);
    assert_eq!(world.take_outbound(0), vec!["You do not see bob anywhere.\r\n"]);
}

#[test]
fn attack_keeps_its_target() {
    let mut world = with_players(town(), &["Alice", "Bob", "Carol"]);
    world.handle_line(0, "attack Bob");
    world.take_outbound(0);
    world.handle_line(0, "attack Carol");
    assert_eq!(target_of(&world, 0), Some(1));
    assert_eq!(world.take_outbound(0), vec!["You are already attacking Bob\r\n"]);
    world.handle_line(0, "attack Zed");
    assert_eq!(target_of(&world, 0), Some(1));
    assert_eq!(world.take_outbound(0), vec!["You are already attacking Bob\r\n"]);
    assert!(world.take_outbound(1).is_empty());
    assert!(world.take_outbound(2).is_empty());
}

#[test]
fn a_target_that_is_gone_is_a_thing() {
    let mut world = with_players(town(), &["Alice", "Bob"]);
    world.handle_line(0, "attack Bob");
    world.disconnect(1);
    world.take_outbound(0);
    world.handle_line(0, "attack Bob");
    assert_eq!(target_of(&world, 0), Some(1));
    assert_eq!(world.take_outbound(0), vec!["You are already attacking a thing\r\n"]);
}

#[test]
fn an_unknown_command_is_answered() {
    let mut world = with_players(town(), &["Alice", "Bob"]);
    world.handle_line(0, "dance wildly");
    assert_eq!(world.take_outbound(0), vec!["Unknown command: dance wildly\r\n"]);
    world.handle_line(0, "");
    assert_eq!(world.take_outbound(0), vec!["Unknown command: \r\n"]);
    world.handle_line(0, "say");
    assert_eq!(world.take_outbound(0), vec!["Unknown command: say\r\n"]);
    assert!(world.take_outbound(1).is_empty());
}

#[test]
fn a_line_from_nobody_changes_nothing() {
    let mut world = with_players(town(), &["Alice"]);
    world.handle_line(5, "say hi");
    world.handle_line(5, "Mallory");
    assert_eq!(world.registry().all_sessions().len(), 1);
    assert!(world.take_outbound(0).is_empty());
    assert!(world.take_outbound(5).is_empty());
}

#[test]
fn commands_of_the_nameless_do_nothing() {
    let mut world = with_players(town(), &["Alice"]);
    world.accept();
    world.take_outbound(1);
    world.help(1);
    world.say(1, "hi");
    world.look(1);
    world.go(1, "outside");
    world.attack(1, "Alice");
    world.unknown(1, "dance");
    world.execute(1, &Command::Look);
    assert_eq!(name_of(&world, 1), None);
    assert_eq!(room_of(&world, 1), None);
    assert_eq!(target_of(&world, 1), None);
    assert!(world.take_outbound(0).is_empty());
    assert!(world.take_outbound(1).is_empty());
}

#[test]
fn execute_does_what_the_command_asks() {
    let mut world = with_players(town(), &["Alice", "Bob"]);
    world.execute(0, &Command::Say("hi".to_string()));
    assert_eq!(world.take_outbound(1), vec!["Alice says: hi\r\n"]);
    world.execute(0, &Command::Go("outside".to_string()));
    assert_eq!(room_of(&world, 0), Some(1));
    world.execute(1, &Command::Attack("Al".to_string()));
    assert_eq!(target_of(&world, 1), Some(0));
    world.take_outbound(1);
    world.execute(1, &Command::Unknown("x".to_string()));
    assert_eq!(world.take_outbound(1), vec!["Unknown command: x\r\n"]);
    world.execute(1, &Command::Help);
    assert_eq!(world.take_outbound(1).len(), 1);
}

#[test]
fn disconnect_removes_the_player_everywhere() {
    let mut world = with_players(town(), &["Alice", "Bob", "Carol"]);
    world.handle_line(2, "go outside");
    for id in 0..3 {
        world.take_outbound(id);
    }
    let gone = world.disconnect(0).unwrap();
    assert_eq!(gone.name.as_deref(), Some("Alice"));
    assert!(world.registry().get(0).is_none());
    assert_eq!(world.registry().all_sessions().len(), 2);
    assert!(world.registry().named_sessions_in_room(0).iter().all(|p| p.id != 0));
    assert_eq!(world.take_outbound(1), vec!["Alice left the game.\r\n"]);
    assert!(world.take_outbound(2).is_empty());
    world.handle_line(1, "look");
    assert_eq!(
        world.take_outbound(1),
        vec![
            "A warm tavern.\r\n",
            "Players here: \r\n",
            "Exits are: outside, trapdoor, swing door\r\n"
        ]
    );
}

#[test]
fn nothing_is_delivered_to_one_who_is_gone() {
    let mut world = with_players(town(), &["Alice", "Bob"]);
    world.disconnect(0);
    world.handle_line(1, "say anyone?");
    world.handle_line(1, "go swing door");
    world.accept();
    world.handle_line(2, "Carol");
    world.handle_line(0, "say I am a ghost");
    assert!(world.take_outbound(0).is_empty());
    assert!(world.registry().get(0).is_none());
    assert_eq!(world.accept(), Some(3));
}

#[test]
fn two_players_in_two_rooms() {
    let mut world = two_rooms();

    let a = world.accept().unwrap();
    assert_eq!(world.take_outbound(a), vec!["What is your name?\r\n"]);
    world.handle_line(a, "Alice");
    assert_eq!(name_of(&world, a).as_deref(), Some("Alice"));
    assert_eq!(room_of(&world, a), Some(0));
    assert_eq!(world.take_outbound(a), vec![WELCOME_ALICE]);

    let b = world.accept().unwrap();
    world.handle_line(b, "Bob");
    assert_eq!(room_of(&world, b), Some(0));
    assert_eq!(world.take_outbound(a), vec!["Bob entered the game.\r\n"]);
    assert_eq!(
        world.take_outbound(b),
        vec![
            "What is your name?\r\n",
            "Welcome to the game, Bob.  Type 'help' for a list of commands. Have fun!\r\n"
        ]
    );

    world.handle_line(a, "go outside");
    assert_eq!(room_of(&world, a), Some(1));
    assert_eq!(room_of(&world, b), Some(0));
    assert_eq!(world.take_outbound(a), vec!["A muddy street.\r\n"]);
    assert_eq!(world.take_outbound(b), vec!["Alice left to the outside\r\n"]);

    world.handle_line(b, "say hi");
    assert!(world.take_outbound(a).is_empty());
    assert!(world.take_outbound(b).is_empty());
}
