use dotiam::state::{GameAction, GameState};
use dotiam::parser::{suggest_commands, suggestions};
use dotiam::text::{split_words, trim};
use dotiam::world::Edge;

fn s(x: &str) -> String {
    x.to_string()
}

#[test]
fn empty_input_is_invalid() {
    let state = GameState::new(s("Ann"));
    assert_eq!(state.parse_command(""), GameAction::Invalid(s("")));
    assert_eq!(state.parse_command(" \t\n "), GameAction::Invalid(s("")));
}

#[test]
fn verbs_and_aliases() {
    let state = GameState::new(s("Ann"));
    assert_eq!(state.parse_command("h"), GameAction::Help);
    assert_eq!(state.parse_command("HELP"), GameAction::Help);
    assert_eq!(state.parse_command("  Look around "), GameAction::Look);
    assert_eq!(state.parse_command("i"), GameAction::Inventory);
    assert_eq!(state.parse_command("inv"), GameAction::Inventory);
    assert_eq!(state.parse_command("x"), GameAction::Explore(None));
    assert_eq!(state.parse_command("explore old  tree"), GameAction::Explore(Some(s("old tree"))));
    assert_eq!(state.parse_command("take shiny   gem"), GameAction::Pickup(s("shiny gem")));
    assert_eq!(state.parse_command("get key"), GameAction::Pickup(s("key")));
    assert_eq!(state.parse_command("d rope"), GameAction::Drop(s("rope")));
    assert_eq!(state.parse_command("u wand"), GameAction::Use(s("wand")));
    assert_eq!(state.parse_command("c flint dry_wood extra"), GameAction::Combine(s("flint"), s("dry_wood")));
}

#[test]
fn verbs_missing_arguments() {
    let state = GameState::new(s("Ann"));
    assert_eq!(state.parse_command("go"), GameAction::Invalid(s("Go where?")));
    assert_eq!(state.parse_command("pickup"), GameAction::Invalid(s("Pick up what?")));
    assert_eq!(state.parse_command("drop"), GameAction::Invalid(s("Drop what?")));
    assert_eq!(state.parse_command("use"), GameAction::Invalid(s("Use what?")));
    assert_eq!(state.parse_command("combine flint"), GameAction::Invalid(s("Combine what with what?")));
}

#[test]
fn go_matches_label_or_target() {
    let state = GameState::new(s("Ann"));
    assert_eq!(state.parse_command("go forest"), GameAction::Move(s("forest")));
    assert_eq!(state.parse_command("g FOREST"), GameAction::Move(s("forest")));
    assert_eq!(state.parse_command("go go to the Forest"), GameAction::Move(s("forest")));
    assert_eq!(state.parse_command("go Castle Keep"), GameAction::Move(s("castle keep")));
}

#[test]
fn bare_label_or_target_moves() {
    let mut state = GameState::new(s("Ann"));
    state.world.nodes[0].edges.push(Edge { target_id: s("hill"), label: s("Climb the Hill"), conditions: vec![] });
    assert_eq!(state.parse_command("Forest"), GameAction::Move(s("forest")));
    assert_eq!(state.parse_command("climb  the hill"), GameAction::Move(s("hill")));
    assert_eq!(state.parse_command("dance wildly"), GameAction::Invalid(s("dance wildly")));
}

#[test]
fn parse_then_apply() {
    let mut state = GameState::new(s("Ann"));
    let action = state.parse_command("go forest");
    state.apply_action(action);
    assert_eq!(state.player.current_node, "forest");
    assert_eq!(state.turn, 1);
}

#[test]
fn split_on_all_whitespace() {
    assert_eq!(split_words("  a\tbb\u{3000}c\u{a0}\n"), vec![s("a"), s("bb"), s("c")]);
    assert!(split_words("").is_empty());
    assert_eq!(split_words("één  ü"), vec![s("één"), s("ü")]);
}

#[test]
fn suggestions_by_prefix() {
    assert_eq!(suggest_commands("  E "), vec![s("east"), s("explore")]);
    assert_eq!(suggest_commands("IN"), vec![s("inventory")]);
    assert_eq!(suggest_commands("   "), Vec::<String>::new());
    assert_eq!(suggest_commands("zz"), Vec::<String>::new());
    assert_eq!(suggestions(&s("s")), vec![s("south")]);
    assert_eq!(suggestions(&s("")), Vec::<String>::new());
}

#[test]
fn trim_strips_unicode_space() {
    assert_eq!(trim("\u{3000} go north \t"), "go north");
    assert_eq!(trim(" \n "), "");
    assert_eq!(trim("x"), "x");
}

#[test]
fn command_for_takes_lowered_verb() {
    let state = GameState::new(s("Ann"));
    assert_eq!(state.command_for(&s("take"), vec![s("red"), s("gem")], s("take red gem")), GameAction::Pickup(s("red gem")));
    assert_eq!(state.command_for(&s("TAKE"), vec![s("gem")], s("TAKE gem")), GameAction::Invalid(s("TAKE gem")));
}

#[test]
fn arguments_are_lowercased() {
    let state = GameState::new(s("Ann"));
    assert_eq!(state.parse_command("TAKE Stick"), GameAction::Pickup(s("stick")));
    assert_eq!(state.parse_command("Combine Flint DRY_WOOD"), GameAction::Combine(s("flint"), s("dry_wood")));
    assert_eq!(state.parse_command("Dance Wildly"), GameAction::Invalid(s("dance wildly")));
}

#[test]
fn parse_lowered_reads_words() {
    let state = GameState::new(s("Ann"));
    assert_eq!(state.parse_lowered("use  old key"), GameAction::Use(s("old key")));
    assert_eq!(state.parse_lowered("USE key"), GameAction::Invalid(s("USE key")));
    assert_eq!(state.parse_lowered(""), GameAction::Invalid(s("")));
}

#[test]
fn run_command_parses_and_applies() {
    let mut state = GameState::new(s("Ann"));
    assert!(state.run_command("Go Forest"));
    assert_eq!(state.player.current_node, "forest");
    assert_eq!(state.turn, 1);
    assert!(state.run_command("help"));
    assert_eq!(state.turn, 1);
}

#[test]
fn run_command_at_turn_limit() {
    let mut state = GameState::new(s("Ann"));
    state.turn = u32::MAX;
    let log_len = state.log.len();
    assert!(!state.run_command("go forest"));
    assert_eq!(state.player.current_node, "start");
    assert_eq!(state.log.len(), log_len);
    assert!(state.run_command("look"));
    assert_eq!(state.turn, u32::MAX);
    assert!(state.log.len() > log_len);
}
