use dotiam::state::{GameAction, GameState};
use dotiam::world::{Combination, Condition, ConditionType, Edge, Item, Node, World};

fn s(x: &str) -> String {
    x.to_string()
}

fn item(id: &str, name: &str, description: &str, can_pickup: bool) -> Item {
    Item { id: s(id), name: s(name), description: s(description), can_pickup }
}

fn has(v: &[String], x: &str) -> bool {
    v.iter().any(|y| y == x)
}

fn last_line(state: &GameState) -> String {
    state.log.last().cloned().unwrap()
}

#[test]
fn test_move_player() {
    let mut state = GameState::new("Player1".to_string());
    state.apply_action(GameAction::Move("forest".to_string()));
    assert_eq!(state.player.current_node, "forest");
    assert_eq!(state.turn, 1);
}

#[test]
fn test_complex_interactions() {
    let mut state = GameState::new("Tester".to_string());

    state.world.insert_item(Item {
        id: "stick".to_string(),
        name: "Stick".to_string(),
        description: "A stick".to_string(),
        can_pickup: true,
    });
    state.world.insert_item(Item {
        id: "stone".to_string(),
        name: "Stone".to_string(),
        description: "A stone".to_string(),
        can_pickup: true,
    });
    state.world.insert_item(Item {
        id: "torch".to_string(),
        name: "Torch".to_string(),
        description: "A torch".to_string(),
        can_pickup: true,
    });
    state.world.add_combination(Combination {
        item1: "stick".to_string(),
        item2: "stone".to_string(),
        result: "torch".to_string(),
    });

    assert!(state.world.place_item(&"start".to_string(), "stick".to_string()));
    assert!(state.world.place_item(&"start".to_string(), "stone".to_string()));

    state.apply_action(GameAction::Pickup("stick".to_string()));
    state.apply_action(GameAction::Pickup("stone".to_string()));
    assert!(state.player.inventory.contains(&"stick".to_string()));
    assert!(state.player.inventory.contains(&"stone".to_string()));

    state.apply_action(GameAction::Combine("stick".to_string(), "stone".to_string()));
    assert!(!state.player.inventory.contains(&"stick".to_string()));
    assert!(!state.player.inventory.contains(&"stone".to_string()));
    assert!(state.player.inventory.contains(&"torch".to_string()));

    let edge = Edge {
        target_id: "cave".to_string(),
        label: "Cave".to_string(),
        conditions: vec![Condition { condition_type: ConditionType::HasItem("torch".to_string()) }],
    };
    assert!(state.can_traverse(&edge));
}

#[test]
fn new_game_has_two_linked_nodes() {
    let state = GameState::new(s("Ann"));
    assert_eq!(state.player.current_node, "start");
    assert_eq!(state.player.hp, 100);
    assert_eq!(state.player.max_hp, 100);
    assert_eq!(state.turn, 0);
    assert_eq!(state.log, vec![s("Welcome to the world of Dotiam, Ann!")]);
    assert_eq!(state.world.nodes.len(), 2);
    assert_eq!(state.world.nodes[0].id, "start");
    assert_eq!(state.world.nodes[0].edges[0].target_id, "forest");
    assert_eq!(state.world.nodes[1].id, "forest");
    assert_eq!(state.world.nodes[1].edges[0].target_id, "start");
    assert!(state.history.is_empty());
}

#[test]
fn walk_there_and_back() {
    let mut state = GameState::new(s("Ann"));
    state.apply_action(GameAction::Move(s("forest")));
    assert_eq!(state.player.current_node, "forest");
    assert_eq!(state.turn, 1);
    assert_eq!(last_line(&state), "You move to: Go to the forest.");
    state.apply_action(GameAction::Move(s("start")));
    assert_eq!(state.player.current_node, "start");
    assert_eq!(state.turn, 2);
}

#[test]
fn move_without_edge_only_logs() {
    let mut state = GameState::new(s("Ann"));
    let log_len = state.log.len();
    state.apply_action(GameAction::Move(s("castle")));
    assert_eq!(state.player.current_node, "start");
    assert_eq!(state.turn, 0);
    assert_eq!(state.log.len(), log_len + 1);
    assert_eq!(last_line(&state), "You cannot go that way.");
}

#[test]
fn move_blocked_by_condition() {
    let mut state = GameState::new(s("Ann"));
    state.world.nodes[0].edges.push(Edge {
        target_id: s("cave"),
        label: s("Dark cave"),
        conditions: vec![Condition { condition_type: ConditionType::HasItem(s("torch")) }],
    });
    state.apply_action(GameAction::Move(s("cave")));
    assert_eq!(state.player.current_node, "start");
    assert_eq!(state.turn, 0);
    assert_eq!(last_line(&state), "You cannot go to Dark cave, conditions not met.");
    state.player.inventory.push(s("torch"));
    state.apply_action(GameAction::Move(s("cave")));
    assert_eq!(state.player.current_node, "cave");
    assert_eq!(state.turn, 1);
}

#[test]
fn move_from_missing_node_fails_softly() {
    let mut state = GameState::new(s("Ann"));
    state.player.current_node = s("nowhere");
    state.apply_action(GameAction::Move(s("forest")));
    assert_eq!(state.player.current_node, "nowhere");
    assert_eq!(state.turn, 0);
    assert_eq!(last_line(&state), "You cannot go that way.");
    assert_eq!(state.get_current_description(), "You are lost in the void.");
}

#[test]
fn empty_conditions_always_open() {
    let state = GameState::new(s("Ann"));
    let edge = Edge { target_id: s("x"), label: s("X"), conditions: vec![] };
    assert!(state.can_traverse(&edge));
}

#[test]
fn one_failing_condition_closes_edge() {
    let mut state = GameState::new(s("Ann"));
    state.player.inventory.push(s("key"));
    state.player.attributes.push((s("class"), s("mage")));
    let open = Edge {
        target_id: s("x"),
        label: s("X"),
        conditions: vec![
            Condition { condition_type: ConditionType::HasItem(s("key")) },
            Condition { condition_type: ConditionType::HasAttribute(s("class"), s("mage")) },
            Condition { condition_type: ConditionType::MinHP(100) },
        ],
    };
    assert!(state.can_traverse(&open));
    let mut hp = open.clone();
    hp.conditions.push(Condition { condition_type: ConditionType::MinHP(101) });
    assert!(!state.can_traverse(&hp));
    let mut attr = open.clone();
    attr.conditions.insert(0, Condition { condition_type: ConditionType::HasAttribute(s("class"), s("thief")) });
    assert!(!state.can_traverse(&attr));
    let mut unknown_key = open.clone();
    unknown_key.conditions.push(Condition { condition_type: ConditionType::HasAttribute(s("race"), s("elf")) });
    assert!(!state.can_traverse(&unknown_key));
    let mut missing = open;
    missing.conditions.push(Condition { condition_type: ConditionType::HasItem(s("gem")) });
    assert!(!state.can_traverse(&missing));
}

#[test]
fn pickup_then_pickup_again() {
    let mut state = GameState::new(s("Ann"));
    state.world.insert_item(item("stick", "Stick", "A stick", true));
    state.world.place_item(&s("start"), s("stick"));
    state.apply_action(GameAction::Pickup(s("stick")));
    assert_eq!(state.player.inventory, vec![s("stick")]);
    assert!(!has(&state.world.nodes[0].items, "stick"));
    assert_eq!(state.turn, 1);
    assert_eq!(last_line(&state), "You picked up: Stick");
    state.apply_action(GameAction::Pickup(s("stick")));
    assert_eq!(state.player.inventory, vec![s("stick")]);
    assert_eq!(state.turn, 1);
    assert_eq!(last_line(&state), "That item is not here.");
}

#[test]
fn pickup_refused_for_fixed_item() {
    let mut state = GameState::new(s("Ann"));
    state.world.insert_item(item("statue", "Statue", "Heavy", false));
    state.world.place_item(&s("start"), s("statue"));
    state.apply_action(GameAction::Pickup(s("statue")));
    assert!(state.player.inventory.is_empty());
    assert_eq!(state.world.nodes[0].items, vec![s("statue")]);
    assert_eq!(state.turn, 0);
    assert_eq!(last_line(&state), "You cannot pick that up.");
}

#[test]
fn unknown_item_uses_its_id_and_duplicates_stack() {
    let mut state = GameState::new(s("Ann"));
    state.world.place_item(&s("start"), s("coin"));
    state.world.place_item(&s("start"), s("coin"));
    state.apply_action(GameAction::Pickup(s("coin")));
    assert_eq!(last_line(&state), "You picked up: coin");
    state.apply_action(GameAction::Pickup(s("coin")));
    assert_eq!(state.player.inventory, vec![s("coin"), s("coin")]);
    assert_eq!(state.turn, 2);
}

#[test]
fn drop_moves_item_to_node() {
    let mut state = GameState::new(s("Ann"));
    state.player.inventory.push(s("rope"));
    state.apply_action(GameAction::Drop(s("rope")));
    assert!(state.player.inventory.is_empty());
    assert_eq!(state.world.nodes[0].items, vec![s("rope")]);
    assert_eq!(state.turn, 1);
    assert_eq!(last_line(&state), "You dropped: rope");
    state.apply_action(GameAction::Drop(s("rope")));
    assert_eq!(state.turn, 1);
    assert_eq!(last_line(&state), "You don't have that item.");
}

#[test]
fn combine_flint_and_dry_wood() {
    let mut state = GameState::new(s("Ann"));
    state.player.inventory.push(s("flint"));
    state.player.inventory.push(s("dry_wood"));
    state.world.add_combination(Combination { item1: s("flint"), item2: s("dry_wood"), result: s("torch") });
    state.apply_action(GameAction::Combine(s("flint"), s("dry_wood")));
    assert!(has(&state.player.inventory, "torch"));
    assert!(!has(&state.player.inventory, "flint"));
    assert!(!has(&state.player.inventory, "dry_wood"));
    assert_eq!(state.turn, 1);
    assert_eq!(last_line(&state), "You combined them and created: torch!");
}

#[test]
fn combine_either_order_and_one_of_each() {
    let mut state = GameState::new(s("Ann"));
    state.world.insert_item(item("torch", "Torch", "Bright", true));
    state.player.inventory = vec![s("flint"), s("flint"), s("dry_wood"), s("rope")];
    state.world.add_combination(Combination { item1: s("flint"), item2: s("dry_wood"), result: s("torch") });
    state.apply_action(GameAction::Combine(s("dry_wood"), s("flint")));
    assert_eq!(state.player.inventory, vec![s("flint"), s("rope"), s("torch")]);
    assert_eq!(state.turn, 1);
    assert_eq!(last_line(&state), "You combined them and created: Torch!");
}

#[test]
fn combine_failures() {
    let mut state = GameState::new(s("Ann"));
    state.player.inventory = vec![s("flint"), s("rope")];
    state.world.add_combination(Combination { item1: s("flint"), item2: s("dry_wood"), result: s("torch") });
    state.apply_action(GameAction::Combine(s("flint"), s("dry_wood")));
    assert_eq!(last_line(&state), "You need both items in your inventory to combine them.");
    state.apply_action(GameAction::Combine(s("flint"), s("rope")));
    assert_eq!(last_line(&state), "Those items cannot be combined.");
    assert_eq!(state.player.inventory, vec![s("flint"), s("rope")]);
    assert_eq!(state.turn, 0);
}

#[test]
fn first_matching_combination_wins() {
    let mut state = GameState::new(s("Ann"));
    state.player.inventory = vec![s("a"), s("b")];
    state.world.add_combination(Combination { item1: s("b"), item2: s("a"), result: s("first") });
    state.world.add_combination(Combination { item1: s("a"), item2: s("b"), result: s("second") });
    state.apply_action(GameAction::Combine(s("a"), s("b")));
    assert_eq!(state.player.inventory, vec![s("first")]);
}

#[test]
fn help_lists_commands() {
    let mut state = GameState::new(s("Ann"));
    state.apply_action(GameAction::Help);
    assert_eq!(state.log.len(), 11);
    assert_eq!(state.log[1], "Available commands:");
    assert_eq!(state.log[10], "  u, use <item>    - Use an item");
    assert_eq!(state.turn, 0);
}

#[test]
fn look_reports_scene() {
    let mut state = GameState::new(s("Ann"));
    state.world.insert_item(item("stick", "Stick", "A stick", true));
    state.world.place_item(&s("start"), s("stick"));
    state.world.place_item(&s("start"), s("pebble"));
    state.apply_action(GameAction::Look);
    assert_eq!(
        state.log[1..].to_vec(),
        vec![
            s("You are at the starting point of your adventure."),
            s("Items here: Stick, pebble"),
            s("Available paths: Go to the forest"),
        ]
    );
    assert_eq!(state.turn, 0);
}

#[test]
fn look_without_items() {
    let mut state = GameState::new(s("Ann"));
    state.world.nodes[0].edges.push(Edge { target_id: s("hill"), label: s("Climb"), conditions: vec![] });
    state.apply_action(GameAction::Look);
    assert_eq!(
        state.log[1..].to_vec(),
        vec![s("You are at the starting point of your adventure."), s("Available paths: Go to the forest, Climb")]
    );
}

#[test]
fn inventory_report() {
    let mut state = GameState::new(s("Ann"));
    state.apply_action(GameAction::Inventory);
    assert_eq!(last_line(&state), "Your inventory is empty.");
    state.world.insert_item(item("torch", "Torch", "Bright", true));
    state.player.inventory = vec![s("torch"), s("coin")];
    state.apply_action(GameAction::Inventory);
    assert_eq!(last_line(&state), "You are carrying: Torch, coin");
    assert_eq!(state.turn, 0);
}

#[test]
fn explore_variants_always_count() {
    let mut state = GameState::new(s("Ann"));
    state.world.insert_item(item("torch", "Torch", "Bright", true));
    state.apply_action(GameAction::Explore(None));
    assert_eq!(last_line(&state), "You look around carefully but find nothing new.");
    state.apply_action(GameAction::Explore(Some(s("torch"))));
    assert_eq!(last_line(&state), "You don't see any torch here.");
    state.apply_action(GameAction::Explore(Some(s("ghost"))));
    assert_eq!(last_line(&state), "You don't see anything special about ghost.");
    state.world.place_item(&s("start"), s("torch"));
    state.apply_action(GameAction::Explore(Some(s("torch"))));
    assert_eq!(last_line(&state), "Torch: Bright");
    assert_eq!(state.turn, 4);
}

#[test]
fn use_item_and_invalid() {
    let mut state = GameState::new(s("Ann"));
    state.apply_action(GameAction::Use(s("wand")));
    assert_eq!(last_line(&state), "You don't have that item.");
    assert_eq!(state.turn, 0);
    state.player.inventory.push(s("wand"));
    state.apply_action(GameAction::Use(s("wand")));
    assert_eq!(last_line(&state), "You use the wand. Nothing obvious happens.");
    assert_eq!(state.turn, 1);
    state.apply_action(GameAction::Invalid(s("dance")));
    assert_eq!(last_line(&state), "Unknown command: dance");
    assert_eq!(state.turn, 1);
}

#[test]
fn new_with_world_picks_start_node() {
    let mut world = World::new();
    let plain = |id: &str| Node { id: s(id), description: s(id), attributes: vec![], edges: vec![], items: vec![] };
    world.insert_node(plain("hall"));
    world.insert_node(plain("start"));
    let state = GameState::new_with_world(s("Bo"), world.clone());
    assert_eq!(state.player.current_node, "start");
    assert_eq!(state.log, vec![s("Welcome to the world of Dotiam, Bo!")]);

    let mut other = World::new();
    other.insert_node(plain("hall"));
    other.insert_node(plain("yard"));
    assert_eq!(GameState::new_with_world(s("Bo"), other).player.current_node, "hall");
    assert_eq!(GameState::new_with_world(s("Bo"), World::new()).player.current_node, "");
}

#[test]
fn insert_replaces_same_id() {
    let mut world = World::new();
    world.insert_item(item("gem", "Gem", "Red", true));
    world.insert_item(item("gem", "Jewel", "Blue", false));
    assert_eq!(world.items, vec![item("gem", "Jewel", "Blue", false)]);
    assert!(!world.place_item(&s("nowhere"), s("gem")));
}

#[test]
fn ascii_map_is_disabled() {
    let state = GameState::new(s("Ann"));
    assert_eq!(state.world.get_ascii_map(), "Graph-based world (ASCII map disabled)");
}
