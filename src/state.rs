//! The game state and the action interpreter.
use vstd::prelude::*;

use crate::text::{join, join_with, lemma_position_of, position_of, texts, find_text};
use crate::world::{
    attribute_is, attribute_value, combination_index, display_name, display_names, edge_index,
    find_edge, item_index, node_index, pickable, same_world, Condition, ConditionType, Edge,
    Node, World,
};

verus! {

/// The player character.
#[derive(Debug, Clone)]
pub struct Player {
    pub name: String,
    pub current_node: String,
    pub hp: u32,
    pub max_hp: u32,
    /// Item ids carried, in the order picked up; the same id may appear twice.
    pub inventory: Vec<String>,
    pub attributes: Vec<(String, String)>,
}

/// A run of the game: the player, the world, the turn counter, the narration
/// log and the undo history of world edits.
#[derive(Debug, Clone)]
pub struct GameState {
    pub player: Player,
    pub world: World,
    pub turn: u32,
    pub log: Vec<String>,
    pub history: Vec<World>,
}

/// A parsed player command.
#[derive(Debug, Clone, PartialEq, Eq)]
pub enum GameAction {
    Help,
    Look,
    Move(String),
    Explore(Option<String>),
    Combine(String, String),
    Pickup(String),
    Drop(String),
    Inventory,
    Use(String),
    Invalid(String),
}

/// A command as character sequences.
pub enum ActionModel {
    Help,
    Look,
    Move(Seq<char>),
    Explore(Option<Seq<char>>),
    Combine(Seq<char>, Seq<char>),
    Pickup(Seq<char>),
    Drop(Seq<char>),
    Inventory,
    Use(Seq<char>),
    Invalid(Seq<char>),
}

impl View for GameAction {
    type V = ActionModel;

    open spec fn view(&self) -> ActionModel {
        match self {
            GameAction::Help => ActionModel::Help,
            GameAction::Look => ActionModel::Look,
            GameAction::Move(t) => ActionModel::Move(t@),
            GameAction::Explore(None) => ActionModel::Explore(None),
            GameAction::Explore(Some(t)) => ActionModel::Explore(Some(t@)),
            GameAction::Combine(a, b) => ActionModel::Combine(a@, b@),
            GameAction::Pickup(t) => ActionModel::Pickup(t@),
            GameAction::Drop(t) => ActionModel::Drop(t@),
            GameAction::Inventory => ActionModel::Inventory,
            GameAction::Use(t) => ActionModel::Use(t@),
            GameAction::Invalid(t) => ActionModel::Invalid(t@),
        }
    }
}

/// Whether the action may advance the turn counter.
pub open spec fn advances(a: ActionModel) -> bool {
    match a {
        ActionModel::Move(_) | ActionModel::Explore(_) | ActionModel::Pickup(_) | ActionModel::Drop(
            _,
        ) | ActionModel::Use(_) | ActionModel::Combine(_, _) => true,
        _ => false,
    }
}

impl GameAction {
    /// Whether the action may advance the turn counter.
    pub fn advances(&self) -> (r: bool)
        ensures
            r == advances(self@),
    {
        match self {
            GameAction::Move(_) | GameAction::Explore(_) | GameAction::Pickup(_) | GameAction::Drop(
                _,
            ) | GameAction::Use(_) | GameAction::Combine(_, _) => true,
            _ => false,
        }
    }
}

/// The most snapshots that the history keeps.
pub const HISTORY_LIMIT: usize = 50;

/// Whether the player carries the item.
pub open spec fn carries(p: Player, id: Seq<char>) -> bool {
    texts(p.inventory@).contains(id)
}

pub open spec fn condition_holds(p: Player, c: Condition) -> bool {
    match c.condition_type {
        ConditionType::HasItem(i) => carries(p, i@),
        ConditionType::HasAttribute(k, v) => attribute_value(p.attributes@, k@) == Some(v@),
        ConditionType::MinHP(n) => p.hp >= n,
    }
}

/// Whether every condition holds of the player.
pub open spec fn conditions_hold(p: Player, cs: Seq<Condition>) -> bool {
    forall|i: int| 0 <= i < cs.len() ==> condition_holds(p, #[trigger] cs[i])
}

/// The first occurrence of `x` taken out of `s`, if there is one.
pub open spec fn without_first(s: Seq<Seq<char>>, x: Seq<char>) -> Seq<Seq<char>> {
    let i = position_of(s, x);
    if i >= 0 {
        s.remove(i)
    } else {
        s
    }
}

impl GameState {
    /// Index of the player's node in the world, or -1.
    pub open spec fn here(self) -> int {
        node_index(self.world.nodes@, self.player.current_node@)
    }

    /// The edges out of the player's node (none where that node is missing).
    pub open spec fn exits(self) -> Seq<Edge> {
        if self.here() >= 0 {
            self.world.nodes@[self.here()].edges@
        } else {
            seq![]
        }
    }

    /// The item ids lying at the player's node (none where that node is missing).
    pub open spec fn items_here(self) -> Seq<Seq<char>> {
        if self.here() >= 0 {
            texts(self.world.nodes@[self.here()].items@)
        } else {
            seq![]
        }
    }

    /// The description of the player's node.
    pub open spec fn description(self) -> Seq<char> {
        if self.here() >= 0 {
            self.world.nodes@[self.here()].description@
        } else {
            "You are lost in the void."@
        }
    }
}

/// `post` is `pre` with `lines` appended to the log and the turn counter
/// advanced by `dt`.
pub open spec fn narrated(pre: GameState, post: GameState, lines: Seq<Seq<char>>, dt: int) -> bool {
    &&& post.player == pre.player
    &&& post.world == pre.world
    &&& post.turn == pre.turn + dt
    &&& post.history == pre.history
    &&& texts(post.log@) == texts(pre.log@) + lines
}

/// `b` is `a` standing at node `at`.
pub open spec fn relocated(a: Player, b: Player, at: Seq<char>) -> bool {
    &&& b.current_node@ == at
    &&& b.name == a.name
    &&& b.hp == a.hp
    &&& b.max_hp == a.max_hp
    &&& b.inventory == a.inventory
    &&& b.attributes == a.attributes
}

/// `b` is `a` carrying `inv`.
pub open spec fn carrying(a: Player, b: Player, inv: Seq<Seq<char>>) -> bool {
    &&& b.current_node == a.current_node
    &&& b.name == a.name
    &&& b.hp == a.hp
    &&& b.max_hp == a.max_hp
    &&& texts(b.inventory@) == inv
    &&& b.attributes == a.attributes
}

/// `b` is `a` with the items at node `n` now `items` (no change where `n < 0`).
pub open spec fn items_placed(a: World, b: World, n: int, items: Seq<Seq<char>>) -> bool {
    if n < 0 {
        b == a
    } else {
        &&& b.items == a.items
        &&& b.combinations == a.combinations
        &&& b.nodes@.len() == a.nodes@.len()
        &&& forall|j: int| 0 <= j < a.nodes@.len() && j != n ==> b.nodes@[j] == a.nodes@[j]
        &&& b.nodes@[n].id == a.nodes@[n].id
        &&& b.nodes@[n].description == a.nodes@[n].description
        &&& b.nodes@[n].attributes == a.nodes@[n].attributes
        &&& b.nodes@[n].edges == a.nodes@[n].edges
        &&& texts(b.nodes@[n].items@) == items
    }
}

/// `post` is `pre` with the turn advanced by one, `line` logged, and nothing
/// else changed but the player and the world.
pub open spec fn acted(pre: GameState, post: GameState, line: Seq<char>) -> bool {
    &&& post.turn == pre.turn + 1
    &&& post.history == pre.history
    &&& texts(post.log@) == texts(pre.log@) + seq![line]
}

pub open spec fn help_text() -> Seq<Seq<char>> {
    seq![
        "Available commands:"@,
        "  h, help          - Show this help"@,
        "  l, look          - Look at the current scene"@,
        "  g, go <target>   - Go to a specific place"@,
        "  x, explore [obj] - Explore the scene or an object"@,
        "  c, combine <a> <b> - Combine two items"@,
        "  p, pickup <item> - Pick up an item"@,
        "  d, drop <item>   - Drop an item"@,
        "  i, inventory     - Show your inventory"@,
        "  u, use <item>    - Use an item"@,
    ]
}

/// What `Look` reports.
pub open spec fn look_text(s: GameState) -> Seq<Seq<char>> {
    if s.here() >= 0 {
        let node = s.world.nodes@[s.here()];
        let paths = seq![
            "Available paths: "@ + join(node.edges@.map_values(|e: Edge| e.label@), ", "@),
        ];
        if node.items@.len() > 0 {
            seq![
                s.description(),
                "Items here: "@ + join(display_names(s.world, texts(node.items@)), ", "@),
            ] + paths
        } else {
            seq![s.description()] + paths
        }
    } else {
        seq![s.description()]
    }
}

/// What `Move(t)` does.
pub open spec fn move_step(pre: GameState, post: GameState, t: Seq<char>) -> bool {
    let e = edge_index(pre.exits(), t);
    if e < 0 {
        narrated(pre, post, seq!["You cannot go that way."@], 0)
    } else if !conditions_hold(pre.player, pre.exits()[e].conditions@) {
        narrated(
            pre,
            post,
            seq!["You cannot go to "@ + pre.exits()[e].label@ + ", conditions not met."@],
            0,
        )
    } else {
        &&& relocated(pre.player, post.player, t)
        &&& post.world == pre.world
        &&& acted(pre, post, "You move to: "@ + pre.exits()[e].label@ + "."@)
    }
}

/// What `Explore(target)` does.
pub open spec fn explore_step(pre: GameState, post: GameState, target: Option<Seq<char>>) -> bool {
    match target {
        None => narrated(pre, post, seq!["You look around carefully but find nothing new."@], 1),
        Some(id) => {
            let i = item_index(pre.world.items@, id);
            if i < 0 {
                narrated(pre, post, seq!["You don't see anything special about "@ + id + "."@], 1)
            } else if carries(pre.player, id) || pre.items_here().contains(id) {
                let item = pre.world.items@[i];
                narrated(pre, post, seq![item.name@ + ": "@ + item.description@], 1)
            } else {
                narrated(pre, post, seq!["You don't see any "@ + id + " here."@], 1)
            }
        },
    }
}

/// What `Pickup(id)` does.
pub open spec fn pickup_step(pre: GameState, post: GameState, id: Seq<char>) -> bool {
    let p = position_of(pre.items_here(), id);
    if p < 0 {
        narrated(pre, post, seq!["That item is not here."@], 0)
    } else if !pickable(pre.world, id) {
        narrated(pre, post, seq!["You cannot pick that up."@], 0)
    } else {
        &&& items_placed(pre.world, post.world, pre.here(), pre.items_here().remove(p))
        &&& carrying(pre.player, post.player, texts(pre.player.inventory@).push(id))
        &&& acted(pre, post, "You picked up: "@ + display_name(pre.world, id))
    }
}

/// What `Drop(id)` does.
pub open spec fn drop_step(pre: GameState, post: GameState, id: Seq<char>) -> bool {
    let p = position_of(texts(pre.player.inventory@), id);
    if p < 0 {
        narrated(pre, post, seq!["You don't have that item."@], 0)
    } else {
        &&& items_placed(pre.world, post.world, pre.here(), pre.items_here().push(id))
        &&& carrying(pre.player, post.player, texts(pre.player.inventory@).remove(p))
        &&& acted(pre, post, "You dropped: "@ + display_name(pre.world, id))
    }
}

/// What `Inventory` reports.
pub open spec fn inventory_text(s: GameState) -> Seq<char> {
    if s.player.inventory@.len() == 0 {
        "Your inventory is empty."@
    } else {
        "You are carrying: "@ + join(display_names(s.world, texts(s.player.inventory@)), ", "@)
    }
}

/// What `Use(id)` does.
pub open spec fn use_step(pre: GameState, post: GameState, id: Seq<char>) -> bool {
    if carries(pre.player, id) {
        narrated(pre, post, seq!["You use the "@ + id + ". Nothing obvious happens."@], 1)
    } else {
        narrated(pre, post, seq!["You don't have that item."@], 0)
    }
}

/// What `Combine(a, b)` does.
pub open spec fn combine_step(pre: GameState, post: GameState, a: Seq<char>, b: Seq<char>) -> bool {
    let c = combination_index(pre.world.combinations@, a, b);
    if !(carries(pre.player, a) && carries(pre.player, b)) {
        narrated(pre, post, seq!["You need both items in your inventory to combine them."@], 0)
    } else if c < 0 {
        narrated(pre, post, seq!["Those items cannot be combined."@], 0)
    } else {
        let result = pre.world.combinations@[c].result@;
        let inv = without_first(without_first(texts(pre.player.inventory@), a), b);
        &&& carrying(pre.player, post.player, inv.push(result))
        &&& post.world == pre.world
        &&& acted(pre, post, "You combined them and created: "@ + display_name(pre.world, result) + "!"@)
    }
}

/// What applying the action `a` to `pre` yields.
pub open spec fn step(pre: GameState, post: GameState, a: ActionModel) -> bool {
    match a {
        ActionModel::Help => narrated(pre, post, help_text(), 0),
        ActionModel::Look => narrated(pre, post, look_text(pre), 0),
        ActionModel::Move(t) => move_step(pre, post, t),
        ActionModel::Explore(t) => explore_step(pre, post, t),
        ActionModel::Pickup(id) => pickup_step(pre, post, id),
        ActionModel::Drop(id) => drop_step(pre, post, id),
        ActionModel::Inventory => narrated(pre, post, seq![inventory_text(pre)], 0),
        ActionModel::Use(id) => use_step(pre, post, id),
        ActionModel::Combine(x, y) => combine_step(pre, post, x, y),
        ActionModel::Invalid(t) => narrated(pre, post, seq!["Unknown command: "@ + t], 0),
    }
}

fn text3(a: &str, b: &str, c: &str) -> (r: String)
    ensures
        r@ == a@ + b@ + c@,
{
    String::from_str(a).concat(b).concat(c)
}

impl GameState {
    /// Appends one line to the log.
    fn say(&mut self, line: String)
        ensures
            narrated(*old(self), *final(self), seq![line@], 0),
    {
        let ghost before = self.log@;
        self.log.push(line);
        assert(texts(self.log@) =~= texts(before) + seq![line@]);
    }

    /// The index of the player's node.
    pub fn current_index(&self) -> (r: Option<usize>)
        ensures
            match r {
                Some(i) => i < self.world.nodes@.len() && i as int == self.here(),
                None => self.here() < 0,
            },
    {
        self.world.find_node(&self.player.current_node)
    }

    pub fn get_current_description(&self) -> (r: String)
        ensures
            r@ == self.description(),
    {
        match self.current_index() {
            Some(i) => self.world.nodes[i].description.clone(),
            None => String::from_str("You are lost in the void."),
        }
    }

    /// Whether every condition of `edge` holds of the player; checking stops
    /// at the first that fails.
    pub fn can_traverse(&self, edge: &Edge) -> (r: bool)
        ensures
            r == conditions_hold(self.player, edge.conditions@),
    {
        let mut i: usize = 0;
        while i < edge.conditions.len()
            invariant
                i <= edge.conditions@.len(),
                forall|j: int| 0 <= j < i ==> condition_holds(self.player, #[trigger] edge.conditions@[j]),
            decreases edge.conditions@.len() - i,
        {
            let ok = match &edge.conditions[i].condition_type {
                ConditionType::HasItem(item) => {
                    let found = find_text(&self.player.inventory, item);
                    proof { lemma_position_of(texts(self.player.inventory@), item@); }
                    found.is_some()
                },
                ConditionType::HasAttribute(k, v) => attribute_is(&self.player.attributes, k, v),
                ConditionType::MinHP(n) => self.player.hp >= *n,
            };
            if !ok {
                return false;
            }
            i = i + 1;
        }
        true
    }
}

impl GameState {
    fn help(&mut self)
        ensures
            narrated(*old(self), *final(self), help_text(), 0),
    {
        let ghost pre = *self;
        self.say(String::from_str("Available commands:"));
        self.say(String::from_str("  h, help          - Show this help"));
        self.say(String::from_str("  l, look          - Look at the current scene"));
        self.say(String::from_str("  g, go <target>   - Go to a specific place"));
        self.say(String::from_str("  x, explore [obj] - Explore the scene or an object"));
        self.say(String::from_str("  c, combine <a> <b> - Combine two items"));
        self.say(String::from_str("  p, pickup <item> - Pick up an item"));
        self.say(String::from_str("  d, drop <item>   - Drop an item"));
        self.say(String::from_str("  i, inventory     - Show your inventory"));
        self.say(String::from_str("  u, use <item>    - Use an item"));
        assert(texts(self.log@) =~= texts(pre.log@) + help_text());
    }

    fn look(&mut self)
        ensures
            narrated(*old(self), *final(self), look_text(*old(self)), 0),
    {
        let ghost pre = *self;
        let d = self.get_current_description();
        self.say(d);
        match self.current_index() {
            None => {},
            Some(n) => {
                if self.world.nodes[n].items.len() > 0 {
                    let names = self.world.names_of(&self.world.nodes[n].items);
                    let joined = join_with(&names, ", ");
                    self.say(String::from_str("Items here: ").concat(joined.as_str()));
                }
                let mut labels: Vec<String> = Vec::new();
                let mut i: usize = 0;
                while i < self.world.nodes[n].edges.len()
                    invariant
                        n < self.world.nodes@.len(),
                        i <= self.world.nodes@[n as int].edges@.len(),
                        labels@.len() == i,
                        forall|j: int|
                            0 <= j < i ==> (#[trigger] labels@[j])@
                                == self.world.nodes@[n as int].edges@[j].label@,
                    decreases self.world.nodes@[n as int].edges@.len() - i,
                {
                    labels.push(self.world.nodes[n].edges[i].label.clone());
                    i = i + 1;
                }
                assert(texts(labels@) =~= self.world.nodes@[n as int].edges@.map_values(
                    |e: Edge| e.label@,
                ));
                let joined = join_with(&labels, ", ");
                self.say(String::from_str("Available paths: ").concat(joined.as_str()));
            },
        }
        assert(texts(self.log@) =~= texts(pre.log@) + look_text(pre));
    }

    fn move_to(&mut self, target: String)
        requires
            old(self).turn < u32::MAX,
        ensures
            move_step(*old(self), *final(self), target@),
    {
        let n = match self.current_index() {
            Some(n) => n,
            None => {
                self.say(String::from_str("You cannot go that way."));
                return ;
            },
        };
        match find_edge(&self.world.nodes[n].edges, &target) {
            None => {
                self.say(String::from_str("You cannot go that way."));
            },
            Some(e) => {
                let ok = self.can_traverse(&self.world.nodes[n].edges[e]);
                let label = self.world.nodes[n].edges[e].label.clone();
                if ok {
                    self.player.current_node = target;
                    self.say(text3("You move to: ", label.as_str(), "."));
                    self.turn = self.turn + 1;
                } else {
                    self.say(text3("You cannot go to ", label.as_str(), ", conditions not met."));
                }
            },
        }
    }

    fn explore(&mut self, target: Option<String>)
        requires
            old(self).turn < u32::MAX,
        ensures
            explore_step(*old(self), *final(self), match target {
                Some(t) => Some(t@),
                None => None,
            }),
    {
        match target {
            None => {
                self.say(String::from_str("You look around carefully but find nothing new."));
            },
            Some(id) => {
                match self.world.find_item(&id) {
                    None => {
                        self.say(text3("You don't see anything special about ", id.as_str(), "."));
                    },
                    Some(i) => {
                        let carried = find_text(&self.player.inventory, &id).is_some();
                        proof { lemma_position_of(texts(self.player.inventory@), id@); }
                        let lying = match self.current_index() {
                            Some(n) => {
                                let f = find_text(&self.world.nodes[n].items, &id);
                                proof { lemma_position_of(texts(self.world.nodes@[n as int].items@), id@); }
                                f.is_some()
                            },
                            None => false,
                        };
                        if carried || lying {
                            let line = text3(
                                self.world.items[i].name.as_str(),
                                ": ",
                                self.world.items[i].description.as_str(),
                            );
                            self.say(line);
                        } else {
                            self.say(text3("You don't see any ", id.as_str(), " here."));
                        }
                    },
                }
            },
        }
        self.turn = self.turn + 1;
    }

    fn pickup(&mut self, id: String)
        requires
            old(self).turn < u32::MAX,
        ensures
            pickup_step(*old(self), *final(self), id@),
    {
        let ghost pre = *self;
        let n = match self.current_index() {
            Some(n) => n,
            None => {
                self.say(String::from_str("That item is not here."));
                return ;
            },
        };
        match find_text(&self.world.nodes[n].items, &id) {
            None => {
                self.say(String::from_str("That item is not here."));
            },
            Some(p) => {
                proof { lemma_position_of(texts(self.world.nodes@[n as int].items@), id@); }
                let can = match self.world.find_item(&id) {
                    Some(i) => self.world.items[i].can_pickup,
                    None => true,
                };
                if can {
                    let name = self.world.name_of(&id);
                    self.world.nodes[n].items.remove(p);
                    self.player.inventory.push(id);
                    assert(texts(self.world.nodes@[n as int].items@) =~= pre.items_here().remove(
                        p as int,
                    ));
                    assert(texts(self.player.inventory@) =~= texts(pre.player.inventory@).push(id@));
                    self.say(String::from_str("You picked up: ").concat(name.as_str()));
                    self.turn = self.turn + 1;
                } else {
                    self.say(String::from_str("You cannot pick that up."));
                }
            },
        }
    }

    fn drop_item(&mut self, id: String)
        requires
            old(self).turn < u32::MAX,
        ensures
            drop_step(*old(self), *final(self), id@),
    {
        let ghost pre = *self;
        match find_text(&self.player.inventory, &id) {
            None => {
                self.say(String::from_str("You don't have that item."));
            },
            Some(p) => {
                proof { lemma_position_of(texts(self.player.inventory@), id@); }
                let name = self.world.name_of(&id);
                self.player.inventory.remove(p);
                assert(texts(self.player.inventory@) =~= texts(pre.player.inventory@).remove(p as int));
                match self.current_index() {
                    Some(n) => {
                        self.world.nodes[n].items.push(id);
                        assert(texts(self.world.nodes@[n as int].items@) =~= pre.items_here().push(id@));
                    },
                    None => {},
                }
                self.say(String::from_str("You dropped: ").concat(name.as_str()));
                self.turn = self.turn + 1;
            },
        }
    }

    fn show_inventory(&mut self)
        ensures
            narrated(*old(self), *final(self), seq![inventory_text(*old(self))], 0),
    {
        if self.player.inventory.len() == 0 {
            self.say(String::from_str("Your inventory is empty."));
        } else {
            let names = self.world.names_of(&self.player.inventory);
            let joined = join_with(&names, ", ");
            self.say(String::from_str("You are carrying: ").concat(joined.as_str()));
        }
    }

    fn use_item(&mut self, id: String)
        requires
            old(self).turn < u32::MAX,
        ensures
            use_step(*old(self), *final(self), id@),
    {
        let found = find_text(&self.player.inventory, &id);
        proof { lemma_position_of(texts(self.player.inventory@), id@); }
        if found.is_some() {
            self.say(text3("You use the ", id.as_str(), ". Nothing obvious happens."));
            self.turn = self.turn + 1;
        } else {
            self.say(String::from_str("You don't have that item."));
        }
    }

    fn combine(&mut self, a: String, b: String)
        requires
            old(self).turn < u32::MAX,
        ensures
            combine_step(*old(self), *final(self), a@, b@),
    {
        let ghost pre = *self;
        let fa = find_text(&self.player.inventory, &a);
        let fb = find_text(&self.player.inventory, &b);
        proof {
            lemma_position_of(texts(self.player.inventory@), a@);
            lemma_position_of(texts(self.player.inventory@), b@);
        }
        if fa.is_none() || fb.is_none() {
            self.say(String::from_str("You need both items in your inventory to combine them."));
            return ;
        }
        match self.world.find_combination(&a, &b) {
            None => {
                self.say(String::from_str("Those items cannot be combined."));
            },
            Some(c) => {
                let result = self.world.combinations[c].result.clone();
                let ghost inv0 = texts(self.player.inventory@);
                match fa {
                    Some(pa) => {
                        self.player.inventory.remove(pa);
                    },
                    None => {},
                }
                let ghost inv1 = texts(self.player.inventory@);
                assert(inv1 =~= without_first(inv0, a@));
                let fb2 = find_text(&self.player.inventory, &b);
                match fb2 {
                    Some(pb) => {
                        self.player.inventory.remove(pb);
                    },
                    None => {},
                }
                assert(texts(self.player.inventory@) =~= without_first(inv1, b@));
                let name = self.world.name_of(&result);
                self.player.inventory.push(result);
                assert(texts(self.player.inventory@) =~= without_first(inv1, b@).push(
                    pre.world.combinations@[c as int].result@,
                ));
                self.say(text3("You combined them and created: ", name.as_str(), "!"));
                self.turn = self.turn + 1;
            },
        }
    }

    /// Carries out one command: the narration goes to the log, and the turn
    /// counter advances on the actions that succeed (and on every `Explore`).
    pub fn apply_action(&mut self, action: GameAction)
        requires
            advances(action@) ==> old(self).turn < u32::MAX,
        ensures
            step(*old(self), *final(self), action@),
    {
        match action {
            GameAction::Help => self.help(),
            GameAction::Look => self.look(),
            GameAction::Move(t) => self.move_to(t),
            GameAction::Explore(t) => self.explore(t),
            GameAction::Pickup(id) => self.pickup(id),
            GameAction::Drop(id) => self.drop_item(id),
            GameAction::Inventory => self.show_inventory(),
            GameAction::Use(id) => self.use_item(id),
            GameAction::Combine(x, y) => self.combine(x, y),
            GameAction::Invalid(t) => {
                self.say(String::from_str("Unknown command: ").concat(t.as_str()));
            },
        }
    }
}

/// The welcome line for a new run.
pub open spec fn welcome(name: Seq<char>) -> Seq<char> {
    "Welcome to the world of Dotiam, "@ + name + "!"@
}

/// A fresh player named `name` standing at `at`.
pub open spec fn fresh_player(p: Player, name: Seq<char>, at: Seq<char>) -> bool {
    &&& p.name@ == name
    &&& p.current_node@ == at
    &&& p.hp == 100
    &&& p.max_hp == 100
    &&& p.inventory@.len() == 0
    &&& p.attributes@.len() == 0
}

/// A node with one unconditioned edge and no items or attributes.
pub open spec fn simple_node(n: Node, id: Seq<char>, description: Seq<char>, target: Seq<char>, label: Seq<char>) -> bool {
    &&& n.id@ == id
    &&& n.description@ == description
    &&& n.attributes@.len() == 0
    &&& n.items@.len() == 0
    &&& n.edges@.len() == 1
    &&& n.edges@[0].target_id@ == target
    &&& n.edges@[0].label@ == label
    &&& n.edges@[0].conditions@.len() == 0
}

/// The two-node world of a default run: `start` and `forest`, joined both
/// ways without conditions.
pub open spec fn default_world(w: World) -> bool {
    &&& w.nodes@.len() == 2
    &&& simple_node(w.nodes@[0], "start"@, "You are at the starting point of your adventure."@, "forest"@, "Go to the forest"@)
    &&& simple_node(w.nodes@[1], "forest"@, "You are in a dark, mysterious forest."@, "start"@, "Return to the start"@)
    &&& w.items@.len() == 0
    &&& w.combinations@.len() == 0
}

/// Where a run on `world` starts: the node `start` if there is one, else
/// the first node, else nowhere.
pub open spec fn start_of(world: World) -> Seq<char> {
    if node_index(world.nodes@, "start"@) >= 0 {
        "start"@
    } else if world.nodes@.len() > 0 {
        world.nodes@[0].id@
    } else {
        seq![]
    }
}

/// `post` is `pre` with a copy of its world pushed onto the history, the
/// oldest entry dropped where that would make more than `HISTORY_LIMIT`.
pub open spec fn snapshot_step(pre: GameState, post: GameState) -> bool {
    let h = pre.history@;
    let kept = if h.len() + 1 > HISTORY_LIMIT {
        h.drop_first()
    } else {
        h
    };
    &&& post.history@.len() == kept.len() + 1
    &&& post.history@.subrange(0, kept.len() as int) == kept
    &&& same_world(post.history@.last(), pre.world)
    &&& post.player == pre.player
    &&& post.world == pre.world
    &&& post.turn == pre.turn
    &&& post.log == pre.log
}

/// What `undo` does: restore the latest snapshot, if there is one.
pub open spec fn undo_step(pre: GameState, post: GameState, restored: bool) -> bool {
    &&& restored == (pre.history@.len() > 0)
    &&& post.player == pre.player
    &&& post.turn == pre.turn
    &&& post.log == pre.log
    &&& if restored {
        &&& post.world == pre.history@.last()
        &&& post.history@ == pre.history@.drop_last()
    } else {
        &&& post.world == pre.world
        &&& post.history == pre.history
    }
}

fn empty_edge_to(target: &str, label: &str) -> (r: Edge)
    ensures
        r.target_id@ == target@,
        r.label@ == label@,
        r.conditions@.len() == 0,
{
    Edge { target_id: String::from_str(target), label: String::from_str(label), conditions: Vec::new() }
}

impl GameState {
    fn fresh(player_name: String, current_node: String, world: World) -> (r: GameState)
        ensures
            fresh_player(r.player, player_name@, current_node@),
            r.world == world,
            r.turn == 0,
            texts(r.log@) == seq![welcome(player_name@)],
            r.history@.len() == 0,
    {
        let line = text3("Welcome to the world of Dotiam, ", player_name.as_str(), "!");
        let mut log: Vec<String> = Vec::new();
        log.push(line);
        assert(texts(log@) =~= seq![welcome(player_name@)]);
        GameState {
            player: Player {
                name: player_name,
                current_node,
                hp: 100,
                max_hp: 100,
                inventory: Vec::new(),
                attributes: Vec::new(),
            },
            world,
            turn: 0,
            log,
            history: Vec::new(),
        }
    }

    /// A run on the default two-node world, standing at `start`.
    pub fn new(player_name: String) -> (r: GameState)
        ensures
            fresh_player(r.player, player_name@, "start"@),
            default_world(r.world),
            r.turn == 0,
            texts(r.log@) == seq![welcome(player_name@)],
            r.history@.len() == 0,
    {
        let mut start_edges: Vec<Edge> = Vec::new();
        start_edges.push(empty_edge_to("forest", "Go to the forest"));
        let mut forest_edges: Vec<Edge> = Vec::new();
        forest_edges.push(empty_edge_to("start", "Return to the start"));
        let mut nodes: Vec<Node> = Vec::new();
        nodes.push(
            Node {
                id: String::from_str("start"),
                description: String::from_str("You are at the starting point of your adventure."),
                attributes: Vec::new(),
                edges: start_edges,
                items: Vec::new(),
            },
        );
        nodes.push(
            Node {
                id: String::from_str("forest"),
                description: String::from_str("You are in a dark, mysterious forest."),
                attributes: Vec::new(),
                edges: forest_edges,
                items: Vec::new(),
            },
        );
        let world = World { nodes, items: Vec::new(), combinations: Vec::new() };
        GameState::fresh(player_name, String::from_str("start"), world)
    }

    /// A run on `world`, standing at its node `start`, or else at its first node.
    pub fn new_with_world(player_name: String, world: World) -> (r: GameState)
        requires
            world.wf(),
        ensures
            fresh_player(r.player, player_name@, start_of(world)),
            r.world == world,
            r.turn == 0,
            texts(r.log@) == seq![welcome(player_name@)],
            r.history@.len() == 0,
    {
        let start = String::from_str("start");
        let current = if world.find_node(&start).is_some() {
            start
        } else if world.nodes.len() > 0 {
            world.nodes[0].id.clone()
        } else {
            String::new()
        };
        GameState::fresh(player_name, current, world)
    }

    /// Saves a copy of the world onto the history before an edit, keeping at
    /// most `HISTORY_LIMIT` entries.
    pub fn snapshot(&mut self)
        ensures
            snapshot_step(*old(self), *final(self)),
    {
        let ghost h = self.history@;
        let copy = self.world.deep_copy();
        self.history.push(copy);
        if self.history.len() > HISTORY_LIMIT {
            self.history.remove(0);
        }
        let ghost kept = if h.len() + 1 > HISTORY_LIMIT {
            h.drop_first()
        } else {
            h
        };
        assert(self.history@.subrange(0, kept.len() as int) =~= kept);
    }

    /// Restores the latest snapshot; false when the history is empty.
    pub fn undo(&mut self) -> (restored: bool)
        ensures
            undo_step(*old(self), *final(self), restored),
    {
        if self.history.len() == 0 {
            return false;
        }
        match self.history.pop() {
            Some(w) => {
                self.world = w;
                true
            },
            None => false,
        }
    }
}

} // verus!
