//! The world graph: nodes joined by conditional edges, an item catalog and
//! crafting recipes.
use vstd::prelude::*;

use crate::text::{first_where, lemma_first_where, lemma_first_where_at, texts};

verus! {

/// A predicate over the player that gates an edge.
#[derive(Debug, Clone, PartialEq, Eq)]
pub struct Condition {
    pub condition_type: ConditionType,
}

#[derive(Debug, Clone, PartialEq, Eq)]
pub enum ConditionType {
    /// The player carries the item with this id.
    HasItem(String),
    /// The player's attribute under the key holds the value.
    HasAttribute(String, String),
    /// The player has at least this many hit points.
    MinHP(u32),
}

/// A directed connection to `target_id`, open when all its conditions hold.
#[derive(Debug, Clone, PartialEq, Eq)]
pub struct Edge {
    pub target_id: String,
    pub label: String,
    pub conditions: Vec<Condition>,
}

/// A catalog entry for an item.
#[derive(Debug, Clone, PartialEq, Eq)]
pub struct Item {
    pub id: String,
    pub name: String,
    pub description: String,
    pub can_pickup: bool,
}

/// An unordered pair of items that combine into `result`.
#[derive(Debug, Clone, PartialEq, Eq)]
pub struct Combination {
    pub item1: String,
    pub item2: String,
    pub result: String,
}

/// A location: its outgoing edges, the items lying there, and string
/// attributes as (key, value) pairs.
#[derive(Debug, Clone, PartialEq, Eq)]
pub struct Node {
    pub id: String,
    pub description: String,
    pub attributes: Vec<(String, String)>,
    pub edges: Vec<Edge>,
    pub items: Vec<String>,
}

/// The world graph. Nodes and catalog items are looked up by id; the first
/// entry with a given id is the one that counts. Ids are not checked when a
/// world is built: an edge may lead to a node that does not exist, and a node
/// may hold an item that the catalog lacks. Such ids fail softly where they
/// are used (a move fails, a name falls back to the id).
#[derive(Debug, Clone)]
pub struct World {
    pub nodes: Vec<Node>,
    pub items: Vec<Item>,
    pub combinations: Vec<Combination>,
}

/// The authoring form of a world.
#[derive(Debug, Clone)]
pub struct WorldTemplate {
    pub nodes: Vec<Node>,
    pub items: Vec<Item>,
    pub combinations: Vec<Combination>,
}

pub open spec fn node_has_id(id: Seq<char>) -> spec_fn(Node) -> bool {
    |n: Node| n.id@ == id
}

pub open spec fn item_has_id(id: Seq<char>) -> spec_fn(Item) -> bool {
    |i: Item| i.id@ == id
}

pub open spec fn edge_leads_to(target: Seq<char>) -> spec_fn(Edge) -> bool {
    |e: Edge| e.target_id@ == target
}

pub open spec fn combines(a: Seq<char>, b: Seq<char>) -> spec_fn(Combination) -> bool {
    |c: Combination| (c.item1@ == a && c.item2@ == b) || (c.item1@ == b && c.item2@ == a)
}

pub open spec fn has_key(k: Seq<char>) -> spec_fn((String, String)) -> bool {
    |p: (String, String)| p.0@ == k
}

/// Index of the node with id `id`, or -1.
pub open spec fn node_index(nodes: Seq<Node>, id: Seq<char>) -> int {
    first_where(nodes, node_has_id(id))
}

/// Index of the catalog entry with id `id`, or -1.
pub open spec fn item_index(items: Seq<Item>, id: Seq<char>) -> int {
    first_where(items, item_has_id(id))
}

/// Index of the first edge leading to `target`, or -1.
pub open spec fn edge_index(edges: Seq<Edge>, target: Seq<char>) -> int {
    first_where(edges, edge_leads_to(target))
}

/// Index of the first combination of `a` and `b`, in either order, or -1.
pub open spec fn combination_index(cs: Seq<Combination>, a: Seq<char>, b: Seq<char>) -> int {
    first_where(cs, combines(a, b))
}

/// The value stored under key `k`, if any.
pub open spec fn attribute_value(attrs: Seq<(String, String)>, k: Seq<char>) -> Option<
    Seq<char>,
> {
    let i = first_where(attrs, has_key(k));
    if i >= 0 {
        Some(attrs[i].1@)
    } else {
        None
    }
}

/// The name shown for an item id: its catalog name, or the id itself.
pub open spec fn display_name(w: World, id: Seq<char>) -> Seq<char> {
    let i = item_index(w.items@, id);
    if i >= 0 {
        w.items@[i].name@
    } else {
        id
    }
}

/// The names shown for a list of item ids.
pub open spec fn display_names(w: World, ids: Seq<Seq<char>>) -> Seq<Seq<char>> {
    ids.map_values(|id: Seq<char>| display_name(w, id))
}

/// Whether the item may be picked up: unknown items may.
pub open spec fn pickable(w: World, id: Seq<char>) -> bool {
    let i = item_index(w.items@, id);
    i < 0 || w.items@[i].can_pickup
}

pub open spec fn same_edge(a: Edge, b: Edge) -> bool {
    a.target_id == b.target_id && a.label == b.label && a.conditions@ == b.conditions@
}

pub open spec fn same_edges(a: Seq<Edge>, b: Seq<Edge>) -> bool {
    a.len() == b.len() && forall|i: int| 0 <= i < a.len() ==> same_edge(#[trigger] a[i], b[i])
}

/// Two nodes that hold the same data.
pub open spec fn same_node(a: Node, b: Node) -> bool {
    &&& a.id == b.id
    &&& a.description == b.description
    &&& a.attributes@ == b.attributes@
    &&& same_edges(a.edges@, b.edges@)
    &&& a.items@ == b.items@
}

pub open spec fn same_nodes(a: Seq<Node>, b: Seq<Node>) -> bool {
    a.len() == b.len() && forall|i: int| 0 <= i < a.len() ==> same_node(#[trigger] a[i], b[i])
}

impl Condition {
    pub fn duplicate(&self) -> (r: Condition)
        ensures
            r == *self,
    {
        let t = match &self.condition_type {
            ConditionType::HasItem(i) => ConditionType::HasItem(i.clone()),
            ConditionType::HasAttribute(k, v) => ConditionType::HasAttribute(k.clone(), v.clone()),
            ConditionType::MinHP(n) => ConditionType::MinHP(*n),
        };
        Condition { condition_type: t }
    }
}

impl Edge {
    pub fn duplicate(&self) -> (r: Edge)
        ensures
            same_edge(r, *self),
    {
        let mut cs: Vec<Condition> = Vec::new();
        let mut i: usize = 0;
        while i < self.conditions.len()
            invariant
                i <= self.conditions@.len(),
                cs@ == self.conditions@.subrange(0, i as int),
            decreases self.conditions@.len() - i,
        {
            cs.push(self.conditions[i].duplicate());
            i = i + 1;
        }
        assert(cs@ =~= self.conditions@);
        Edge { target_id: self.target_id.clone(), label: self.label.clone(), conditions: cs }
    }
}

impl Item {
    pub fn duplicate(&self) -> (r: Item)
        ensures
            r == *self,
    {
        Item {
            id: self.id.clone(),
            name: self.name.clone(),
            description: self.description.clone(),
            can_pickup: self.can_pickup,
        }
    }
}

impl Combination {
    pub fn duplicate(&self) -> (r: Combination)
        ensures
            r == *self,
    {
        Combination {
            item1: self.item1.clone(),
            item2: self.item2.clone(),
            result: self.result.clone(),
        }
    }
}

pub fn copy_strings(v: &Vec<String>) -> (r: Vec<String>)
    ensures
        r@ == v@,
{
    let mut r: Vec<String> = Vec::new();
    let mut i: usize = 0;
    while i < v.len()
        invariant
            i <= v@.len(),
            r@ == v@.subrange(0, i as int),
        decreases v@.len() - i,
    {
        r.push(v[i].clone());
        i = i + 1;
    }
    assert(r@ =~= v@);
    r
}

pub fn copy_attributes(v: &Vec<(String, String)>) -> (r: Vec<(String, String)>)
    ensures
        r@ == v@,
{
    let mut r: Vec<(String, String)> = Vec::new();
    let mut i: usize = 0;
    while i < v.len()
        invariant
            i <= v@.len(),
            r@ == v@.subrange(0, i as int),
        decreases v@.len() - i,
    {
        r.push((v[i].0.clone(), v[i].1.clone()));
        i = i + 1;
    }
    assert(r@ =~= v@);
    r
}

pub fn copy_items(v: &Vec<Item>) -> (r: Vec<Item>)
    ensures
        r@ == v@,
{
    let mut r: Vec<Item> = Vec::new();
    let mut i: usize = 0;
    while i < v.len()
        invariant
            i <= v@.len(),
            r@ == v@.subrange(0, i as int),
        decreases v@.len() - i,
    {
        r.push(v[i].duplicate());
        i = i + 1;
    }
    assert(r@ =~= v@);
    r
}

pub fn copy_combinations(v: &Vec<Combination>) -> (r: Vec<Combination>)
    ensures
        r@ == v@,
{
    let mut r: Vec<Combination> = Vec::new();
    let mut i: usize = 0;
    while i < v.len()
        invariant
            i <= v@.len(),
            r@ == v@.subrange(0, i as int),
        decreases v@.len() - i,
    {
        r.push(v[i].duplicate());
        i = i + 1;
    }
    assert(r@ =~= v@);
    r
}

impl Node {
    pub fn duplicate(&self) -> (r: Node)
        ensures
            same_node(r, *self),
    {
        let mut es: Vec<Edge> = Vec::new();
        let mut i: usize = 0;
        while i < self.edges.len()
            invariant
                i <= self.edges@.len(),
                es@.len() == i,
                forall|j: int| 0 <= j < i ==> same_edge(#[trigger] es@[j], self.edges@[j]),
            decreases self.edges@.len() - i,
        {
            es.push(self.edges[i].duplicate());
            i = i + 1;
        }
        Node {
            id: self.id.clone(),
            description: self.description.clone(),
            attributes: copy_attributes(&self.attributes),
            edges: es,
            items: copy_strings(&self.items),
        }
    }
}

pub fn copy_nodes(v: &Vec<Node>) -> (r: Vec<Node>)
    ensures
        same_nodes(r@, v@),
{
    let mut r: Vec<Node> = Vec::new();
    let mut i: usize = 0;
    while i < v.len()
        invariant
            i <= v@.len(),
            r@.len() == i,
            forall|j: int| 0 <= j < i ==> same_node(#[trigger] r@[j], v@[j]),
        decreases v@.len() - i,
    {
        r.push(v[i].duplicate());
        i = i + 1;
    }
    r
}

/// Two worlds that hold the same data.
pub open spec fn same_world(a: World, b: World) -> bool {
    same_nodes(a.nodes@, b.nodes@) && a.items@ == b.items@ && a.combinations@ == b.combinations@
}

/// A template that holds the same data as a world.
pub open spec fn template_of(t: WorldTemplate, w: World) -> bool {
    same_nodes(t.nodes@, w.nodes@) && t.items@ == w.items@ && t.combinations@ == w.combinations@
}

impl World {
    /// Node ids are unique, and so are catalog item ids.
    pub open spec fn wf(&self) -> bool {
        &&& forall|i: int, j: int|
            0 <= i < j < self.nodes@.len() ==> (#[trigger] self.nodes@[i]).id@ != (
            #[trigger] self.nodes@[j]).id@
        &&& forall|i: int, j: int|
            0 <= i < j < self.items@.len() ==> (#[trigger] self.items@[i]).id@ != (
            #[trigger] self.items@[j]).id@
    }

    /// Whether node ids are unique, and so are catalog item ids.
    pub fn has_unique_ids(&self) -> (r: bool)
        ensures
            r == self.wf(),
    {
        let n = self.nodes.len();
        let mut i: usize = 0;
        while i < n
            invariant
                n == self.nodes@.len(),
                i <= n,
                forall|a: int, b: int|
                    0 <= a < b < n && a < i ==> (#[trigger] self.nodes@[a]).id@ != (
                    #[trigger] self.nodes@[b]).id@,
            decreases n - i,
        {
            let mut j: usize = i + 1;
            while j < n
                invariant
                    n == self.nodes@.len(),
                    i < n,
                    i + 1 <= j <= n,
                    forall|a: int, b: int|
                        0 <= a < b < n && a < i ==> (#[trigger] self.nodes@[a]).id@ != (
                        #[trigger] self.nodes@[b]).id@,
                    forall|b: int| i < b < j ==> self.nodes@[i as int].id@ != (
                    #[trigger] self.nodes@[b]).id@,
                decreases n - j,
            {
                if self.nodes[i].id == self.nodes[j].id {
                    return false;
                }
                j = j + 1;
            }
            i = i + 1;
        }
        let m = self.items.len();
        let mut i: usize = 0;
        while i < m
            invariant
                n == self.nodes@.len(),
                m == self.items@.len(),
                i <= m,
                forall|a: int, b: int|
                    0 <= a < b < n ==> (#[trigger] self.nodes@[a]).id@ != (
                    #[trigger] self.nodes@[b]).id@,
                forall|a: int, b: int|
                    0 <= a < b < m && a < i ==> (#[trigger] self.items@[a]).id@ != (
                    #[trigger] self.items@[b]).id@,
            decreases m - i,
        {
            let mut j: usize = i + 1;
            while j < m
                invariant
                    m == self.items@.len(),
                    i < m,
                    i + 1 <= j <= m,
                    forall|a: int, b: int|
                        0 <= a < b < m && a < i ==> (#[trigger] self.items@[a]).id@ != (
                        #[trigger] self.items@[b]).id@,
                    forall|b: int| i < b < j ==> self.items@[i as int].id@ != (
                    #[trigger] self.items@[b]).id@,
                decreases m - j,
            {
                if self.items[i].id == self.items[j].id {
                    return false;
                }
                j = j + 1;
            }
            i = i + 1;
        }
        true
    }

    pub fn get_ascii_map(&self) -> (r: String)
        ensures
            r@ == "Graph-based world (ASCII map disabled)"@,
    {
        String::from_str("Graph-based world (ASCII map disabled)")
    }

    pub fn deep_copy(&self) -> (r: World)
        ensures
            same_world(r, *self),
    {
        World {
            nodes: copy_nodes(&self.nodes),
            items: copy_items(&self.items),
            combinations: copy_combinations(&self.combinations),
        }
    }

    /// The index of the node with id `id`.
    pub fn find_node(&self, id: &String) -> (r: Option<usize>)
        ensures
            match r {
                Some(i) => i < self.nodes@.len() && i as int == node_index(self.nodes@, id@),
                None => node_index(self.nodes@, id@) < 0,
            },
    {
        let ghost p = node_has_id(id@);
        let mut i: usize = 0;
        while i < self.nodes.len()
            invariant
                i <= self.nodes@.len(),
                p == node_has_id(id@),
                forall|j: int| 0 <= j < i ==> !p(#[trigger] self.nodes@[j]),
            decreases self.nodes@.len() - i,
        {
            if self.nodes[i].id == *id {
                proof { lemma_first_where_at(self.nodes@, p, i as int); }
                return Some(i);
            }
            i = i + 1;
        }
        proof { lemma_first_where_at(self.nodes@, p, i as int); }
        None
    }

    /// The index of the catalog entry with id `id`.
    pub fn find_item(&self, id: &String) -> (r: Option<usize>)
        ensures
            match r {
                Some(i) => i < self.items@.len() && i as int == item_index(self.items@, id@),
                None => item_index(self.items@, id@) < 0,
            },
    {
        let ghost p = item_has_id(id@);
        let mut i: usize = 0;
        while i < self.items.len()
            invariant
                i <= self.items@.len(),
                p == item_has_id(id@),
                forall|j: int| 0 <= j < i ==> !p(#[trigger] self.items@[j]),
            decreases self.items@.len() - i,
        {
            if self.items[i].id == *id {
                proof { lemma_first_where_at(self.items@, p, i as int); }
                return Some(i);
            }
            i = i + 1;
        }
        proof { lemma_first_where_at(self.items@, p, i as int); }
        None
    }

    /// The index of the first combination of `a` and `b`, in either order.
    pub fn find_combination(&self, a: &String, b: &String) -> (r: Option<usize>)
        ensures
            match r {
                Some(i) => i < self.combinations@.len() && i as int == combination_index(
                    self.combinations@,
                    a@,
                    b@,
                ),
                None => combination_index(self.combinations@, a@, b@) < 0,
            },
    {
        let ghost p = combines(a@, b@);
        let mut i: usize = 0;
        while i < self.combinations.len()
            invariant
                i <= self.combinations@.len(),
                p == combines(a@, b@),
                forall|j: int| 0 <= j < i ==> !p(#[trigger] self.combinations@[j]),
            decreases self.combinations@.len() - i,
        {
            let c = &self.combinations[i];
            if (c.item1 == *a && c.item2 == *b) || (c.item1 == *b && c.item2 == *a) {
                proof { lemma_first_where_at(self.combinations@, p, i as int); }
                return Some(i);
            }
            i = i + 1;
        }
        proof { lemma_first_where_at(self.combinations@, p, i as int); }
        None
    }

    /// The name shown for an item id: its catalog name, or the id itself.
    pub fn name_of(&self, id: &String) -> (r: String)
        ensures
            r@ == display_name(*self, id@),
    {
        match self.find_item(id) {
            Some(i) => self.items[i].name.clone(),
            None => id.clone(),
        }
    }

    /// The shown names of a list of item ids.
    pub fn names_of(&self, ids: &Vec<String>) -> (r: Vec<String>)
        ensures
            texts(r@) == display_names(*self, texts(ids@)),
    {
        let mut r: Vec<String> = Vec::new();
        let mut i: usize = 0;
        while i < ids.len()
            invariant
                i <= ids@.len(),
                r@.len() == i,
                forall|j: int| 0 <= j < i ==> (#[trigger] r@[j])@ == display_name(*self, ids@[j]@),
            decreases ids@.len() - i,
        {
            r.push(self.name_of(&ids[i]));
            i = i + 1;
        }
        assert(texts(r@) =~= display_names(*self, texts(ids@)));
        r
    }
}

impl World {
    /// A world with no nodes, items or combinations.
    pub fn new() -> (r: World)
        ensures
            r.nodes@.len() == 0,
            r.items@.len() == 0,
            r.combinations@.len() == 0,
    {
        World { nodes: Vec::new(), items: Vec::new(), combinations: Vec::new() }
    }

    /// Adds a node, replacing the node with the same id if there is one.
    pub fn insert_node(&mut self, node: Node)
        ensures
            ({
                let i = node_index(old(self).nodes@, node.id@);
                final(self).nodes@ == if i >= 0 {
                    old(self).nodes@.update(i, node)
                } else {
                    old(self).nodes@.push(node)
                }
            }),
            final(self).items == old(self).items,
            final(self).combinations == old(self).combinations,
            old(self).wf() ==> final(self).wf(),
    {
        proof { lemma_first_where(old(self).nodes@, node_has_id(node.id@)); }
        match self.find_node(&node.id) {
            Some(i) => {
                self.nodes.set(i, node);
                assert forall|k: int| 0 <= k < self.nodes@.len() implies (#[trigger] self.nodes@[k]).id@
                    == old(self).nodes@[k].id@ by {}
            },
            None => {
                self.nodes.push(node);
                assert forall|k: int| 0 <= k < old(self).nodes@.len() implies (#[trigger] self.nodes@[k]).id@
                    != self.nodes@[old(self).nodes@.len() as int].id@ by {
                    assert(!node_has_id(node.id@)(old(self).nodes@[k]));
                }
            },
        }
    }

    /// Adds a catalog item, replacing the entry with the same id if there is one.
    pub fn insert_item(&mut self, item: Item)
        ensures
            ({
                let i = item_index(old(self).items@, item.id@);
                final(self).items@ == if i >= 0 {
                    old(self).items@.update(i, item)
                } else {
                    old(self).items@.push(item)
                }
            }),
            final(self).nodes == old(self).nodes,
            final(self).combinations == old(self).combinations,
            old(self).wf() ==> final(self).wf(),
    {
        proof { lemma_first_where(old(self).items@, item_has_id(item.id@)); }
        match self.find_item(&item.id) {
            Some(i) => {
                self.items.set(i, item);
                assert forall|k: int| 0 <= k < self.items@.len() implies (#[trigger] self.items@[k]).id@
                    == old(self).items@[k].id@ by {}
            },
            None => {
                self.items.push(item);
                assert forall|k: int| 0 <= k < old(self).items@.len() implies (#[trigger] self.items@[k]).id@
                    != self.items@[old(self).items@.len() as int].id@ by {
                    assert(!item_has_id(item.id@)(old(self).items@[k]));
                }
            },
        }
    }

    /// Adds a combination after the existing ones.
    pub fn add_combination(&mut self, c: Combination)
        ensures
            final(self).combinations@ == old(self).combinations@.push(c),
            final(self).nodes == old(self).nodes,
            final(self).items == old(self).items,
    {
        self.combinations.push(c);
    }

    /// Lays the item `item_id` at the node `node_id`; false where no node has
    /// that id.
    pub fn place_item(&mut self, node_id: &String, item_id: String) -> (placed: bool)
        ensures
            placed == (node_index(old(self).nodes@, node_id@) >= 0),
            ({
                let n = node_index(old(self).nodes@, node_id@);
                placed ==> {
                    &&& final(self).nodes@.len() == old(self).nodes@.len()
                    &&& forall|j: int|
                        0 <= j < old(self).nodes@.len() && j != n ==> final(self).nodes@[j]
                            == old(self).nodes@[j]
                    &&& final(self).nodes@[n].id == old(self).nodes@[n].id
                    &&& final(self).nodes@[n].description == old(self).nodes@[n].description
                    &&& final(self).nodes@[n].attributes == old(self).nodes@[n].attributes
                    &&& final(self).nodes@[n].edges == old(self).nodes@[n].edges
                    &&& final(self).nodes@[n].items@ == old(self).nodes@[n].items@.push(item_id)
                }
            }),
            !placed ==> final(self).nodes == old(self).nodes,
            final(self).items == old(self).items,
            final(self).combinations == old(self).combinations,
            old(self).wf() ==> final(self).wf(),
    {
        match self.find_node(node_id) {
            Some(n) => {
                self.nodes[n].items.push(item_id);
                true
            },
            None => false,
        }
    }

    /// Gives the node `node_id` a new description; false where no node has
    /// that id. An authoring edit: take a snapshot first to make it undoable.
    pub fn set_node_description(&mut self, node_id: &String, description: String) -> (done: bool)
        ensures
            done == (node_index(old(self).nodes@, node_id@) >= 0),
            ({
                let n = node_index(old(self).nodes@, node_id@);
                done ==> {
                    &&& final(self).nodes@.len() == old(self).nodes@.len()
                    &&& forall|j: int|
                        0 <= j < old(self).nodes@.len() && j != n ==> final(self).nodes@[j]
                            == old(self).nodes@[j]
                    &&& final(self).nodes@[n].id == old(self).nodes@[n].id
                    &&& final(self).nodes@[n].description == description
                    &&& final(self).nodes@[n].attributes == old(self).nodes@[n].attributes
                    &&& final(self).nodes@[n].edges == old(self).nodes@[n].edges
                    &&& final(self).nodes@[n].items == old(self).nodes@[n].items
                }
            }),
            !done ==> final(self).nodes == old(self).nodes,
            final(self).items == old(self).items,
            final(self).combinations == old(self).combinations,
            old(self).wf() ==> final(self).wf(),
    {
        match self.find_node(node_id) {
            Some(n) => {
                self.nodes[n].description = description;
                true
            },
            None => false,
        }
    }
}

/// The first edge of `edges` leading to `target`.
pub fn find_edge(edges: &Vec<Edge>, target: &String) -> (r: Option<usize>)
    ensures
        match r {
            Some(i) => i < edges@.len() && i as int == edge_index(edges@, target@),
            None => edge_index(edges@, target@) < 0,
        },
{
    let ghost p = edge_leads_to(target@);
    let mut i: usize = 0;
    while i < edges.len()
        invariant
            i <= edges@.len(),
            p == edge_leads_to(target@),
            forall|j: int| 0 <= j < i ==> !p(#[trigger] edges@[j]),
        decreases edges@.len() - i,
    {
        if edges[i].target_id == *target {
            proof { lemma_first_where_at(edges@, p, i as int); }
            return Some(i);
        }
        i = i + 1;
    }
    proof { lemma_first_where_at(edges@, p, i as int); }
    None
}

/// Whether the value stored under key `k` is `v`.
pub fn attribute_is(attrs: &Vec<(String, String)>, k: &String, v: &String) -> (r: bool)
    ensures
        r == (attribute_value(attrs@, k@) == Some(v@)),
{
    let ghost p = has_key(k@);
    let mut i: usize = 0;
    while i < attrs.len()
        invariant
            i <= attrs@.len(),
            p == has_key(k@),
            forall|j: int| 0 <= j < i ==> !p(#[trigger] attrs@[j]),
        decreases attrs@.len() - i,
    {
        if attrs[i].0 == *k {
            proof { lemma_first_where_at(attrs@, p, i as int); }
            return attrs[i].1 == *v;
        }
        i = i + 1;
    }
    proof { lemma_first_where_at(attrs@, p, i as int); }
    false
}

impl WorldTemplate {
    pub fn from_world(world: &World) -> (r: WorldTemplate)
        ensures
            template_of(r, *world),
    {
        WorldTemplate {
            nodes: copy_nodes(&world.nodes),
            items: copy_items(&world.items),
            combinations: copy_combinations(&world.combinations),
        }
    }

    pub fn to_world(&self) -> (r: World)
        ensures
            template_of(*self, r),
    {
        let nodes = copy_nodes(&self.nodes);
        proof { lemma_same_nodes_symmetric(nodes@, self.nodes@); }
        World {
            nodes,
            items: copy_items(&self.items),
            combinations: copy_combinations(&self.combinations),
        }
    }
}

pub proof fn lemma_same_nodes_symmetric(a: Seq<Node>, b: Seq<Node>)
    requires
        same_nodes(a, b),
    ensures
        same_nodes(b, a),
{
}

} // verus!
