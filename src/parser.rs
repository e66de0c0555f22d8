//! The command parser: free text to a `GameAction`.
use vstd::prelude::*;

use crate::state::{advances, step, ActionModel, GameAction, GameState};
use crate::text::{
    first_where, join, join_with, lemma_first_where_at, lower_of, lowercase, split_words,
    starts_with, texts, trim, trimmed, words,
};
use crate::world::Edge;

verus! {

/// An edge named by `t`: its label or its target id equals `t`, case aside.
pub open spec fn names_exit(t: Seq<char>) -> spec_fn(Edge) -> bool {
    |e: Edge| lower_of(e.label@) == lower_of(t) || lower_of(e.target_id@) == lower_of(t)
}

/// Index of the first exit of the player's node named by `t`, or -1.
pub open spec fn exit_named(s: GameState, t: Seq<char>) -> int {
    first_where(s.exits(), names_exit(t))
}

/// A move towards what `t` names: the target of the exit it names, else `t` itself.
pub open spec fn go_to(s: GameState, t: Seq<char>) -> ActionModel {
    let e = exit_named(s, t);
    if e >= 0 {
        ActionModel::Move(s.exits()[e].target_id@)
    } else {
        ActionModel::Move(t)
    }
}

/// The command that `input` stands for, in state `s`: the input is
/// lower-cased as a whole, then read.
pub open spec fn parse_model(s: GameState, input: Seq<char>) -> ActionModel {
    parse_lowered_model(s, lower_of(input))
}

/// The command that an already lower-cased input stands for.
pub open spec fn parse_lowered_model(s: GameState, text: Seq<char>) -> ActionModel {
    let ws = words(text);
    if ws.len() == 0 {
        ActionModel::Invalid(seq![])
    } else {
        command_model(s, ws[0], ws.drop_first(), join(ws, " "@))
    }
}

/// The command for a verb and the words after it, all already lower-cased;
/// `whole` is the full input, its words joined by single spaces.
pub open spec fn command_model(s: GameState, verb: Seq<char>, args: Seq<Seq<char>>, whole: Seq<char>) -> ActionModel {
    let arg = join(args, " "@);
    if verb == "h"@ || verb == "help"@ {
            ActionModel::Help
        } else if verb == "l"@ || verb == "look"@ {
            ActionModel::Look
        } else if verb == "g"@ || verb == "go"@ {
            if args.len() == 0 {
                ActionModel::Invalid("Go where?"@)
            } else {
                go_to(s, arg)
            }
        } else if verb == "x"@ || verb == "explore"@ {
            if args.len() == 0 {
                ActionModel::Explore(None)
            } else {
                ActionModel::Explore(Some(arg))
            }
        } else if verb == "p"@ || verb == "pickup"@ || verb == "get"@ || verb == "take"@ {
            if args.len() == 0 {
                ActionModel::Invalid("Pick up what?"@)
            } else {
                ActionModel::Pickup(arg)
            }
        } else if verb == "d"@ || verb == "drop"@ {
            if args.len() == 0 {
                ActionModel::Invalid("Drop what?"@)
            } else {
                ActionModel::Drop(arg)
            }
        } else if verb == "i"@ || verb == "inventory"@ || verb == "inv"@ {
            ActionModel::Inventory
        } else if verb == "u"@ || verb == "use"@ {
            if args.len() == 0 {
                ActionModel::Invalid("Use what?"@)
            } else {
                ActionModel::Use(arg)
            }
        } else if verb == "c"@ || verb == "combine"@ {
            if args.len() < 2 {
                ActionModel::Invalid("Combine what with what?"@)
            } else {
                ActionModel::Combine(args[0], args[1])
            }
        } else {
            let e = exit_named(s, whole);
            if e >= 0 {
                ActionModel::Move(s.exits()[e].target_id@)
            } else {
                ActionModel::Invalid(whole)
            }
        }
}

/// `c` as a suggestion for the query `q`: itself where `q` begins it.
pub open spec fn offered(q: Seq<char>, c: Seq<char>) -> Seq<Seq<char>> {
    if q.is_prefix_of(c) {
        seq![c]
    } else {
        seq![]
    }
}

/// The commands suggested for a lower-cased, trimmed query, in a fixed order;
/// none for an empty query.
pub open spec fn suggestions_for(q: Seq<char>) -> Seq<Seq<char>> {
    if q.len() == 0 {
        seq![]
    } else {
        offered(q, "north"@) + offered(q, "south"@) + offered(q, "east"@) + offered(q, "west"@)
            + offered(q, "explore"@) + offered(q, "inventory"@)
    }
}

fn offer(r: &mut Vec<String>, q: &String, c: &str)
    ensures
        texts(final(r)@) == texts(old(r)@) + offered(q@, c@),
{
    let ghost before = texts(r@);
    if starts_with(c, q) {
        r.push(String::from_str(c));
    }
    assert(texts(r@) =~= before + offered(q@, c@));
}

/// The commands that begin with `query`, which is already lower-cased and
/// trimmed.
pub fn suggestions(query: &String) -> (r: Vec<String>)
    ensures
        texts(r@) == suggestions_for(query@),
{
    let mut r: Vec<String> = Vec::new();
    if query.as_str().unicode_len() == 0 {
        assert(texts(r@) =~= seq![]);
        return r;
    }
    let ghost q = query@;
    assert(texts(r@) =~= seq![]);
    offer(&mut r, query, "north");
    offer(&mut r, query, "south");
    offer(&mut r, query, "east");
    offer(&mut r, query, "west");
    offer(&mut r, query, "explore");
    offer(&mut r, query, "inventory");
    assert(texts(r@) =~= suggestions_for(q));
    r
}

/// The commands suggested for what the player has typed so far.
pub fn suggest_commands(input: &str) -> (r: Vec<String>)
    ensures
        texts(r@) == suggestions_for(lower_of(trimmed(input@))),
        trimmed(input@).len() == 0 ==> r@.len() == 0,
{
    let t = trim(input);
    let q = lowercase(t.as_str());
    let r = suggestions(&q);
    assert(texts(r@).len() == r@.len());
    r
}

fn is_word(a: &String, b: &str) -> (r: bool)
    ensures
        r == (a@ == b@),
{
    *a == String::from_str(b)
}

impl GameState {
    /// The target id of the first exit of the player's node named by `t`.
    fn exit_target(&self, t: &String) -> (r: Option<String>)
        ensures
            match r {
                Some(id) => exit_named(*self, t@) >= 0 && id@ == self.exits()[exit_named(*self, t@)].target_id@,
                None => exit_named(*self, t@) < 0,
            },
    {
        let ghost p = names_exit(t@);
        let n = match self.current_index() {
            Some(n) => n,
            None => {
                return None;
            },
        };
        let lt = lowercase(t.as_str());
        let mut i: usize = 0;
        while i < self.world.nodes[n].edges.len()
            invariant
                n < self.world.nodes@.len(),
                n as int == self.here(),
                lt@ == lower_of(t@),
                p == names_exit(t@),
                i <= self.exits().len(),
                forall|j: int| 0 <= j < i ==> !p(#[trigger] self.exits()[j]),
            decreases self.exits().len() - i,
        {
            let e = &self.world.nodes[n].edges[i];
            let ll = lowercase(e.label.as_str());
            let lid = lowercase(e.target_id.as_str());
            if ll == lt || lid == lt {
                proof { lemma_first_where_at(self.exits(), p, i as int); }
                return Some(e.target_id.clone());
            }
            i = i + 1;
        }
        proof { lemma_first_where_at(self.exits(), p, i as int); }
        None
    }

    /// Reads a command. Every input yields some action; what cannot be read
    /// yields `Invalid`. The whole input is lower-cased before it is split
    /// into words.
    pub fn parse_command(&self, input: &str) -> (r: GameAction)
        ensures
            r@ == parse_model(*self, input@),
    {
        let lowered = lowercase(input);
        self.parse_lowered(lowered.as_str())
    }

    /// Reads a command from input that is already lower-cased.
    pub fn parse_lowered(&self, text: &str) -> (r: GameAction)
        ensures
            r@ == parse_lowered_model(*self, text@),
    {
        let mut ws = split_words(text);
        if ws.len() == 0 {
            return GameAction::Invalid(String::new());
        }
        let ghost all = texts(ws@);
        let whole = join_with(&ws, " ");
        let verb = ws.remove(0);
        let args = ws;
        assert(texts(args@) =~= all.drop_first());
        self.command_for(&verb, args, whole)
    }

    /// The command for a verb and the words after it, all already
    /// lower-cased; `whole` is the full input, its words joined by single
    /// spaces.
    pub fn command_for(&self, verb: &String, args: Vec<String>, whole: String) -> (r: GameAction)
        ensures
            r@ == command_model(*self, verb@, texts(args@), whole@),
    {
        let arg = join_with(&args, " ");
        if is_word(verb, "h") || is_word(verb, "help") {
            GameAction::Help
        } else if is_word(verb, "l") || is_word(verb, "look") {
            GameAction::Look
        } else if is_word(verb, "g") || is_word(verb, "go") {
            if args.len() == 0 {
                GameAction::Invalid(String::from_str("Go where?"))
            } else {
                match self.exit_target(&arg) {
                    Some(id) => GameAction::Move(id),
                    None => GameAction::Move(arg),
                }
            }
        } else if is_word(verb, "x") || is_word(verb, "explore") {
            if args.len() == 0 {
                GameAction::Explore(None)
            } else {
                GameAction::Explore(Some(arg))
            }
        } else if is_word(verb, "p") || is_word(verb, "pickup") || is_word(verb, "get")
            || is_word(verb, "take") {
            if args.len() == 0 {
                GameAction::Invalid(String::from_str("Pick up what?"))
            } else {
                GameAction::Pickup(arg)
            }
        } else if is_word(verb, "d") || is_word(verb, "drop") {
            if args.len() == 0 {
                GameAction::Invalid(String::from_str("Drop what?"))
            } else {
                GameAction::Drop(arg)
            }
        } else if is_word(verb, "i") || is_word(verb, "inventory") || is_word(verb, "inv") {
            GameAction::Inventory
        } else if is_word(verb, "u") || is_word(verb, "use") {
            if args.len() == 0 {
                GameAction::Invalid(String::from_str("Use what?"))
            } else {
                GameAction::Use(arg)
            }
        } else if is_word(verb, "c") || is_word(verb, "combine") {
            if args.len() < 2 {
                GameAction::Invalid(String::from_str("Combine what with what?"))
            } else {
                GameAction::Combine(args[0].clone(), args[1].clone())
            }
        } else {
            match self.exit_target(&whole) {
                Some(id) => GameAction::Move(id),
                None => GameAction::Invalid(whole),
            }
        }
    }
}

impl GameState {
    /// Reads a command and carries it out. Where the command would advance a
    /// turn counter that is already at its limit, nothing changes and the
    /// result is false.
    pub fn run_command(&mut self, input: &str) -> (applied: bool)
        ensures
            ({
                let a = parse_model(*old(self), input@);
                &&& applied == (!advances(a) || old(self).turn < u32::MAX)
                &&& applied ==> step(*old(self), *final(self), a)
                &&& !applied ==> *final(self) == *old(self)
            }),
    {
        let action = self.parse_command(input);
        if action.advances() && self.turn == u32::MAX {
            return false;
        }
        self.apply_action(action);
        true
    }
}

} // verus!
