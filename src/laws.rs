//! Properties of the engine that relate several of its operations.
use vstd::prelude::*;

use crate::state::{
    carries, condition_holds, conditions_hold, snapshot_step, step, undo_step, without_first,
    ActionModel, GameState, Player, HISTORY_LIMIT,
};
use crate::text::{lemma_position_of, texts};
use crate::world::{
    combination_index, edge_index, same_edge, same_node, same_world, template_of, Edge, World,
    WorldTemplate,
};

verus! {

broadcast use vstd::seq_lib::group_to_multiset_ensures;

/// An edge without conditions is open to every player.
pub proof fn lemma_unconditioned_edge_open(p: Player, e: Edge)
    requires
        e.conditions@.len() == 0,
    ensures
        conditions_hold(p, e.conditions@),
{
}

/// One failing condition closes an edge, whatever its other conditions.
pub proof fn lemma_failing_condition_closes(p: Player, e: Edge, i: int)
    requires
        0 <= i < e.conditions@.len(),
        !condition_holds(p, e.conditions@[i]),
    ensures
        !conditions_hold(p, e.conditions@),
{
}

/// A move changes the player's node and advances the turn exactly when an
/// exit leads to the target and its conditions hold; otherwise it only
/// appends one line to the log.
pub proof fn lemma_move_outcome(pre: GameState, post: GameState, t: Seq<char>)
    requires
        step(pre, post, ActionModel::Move(t)),
    ensures
        ({
            let e = edge_index(pre.exits(), t);
            let open = e >= 0 && conditions_hold(pre.player, pre.exits()[e].conditions@);
            &&& open ==> post.player.current_node@ == t && post.turn == pre.turn + 1
            &&& !open ==> {
                &&& post.player == pre.player
                &&& post.world == pre.world
                &&& post.turn == pre.turn
                &&& post.history == pre.history
                &&& texts(post.log@).len() == texts(pre.log@).len() + 1
                &&& texts(post.log@).subrange(0, pre.log@.len() as int) == texts(pre.log@)
            }
        }),
{
    let e = edge_index(pre.exits(), t);
    let open = e >= 0 && conditions_hold(pre.player, pre.exits()[e].conditions@);
    if !open {
        assert(texts(post.log@).subrange(0, pre.log@.len() as int) =~= texts(pre.log@));
    }
}

proof fn lemma_without_first(s: Seq<Seq<char>>, x: Seq<char>)
    requires
        s.contains(x),
    ensures
        without_first(s, x).to_multiset() == s.to_multiset().remove(x),
{
    lemma_position_of(s, x);
}

/// A combination succeeds exactly when both items are carried and a recipe
/// joins them in either order; it then takes one of each out of the
/// inventory, adds the result, and advances the turn by one. Otherwise the
/// player and the turn stay as they were. Where both ids are the same, the
/// player carries it twice.
pub proof fn lemma_combine_outcome(pre: GameState, post: GameState, a: Seq<char>, b: Seq<char>)
    requires
        step(pre, post, ActionModel::Combine(a, b)),
        a != b || texts(pre.player.inventory@).to_multiset().count(a) >= 2,
    ensures
        ({
            let c = combination_index(pre.world.combinations@, a, b);
            let ok = carries(pre.player, a) && carries(pre.player, b) && c >= 0;
            &&& ok ==> {
                &&& post.turn == pre.turn + 1
                &&& texts(post.player.inventory@).to_multiset() == texts(
                    pre.player.inventory@,
                ).to_multiset().remove(a).remove(b).insert(
                    pre.world.combinations@[c].result@,
                )
            }
            &&& !ok ==> post.player == pre.player && post.turn == pre.turn
        }),
{
    let inv = texts(pre.player.inventory@);
    let c = combination_index(pre.world.combinations@, a, b);
    if carries(pre.player, a) && carries(pre.player, b) && c >= 0 {
        lemma_without_first(inv, a);
        let inv1 = without_first(inv, a);
        assert(inv1.to_multiset().count(b) > 0);
        lemma_without_first(inv1, b);
    }
}

/// The turn counter never goes back.
pub proof fn lemma_turn_monotonic(pre: GameState, post: GameState, a: ActionModel)
    requires
        step(pre, post, a),
    ensures
        pre.turn <= post.turn <= pre.turn + 1,
{
}

/// Playing never breaks the uniqueness of node and item ids.
pub proof fn lemma_step_keeps_world_wf(pre: GameState, post: GameState, a: ActionModel)
    requires
        step(pre, post, a),
        pre.world.wf(),
    ensures
        post.world.wf(),
{
    assert forall|k: int| 0 <= k < post.world.nodes@.len() implies (
    #[trigger] post.world.nodes@[k]).id@ == pre.world.nodes@[k].id@ by {}
}

/// A snapshot keeps the history within `HISTORY_LIMIT` entries.
pub proof fn lemma_history_bounded(pre: GameState, post: GameState)
    requires
        pre.history@.len() <= HISTORY_LIMIT,
        snapshot_step(pre, post),
    ensures
        post.history@.len() <= HISTORY_LIMIT,
{
}

/// A snapshot onto a full history drops the oldest entry and keeps the
/// others in order.
pub proof fn lemma_full_history_drops_oldest(pre: GameState, post: GameState)
    requires
        pre.history@.len() == HISTORY_LIMIT,
        snapshot_step(pre, post),
    ensures
        post.history@.len() == HISTORY_LIMIT,
        forall|i: int|
            0 <= i < HISTORY_LIMIT - 1 ==> #[trigger] post.history@[i] == pre.history@[i + 1],
{
    let kept = pre.history@.drop_first();
    assert forall|i: int| 0 <= i < HISTORY_LIMIT - 1 implies #[trigger] post.history@[i]
        == pre.history@[i + 1] by {
        assert(post.history@.subrange(0, kept.len() as int)[i] == kept[i]);
    }
}

/// Undo right after a snapshot brings back the world that was saved.
pub proof fn lemma_undo_restores_snapshot(
    s0: GameState,
    s1: GameState,
    s2: GameState,
    restored: bool,
)
    requires
        snapshot_step(s0, s1),
        undo_step(s1, s2, restored),
    ensures
        restored,
        same_world(s2.world, s0.world),
{
}

/// Undo on an empty history restores nothing and leaves the world alone.
pub proof fn lemma_undo_empty(pre: GameState, post: GameState, restored: bool)
    requires
        pre.history@.len() == 0,
        undo_step(pre, post, restored),
    ensures
        !restored,
        post.world == pre.world,
        post.history@ == pre.history@,
{
}

/// A world written out as a template and read back holds the same nodes,
/// edges, conditions, items and combinations.
pub proof fn lemma_template_round_trip(w: World, t: WorldTemplate, back: World)
    requires
        template_of(t, w),
        template_of(t, back),
    ensures
        same_world(back, w),
{
    assert forall|i: int| 0 <= i < w.nodes@.len() implies same_node(
        #[trigger] back.nodes@[i],
        w.nodes@[i],
    ) by {
        let (x, y, z) = (back.nodes@[i], t.nodes@[i], w.nodes@[i]);
        assert(same_node(y, z));
        assert(same_node(y, x));
        assert forall|j: int| 0 <= j < z.edges@.len() implies same_edge(
            #[trigger] x.edges@[j],
            z.edges@[j],
        ) by {
            assert(same_edge(y.edges@[j], z.edges@[j]));
            assert(same_edge(y.edges@[j], x.edges@[j]));
        }
    }
}

} // verus!
