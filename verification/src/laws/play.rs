//! Play of several turns.

use vstd::prelude::*;

use crate::machine::Turn;
use crate::node::{play, Node};
use crate::protocol::ActionView;

verus! {

/// Play of `a + b` turns is play of `a` turns, then of `b`.
pub proof fn lemma_play_on(turn: Turn, node: Node, a: nat, b: nat)
    ensures
        ({
            let (first, middle) = play(turn, node, a);
            let (second, end) = play(middle, node, b);
            play(turn, node, a + b) == (first + second, end)
        }),
    decreases a,
{
    let (first, middle) = play(turn, node, a);
    let (second, end) = play(middle, node, b);
    if a == 0 {
        assert(first + second =~= second);
    } else {
        let next = turn.0.next(node(turn.1));
        lemma_play_on(next, node, (a - 1) as nat, b);
        let (tail, _) = play(next, node, (a - 1) as nat);
        assert(first =~= seq![turn.1] + tail);
        assert(first + second =~= seq![turn.1] + (tail + second));
        assert((a + b - 1) as nat == (a - 1) as nat + b);
    }
}

/// One turn of play.
pub proof fn lemma_play_one(turn: Turn, node: Node)
    ensures
        play(turn, node, 1) == (seq![turn.1], turn.0.next(node(turn.1))),
{
    reveal_with_fuel(play, 2);
    assert(seq![turn.1] + Seq::<ActionView>::empty() =~= seq![turn.1]);
}

} // verus!
