//! Laws on a shell that serves one request after the other.

use vstd::prelude::*;

use crate::laws::play::{lemma_play_on, lemma_play_one};
use crate::laws::requests::{
    law_begin_block, law_commit_block, law_ends_only_on_errors, law_one_reply, owed, wanted,
};
use crate::laws::transaction::{law_actions_of_a_transaction, law_transaction};
use crate::machine::{
    in_words, known_state, mempool_result, receive, reply, serve, State, Turn,
};
use crate::node::{answers, ending, judged, play, script, sound, Node};
use crate::protocol::{ActionView, EventView, Mode, ReplyView, RequestKind, RequestView};

verus! {

/// The kind of reply that is due in a turn: owed, or just being sent.
pub open spec fn due(turn: Turn) -> Seq<RequestKind> {
    match turn.0 {
        State::Sending { kind } => seq![kind],
        _ => match owed(turn.0) {
            Some(kind) => seq![kind],
            None => Seq::empty(),
        },
    }
}

/// A turn sends a reply if and only if it waits for one to be sent, of the same
/// kind.
pub open spec fn orderly(turn: Turn) -> bool {
    match (turn.0, turn.1) {
        (State::Sending { kind }, ActionView::Reply(answer)) => answer.kind() == kind,
        (State::Sending { .. }, _) => false,
        (_, ActionView::Reply(_)) => false,
        _ => true,
    }
}

/// Whether each of the events is awaited when it comes.
pub open spec fn fits(turn: Turn, events: Seq<EventView>) -> bool
    decreases events.len(),
{
    events.len() > 0 ==> turn.0.awaits(events[0]) && fits(
        turn.0.next(events[0]),
        events.skip(1),
    )
}

/// Lets the shell go on with the given events: the actions that they answer,
/// and the turn reached.
pub open spec fn follow(turn: Turn, events: Seq<EventView>) -> (Seq<ActionView>, Turn)
    decreases events.len(),
{
    if events.len() == 0 {
        (Seq::empty(), turn)
    } else {
        let (later, end) = follow(turn.0.next(events[0]), events.skip(1));
        (seq![turn.1] + later, end)
    }
}

/// The replies among actions, in order.
pub open spec fn replies(actions: Seq<ActionView>) -> Seq<ReplyView>
    decreases actions.len(),
{
    if actions.len() == 0 {
        Seq::empty()
    } else {
        let later = replies(actions.skip(1));
        match actions[0] {
            ActionView::Reply(answer) => seq![answer] + later,
            _ => later,
        }
    }
}

/// The kinds of replies.
pub open spec fn kinds(given: Seq<ReplyView>) -> Seq<RequestKind> {
    Seq::new(given.len(), |i: int| given[i].kind())
}

/// The kinds of the replies that the requests among events are to get, in
/// order.
pub open spec fn requested(events: Seq<EventView>) -> Seq<RequestKind>
    decreases events.len(),
{
    if events.len() == 0 {
        Seq::empty()
    } else {
        let later = requested(events.skip(1));
        match events[0] {
            EventView::Received(request) => match wanted(request) {
                Some(kind) => seq![kind] + later,
                None => later,
            },
            _ => later,
        }
    }
}

/// One turn keeps the books: what was due or is now requested is what is now
/// replied or stays due.
pub proof fn lemma_one_turn(turn: Turn, event: EventView)
    requires
        orderly(turn),
        turn.0.awaits(event),
    ensures
        orderly(turn.0.next(event)),
        !(turn.0.next(event).0 is Stopped) ==> due(turn) + requested(seq![event]) == kinds(
            replies(seq![turn.1]),
        ) + due(turn.0.next(event)),
{
    reveal_with_fuel(requested, 2);
    reveal_with_fuel(replies, 2);
    law_one_reply(turn.0, event);
    law_ends_only_on_errors(turn.0, event);
    if !(turn.0.next(event).0 is Stopped) {
        assert(due(turn) + requested(seq![event]) =~= kinds(replies(seq![turn.1])) + due(
            turn.0.next(event),
        ));
    }
}

/// The replies of a first action come before those of the rest.
proof fn lemma_replies_first(first: ActionView, rest: Seq<ActionView>)
    ensures
        replies(seq![first] + rest) == replies(seq![first]) + replies(rest),
{
    reveal_with_fuel(replies, 2);
    assert((seq![first] + rest).skip(1) =~= rest);
    assert(replies(seq![first] + rest) =~= replies(seq![first]) + replies(rest));
}

/// The replies of joined actions are the joined replies.
proof fn lemma_replies_joined(first: Seq<ActionView>, second: Seq<ActionView>)
    ensures
        replies(first + second) == replies(first) + replies(second),
    decreases first.len(),
{
    if first.len() == 0 {
        assert(first + second =~= second);
        assert(replies(first + second) =~= replies(first) + replies(second));
    } else {
        let rest = first.skip(1);
        assert(first =~= seq![first[0]] + rest);
        assert(first + second =~= seq![first[0]] + (rest + second));
        lemma_replies_first(first[0], rest);
        lemma_replies_first(first[0], rest + second);
        lemma_replies_joined(rest, second);
        assert(replies(first + second) =~= replies(first) + replies(second));
    }
}

/// Whatever happens, replies come in the order of the requests, one for each
/// request that is to get one and of its kind, and no others. As long as the
/// shell has not ended, what was due at first and has been requested since is
/// what has been replied and is still due, which is one reply at most.
pub proof fn law_replies_in_order(turn: Turn, events: Seq<EventView>)
    requires
        orderly(turn),
        fits(turn, events),
    ensures
        !(follow(turn, events).1.0 is Stopped) ==> due(turn) + requested(events) == kinds(
            replies(follow(turn, events).0),
        ) + due(follow(turn, events).1),
        orderly(follow(turn, events).1),
        due(follow(turn, events).1).len() <= 1,
    decreases events.len(),
{
    let (actions, end) = follow(turn, events);
    if events.len() == 0 {
        if !(end.0 is Stopped) {
            assert(due(turn) + requested(events) =~= kinds(replies(actions)) + due(end));
        }
    } else {
        let rest = events.skip(1);
        let next = turn.0.next(events[0]);
        let (later, _) = follow(next, rest);
        lemma_one_turn(turn, events[0]);
        law_replies_in_order(next, rest);
        if next.0 is Stopped {
            reveal_with_fuel(fits, 2);
            assert(rest.len() == 0);
        } else if !(end.0 is Stopped) {
            lemma_replies_first(turn.1, later);
            reveal_with_fuel(requested, 2);
            assert(requested(events) =~= requested(seq![events[0]]) + requested(rest));
            let now = kinds(replies(seq![turn.1]));
            assert(kinds(replies(actions)) =~= now + kinds(replies(later)));
            assert(due(turn) + requested(events) =~= (due(turn) + requested(seq![events[0]]))
                + requested(rest));
            assert(now + (due(next) + requested(rest)) =~= (now + due(next)) + requested(rest));
            assert(now + (kinds(replies(later)) + due(end)) =~= kinds(replies(actions)) + due(
                end,
            ));
        }
    }
}

/// A shell that has waited for requests, and does so again, has replied to all
/// requests that it has taken in between, in their order, and to no other.
pub proof fn law_all_replied(events: Seq<EventView>)
    requires
        fits(receive(), events),
        follow(receive(), events).1 == receive(),
    ensures
        kinds(replies(follow(receive(), events).0)) == requested(events),
{
    law_replies_in_order(receive(), events);
    assert(due(receive()) + requested(events) =~= requested(events));
    let given = kinds(replies(follow(receive(), events).0));
    assert(given + due(receive()) =~= given);
}

/// The actions that a request takes before it is replied to.
pub open spec fn work(request: RequestView, node: Node) -> Seq<ActionView> {
    match request {
        RequestView::GetInfo => seq![ActionView::LoadLastState],
        RequestView::InitChain { chain_id } => seq![ActionView::SetChainId { chain_id }],
        RequestView::MempoolValidate { .. } => Seq::empty(),
        RequestView::BeginBlock { hash, height } => seq![
            ActionView::ResetGas,
            ActionView::BeginBlock { hash, height },
        ],
        RequestView::ApplyTx { tx } => script(node, Mode::Apply, tx),
        RequestView::EndBlock { .. } => Seq::empty(),
        RequestView::CommitBlock => seq![
            ActionView::CommitWrites,
            ActionView::PersistBlock,
            ActionView::ReadRoot,
        ],
        RequestView::AbciQuery { path, data, .. } => if path == "dry_run_tx"@ {
            script(node, Mode::DryRun, data)
        } else {
            Seq::empty()
        },
    }
}

/// The reply to a transaction.
pub open spec fn tx_reply(node: Node, mode: Mode, tx: Seq<u8>) -> ReplyView {
    ending(node, mode, judged(node, mode, tx)).1->Reply_0
}

/// The reply to a request. A query on an unknown path gets none.
pub open spec fn answer(request: RequestView, node: Node) -> Option<ReplyView> {
    match request {
        RequestView::GetInfo => Some(
            ReplyView::GetInfo(known_state(node(ActionView::LoadLastState)->LastState_0)),
        ),
        RequestView::InitChain { .. } => Some(ReplyView::InitChain),
        RequestView::MempoolValidate { tx, .. } => Some(
            ReplyView::MempoolValidate(in_words(mempool_result(tx))),
        ),
        RequestView::BeginBlock { .. } => Some(ReplyView::BeginBlock),
        RequestView::ApplyTx { tx } => Some(tx_reply(node, Mode::Apply, tx)),
        RequestView::EndBlock { .. } => Some(ReplyView::EndBlock),
        RequestView::CommitBlock => Some(
            ReplyView::CommitBlock(node(ActionView::ReadRoot)->Root_0),
        ),
        RequestView::AbciQuery { path, data, .. } => if path == "dry_run_tx"@ {
            Some(tx_reply(node, Mode::DryRun, data))
        } else {
            None
        },
    }
}

/// All actions that a request takes: its work, and then its reply, if it gets
/// one.
pub open spec fn steps(request: RequestView, node: Node) -> Seq<ActionView> {
    match answer(request, node) {
        Some(given) => work(request, node).push(ActionView::Reply(given)),
        None => work(request, node),
    }
}

/// The node serves the request without an error that ends the shell: the
/// identifier of the chain can be set, and the reply can be sent.
pub open spec fn goes_well(request: RequestView, node: Node) -> bool {
    &&& sound(node)
    &&& request matches RequestView::InitChain { chain_id } ==> node(
        ActionView::SetChainId { chain_id },
    ) == EventView::ChainIdSet(Ok(()))
    &&& answer(request, node) matches Some(given) ==> node(ActionView::Reply(given))
        == EventView::Sent(Ok(()))
}

/// The work of a request leads to its reply.
proof fn lemma_work(request: RequestView, node: Node)
    requires
        goes_well(request, node),
    ensures
        play(serve(request), node, work(request, node).len()) == (
            work(request, node),
            match answer(request, node) {
                Some(given) => reply(given),
                None => receive(),
            },
        ),
{
    let first = serve(request);
    match request {
        RequestView::GetInfo => {
            assert(answers(first.1, node(first.1)));
            lemma_play_one(first, node);
        },
        RequestView::InitChain { chain_id } => {
            lemma_play_one(first, node);
        },
        RequestView::BeginBlock { hash, height } => {
            law_begin_block(node, hash, height);
        },
        RequestView::ApplyTx { tx } => {
            law_transaction(node, Mode::Apply, tx);
        },
        RequestView::CommitBlock => {
            law_commit_block(node);
        },
        RequestView::AbciQuery { path, data, .. } => {
            if path == "dry_run_tx"@ {
                law_transaction(node, Mode::DryRun, data);
            }
        },
        _ => {},
    }
}

/// No reply is among actions that hold none.
proof fn lemma_no_replies(actions: Seq<ActionView>)
    requires
        forall|action: ActionView| #[trigger] actions.contains(action) ==> !(action is Reply),
    ensures
        replies(actions) == Seq::<ReplyView>::empty(),
    decreases actions.len(),
{
    if actions.len() > 0 {
        let rest = actions.skip(1);
        assert(actions.contains(actions[0]));
        assert forall|action: ActionView| #[trigger] rest.contains(action) implies !(
        action is Reply) by {
            let i = choose|i: int| 0 <= i < rest.len() && rest[i] == action;
            assert(actions[i + 1] == action);
            assert(actions.contains(action));
        }
        lemma_no_replies(rest);
    }
}

/// A request that comes while the shell waits for one takes exactly its steps,
/// in order, and then the shell waits for the next. Its reply is the only one
/// among them, and of the kind that the request is to get. A query on an unknown
/// path takes no step.
pub proof fn law_request_served(request: RequestView, node: Node)
    requires
        goes_well(request, node),
    ensures
        play(State::Idle.next(EventView::Received(request)), node, steps(request, node).len()) == (
            steps(request, node),
            receive(),
        ),
        replies(steps(request, node)) == match answer(request, node) {
            Some(given) => seq![given],
            None => Seq::empty(),
        },
        wanted(request) == match answer(request, node) {
            Some(given) => Some(given.kind()),
            None => None,
        },
        wanted(request) is None ==> steps(request, node).len() == 0,
{
    let before = work(request, node);
    lemma_work(request, node);
    assert forall|action: ActionView| #[trigger] before.contains(action) implies !(
    action is Reply) by {
        match request {
            RequestView::ApplyTx { tx } => {
                law_actions_of_a_transaction(node, Mode::Apply, tx, action);
            },
            RequestView::AbciQuery { path, data, .. } => {
                if path == "dry_run_tx"@ {
                    law_actions_of_a_transaction(node, Mode::DryRun, data, action);
                }
            },
            _ => {},
        }
    }
    lemma_no_replies(before);
    if answer(request, node) is Some {
        let given = answer(request, node)->Some_0;
        let last = seq![ActionView::Reply(given)];
        lemma_play_one(reply(given), node);
        lemma_play_on(serve(request), node, before.len(), 1);
        assert(steps(request, node) =~= before + last);
        lemma_replies_joined(before, last);
        reveal_with_fuel(replies, 2);
        assert(replies(steps(request, node)) =~= seq![given]);
    }
}

/// Lets the shell take one request after the other, each answered by a node of
/// its own and served for as many turns as it takes: all actions, and the turn
/// reached.
pub open spec fn session(turn: Turn, requests: Seq<(RequestView, Node)>) -> (
    Seq<ActionView>,
    Turn,
)
    decreases requests.len(),
{
    if requests.len() == 0 {
        (Seq::empty(), turn)
    } else {
        let (request, node) = requests[0];
        let (actions, end) = play(
            turn.0.next(EventView::Received(request)),
            node,
            steps(request, node).len(),
        );
        let (later, last) = session(end, requests.skip(1));
        (seq![turn.1] + actions + later, last)
    }
}

/// The steps of requests that come one after the other, each received first.
pub open spec fn all_steps(requests: Seq<(RequestView, Node)>) -> Seq<ActionView>
    decreases requests.len(),
{
    if requests.len() == 0 {
        Seq::empty()
    } else {
        seq![ActionView::Receive] + steps(requests[0].0, requests[0].1) + all_steps(
            requests.skip(1),
        )
    }
}

/// The replies to requests, in order. A query on an unknown path gets none.
pub open spec fn all_answers(requests: Seq<(RequestView, Node)>) -> Seq<ReplyView>
    decreases requests.len(),
{
    if requests.len() == 0 {
        Seq::empty()
    } else {
        let later = all_answers(requests.skip(1));
        match answer(requests[0].0, requests[0].1) {
            Some(given) => seq![given] + later,
            None => later,
        }
    }
}

/// A shell that waits for requests takes, of any number of them, one after the
/// other, exactly the steps, and waits again at the end. The replies that it
/// sends are the answers to the requests, in their order, one for each, and none
/// for a query on an unknown path.
pub proof fn law_session(requests: Seq<(RequestView, Node)>)
    requires
        forall|i: int|
            0 <= i < requests.len() ==> goes_well((#[trigger] requests[i]).0, requests[i].1),
    ensures
        session(receive(), requests) == (all_steps(requests), receive()),
        replies(all_steps(requests)) == all_answers(requests),
    decreases requests.len(),
{
    if requests.len() > 0 {
        let (request, node) = requests[0];
        let rest = requests.skip(1);
        assert(goes_well(requests[0].0, requests[0].1));
        law_request_served(request, node);
        assert forall|i: int| 0 <= i < rest.len() implies goes_well(
            (#[trigger] rest[i]).0,
            rest[i].1,
        ) by {
            assert(rest[i] == requests[i + 1]);
        }
        law_session(rest);
        let taken = seq![ActionView::Receive];
        lemma_replies_joined(taken + steps(request, node), all_steps(rest));
        lemma_replies_joined(taken, steps(request, node));
        reveal_with_fuel(replies, 2);
        assert(replies(all_steps(requests)) =~= all_answers(requests));
    }
}

} // verus!
