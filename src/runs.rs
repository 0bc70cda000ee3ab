//! Whole runs of a sequencer: the steps a driver is given when it reports a
//! sequence of outcomes, and what is true of every such run.

use vstd::prelude::*;
use crate::sequencer::{
    action_commands, failure_of, is_send, plan_of, send_commands, sends_in, Action, Command, RunState,
    SequenceError, Step,
};

verus! {

/// The state after the driver reports `outcomes`, in order, starting in `s`.
pub open spec fn after_reports(s: RunState, outcomes: Seq<bool>) -> RunState
    decreases outcomes.len(),
{
    if outcomes.len() == 0 {
        s
    } else {
        after_reports(s, outcomes.drop_last()).after_report(outcomes.last())
    }
}

/// The steps the driver is given while it reports `outcomes` starting in `s`:
/// the `i`-th is the step it is given after its first `i` reports.
pub open spec fn trace(s: RunState, outcomes: Seq<bool>) -> Seq<Step> {
    Seq::new(outcomes.len() + 1, |i: int| after_reports(s, outcomes.take(i)).next_step())
}

/// Every report among the first `n` that is a failure is the failure of a
/// best-effort command.
pub open spec fn accepted_until(steps: Seq<Command>, outcomes: Seq<bool>, n: int) -> bool {
    forall|i: int| 0 <= i < n ==> #[trigger] outcomes[i] || failure_of(steps[i]) is None
}

proof fn lemma_take_step(outcomes: Seq<bool>, i: int)
    requires
        0 <= i < outcomes.len(),
    ensures
        outcomes.take(i + 1).drop_last() == outcomes.take(i),
        outcomes.take(i + 1).last() == outcomes[i],
{
    assert(outcomes.take(i + 1).drop_last() =~= outcomes.take(i));
}

/// While no command whose failure ends the run has failed, the run walks the
/// plan one command per report.
proof fn lemma_accepted_prefix(s: RunState, outcomes: Seq<bool>, i: int)
    requires
        s.failure is None,
        s.pos == 0,
        0 <= i <= outcomes.len(),
        i <= s.steps.len(),
        accepted_until(s.steps, outcomes, i),
    ensures
        after_reports(s, outcomes.take(i)) == (RunState { steps: s.steps, pos: i as nat, failure: None }),
    decreases i,
{
    if i == 0 {
        assert(outcomes.take(0) =~= Seq::<bool>::empty());
    } else {
        lemma_accepted_prefix(s, outcomes, i - 1);
        lemma_take_step(outcomes, i - 1);
        assert(outcomes[i - 1] || failure_of(s.steps[i - 1]) is None);
    }
}

/// Once a run has failed, further reports change nothing.
proof fn lemma_failure_stays(s: RunState, outcomes: Seq<bool>, m: int, i: int)
    requires
        0 <= m <= i <= outcomes.len(),
        after_reports(s, outcomes.take(m)).failure is Some,
    ensures
        after_reports(s, outcomes.take(i)) == after_reports(s, outcomes.take(m)),
    decreases i - m,
{
    if i > m {
        lemma_failure_stays(s, outcomes, m, i - 1);
        lemma_take_step(outcomes, i - 1);
    }
}

/// Once a run has reached the end of its plan, further reports change nothing.
proof fn lemma_end_stays(s: RunState, outcomes: Seq<bool>, m: int, i: int)
    requires
        0 <= m <= i <= outcomes.len(),
        after_reports(s, outcomes.take(m)).pos >= s.steps.len(),
        after_reports(s, outcomes.take(m)).steps == s.steps,
    ensures
        after_reports(s, outcomes.take(i)) == after_reports(s, outcomes.take(m)),
    decreases i - m,
{
    if i > m {
        lemma_end_stays(s, outcomes, m, i - 1);
        lemma_take_step(outcomes, i - 1);
    }
}

/// A run in which every command succeeds, except perhaps best-effort ones
/// (sleeping, the typing indicator), performs its whole plan in order, one
/// command per report, and then finishes with success.
pub proof fn lemma_run_succeeds(s: RunState, outcomes: Seq<bool>)
    requires
        s.pos == 0,
        s.failure is None,
        outcomes.len() >= s.steps.len(),
        accepted_until(s.steps, outcomes, s.steps.len() as int),
    ensures
        forall|i: int| 0 <= i < s.steps.len() ==> #[trigger] trace(s, outcomes)[i] == Step::Perform(s.steps[i]),
        forall|i: int| s.steps.len() <= i <= outcomes.len() ==> #[trigger] trace(s, outcomes)[i] == Step::Finish(Ok(())),
{
    let n = s.steps.len() as int;
    assert forall|i: int| 0 <= i < n implies #[trigger] trace(s, outcomes)[i] == Step::Perform(s.steps[i]) by {
        lemma_accepted_prefix(s, outcomes, i);
    }
    assert forall|i: int| n <= i <= outcomes.len() implies #[trigger] trace(s, outcomes)[i] == Step::Finish(Ok(())) by {
        lemma_accepted_prefix(s, outcomes, n);
        lemma_end_stays(s, outcomes, n, i);
    }
}

/// A run in which the command at `j` fails, and every command before it
/// succeeds except perhaps best-effort ones, performs the plan up to and
/// including `j`, and from then on is finished with that command's error.
pub proof fn lemma_run_fails_at(s: RunState, outcomes: Seq<bool>, j: int)
    requires
        s.pos == 0,
        s.failure is None,
        0 <= j < s.steps.len(),
        j < outcomes.len(),
        accepted_until(s.steps, outcomes, j),
        !outcomes[j],
        failure_of(s.steps[j]) is Some,
    ensures
        forall|i: int| 0 <= i <= j ==> #[trigger] trace(s, outcomes)[i] == Step::Perform(s.steps[i]),
        forall|i: int| j < i <= outcomes.len() ==> #[trigger] trace(s, outcomes)[i] == Step::Finish(Err(failure_of(s.steps[j])->0)),
{
    assert forall|i: int| 0 <= i <= j implies #[trigger] trace(s, outcomes)[i] == Step::Perform(s.steps[i]) by {
        lemma_accepted_prefix(s, outcomes, i);
    }
    assert forall|i: int| j < i <= outcomes.len() implies #[trigger] trace(s, outcomes)[i] == Step::Finish(Err(failure_of(s.steps[j])->0)) by {
        lemma_accepted_prefix(s, outcomes, j);
        lemma_take_step(outcomes, j);
        lemma_failure_stays(s, outcomes, j + 1, i);
    }
}

/// The outcome reported for a best-effort command (sleeping, the typing
/// indicator) never changes the course of a run.
pub proof fn lemma_best_effort_ignored(s: RunState)
    requires
        s.next_step() matches Step::Perform(cmd) && failure_of(cmd) is None,
    ensures
        s.after_report(true) == s.after_report(false),
{
}

/// Two runs whose reports differ only on best-effort commands are given the
/// same steps.
pub proof fn lemma_best_effort_outcomes_ignored(s: RunState, a: Seq<bool>, b: Seq<bool>)
    requires
        a.len() == b.len(),
        forall|i: int|
            0 <= i < a.len() && a[i] != b[i] ==> (#[trigger] trace(s, a)[i] matches Step::Perform(cmd)
                && failure_of(cmd) is None),
    ensures
        trace(s, a) == trace(s, b),
{
    assert forall|i: int| 0 <= i <= a.len() implies after_reports(s, a.take(i)) == after_reports(s, b.take(i)) by {
        lemma_same_states(s, a, b, i);
    }
    assert(trace(s, a) =~= trace(s, b));
}

proof fn lemma_same_states(s: RunState, a: Seq<bool>, b: Seq<bool>, i: int)
    requires
        a.len() == b.len(),
        0 <= i <= a.len(),
        forall|k: int|
            0 <= k < a.len() && a[k] != b[k] ==> (#[trigger] trace(s, a)[k] matches Step::Perform(cmd)
                && failure_of(cmd) is None),
    ensures
        after_reports(s, a.take(i)) == after_reports(s, b.take(i)),
    decreases i,
{
    if i == 0 {
        assert(a.take(0) =~= b.take(0));
    } else {
        lemma_same_states(s, a, b, i - 1);
        lemma_take_step(a, i - 1);
        lemma_take_step(b, i - 1);
        if a[i - 1] != b[i - 1] {
            assert(trace(s, a)[i - 1] matches Step::Perform(cmd) && failure_of(cmd) is None);
            lemma_best_effort_ignored(after_reports(s, a.take(i - 1)));
        }
    }
}

/// The texts of the messages that `cmds` send, in order.
pub open spec fn sent_texts(cmds: Seq<Command>) -> Seq<String>
    decreases cmds.len(),
{
    if cmds.len() == 0 {
        seq![]
    } else {
        sent_texts(cmds.drop_last()) + match cmds.last() {
            Command::Send(text) => seq![text],
            _ => seq![],
        }
    }
}

/// The emojis that `cmds` react with, in order.
pub open spec fn reacted_emojis(cmds: Seq<Command>) -> Seq<char>
    decreases cmds.len(),
{
    if cmds.len() == 0 {
        seq![]
    } else {
        reacted_emojis(cmds.drop_last()) + match cmds.last() {
            Command::React { emoji, .. } => seq![emoji],
            _ => seq![],
        }
    }
}

/// The text of the message that the action `a` produces, if any.
pub open spec fn action_texts(a: Action) -> Seq<String> {
    match a {
        Action::Wait(_) => seq![],
        Action::Send(text) => seq![text],
        Action::SendAndReact(text, _) => seq![text],
    }
}

/// The emoji that the action `a` reacts with, if any.
pub open spec fn action_emojis(a: Action) -> Seq<char> {
    match a {
        Action::SendAndReact(_, emoji) => seq![emoji],
        _ => seq![],
    }
}

/// The texts of the messages that the actions of `script` produce, in order.
pub open spec fn script_texts(script: Seq<Action>) -> Seq<String>
    decreases script.len(),
{
    if script.len() == 0 {
        seq![]
    } else {
        script_texts(script.drop_last()) + action_texts(script.last())
    }
}

/// The emojis of the reacting actions of `script`, in order.
pub open spec fn script_emojis(script: Seq<Action>) -> Seq<char>
    decreases script.len(),
{
    if script.len() == 0 {
        seq![]
    } else {
        script_emojis(script.drop_last()) + action_emojis(script.last())
    }
}

/// Position in the plan of `script` of the send of the action at `k`.
pub open spec fn send_position(script: Seq<Action>, k: int) -> int {
    plan_of(script.take(k)).len() + 2int
}

/// Position in the plan of `script` of the reaction of the action at `k`.
pub open spec fn react_position(script: Seq<Action>, k: int) -> int {
    plan_of(script.take(k)).len() + 4int
}

proof fn lemma_sent_texts_concat(a: Seq<Command>, b: Seq<Command>)
    ensures
        sent_texts(a + b) == sent_texts(a) + sent_texts(b),
        reacted_emojis(a + b) == reacted_emojis(a) + reacted_emojis(b),
    decreases b.len(),
{
    if b.len() == 0 {
        assert(a + b =~= a);
        assert(sent_texts(a) + sent_texts(b) =~= sent_texts(a));
        assert(reacted_emojis(a) + reacted_emojis(b) =~= reacted_emojis(a));
    } else {
        lemma_sent_texts_concat(a, b.drop_last());
        assert((a + b).drop_last() =~= a + b.drop_last());
        assert((a + b).last() == b.last());
        assert(sent_texts(a + b) =~= sent_texts(a) + sent_texts(b));
        assert(reacted_emojis(a + b) =~= reacted_emojis(a) + reacted_emojis(b));
    }
}

proof fn lemma_single(c: Command)
    ensures
        sent_texts(seq![c]) == match c {
            Command::Send(text) => seq![text],
            _ => Seq::<String>::empty(),
        },
        reacted_emojis(seq![c]) == match c {
            Command::React { emoji, .. } => seq![emoji],
            _ => Seq::<char>::empty(),
        },
{
    assert(seq![c].drop_last() =~= Seq::<Command>::empty());
    assert(sent_texts(seq![c]) =~= sent_texts(Seq::<Command>::empty()) + match c {
        Command::Send(text) => seq![text],
        _ => Seq::<String>::empty(),
    });
    assert(reacted_emojis(seq![c]) =~= reacted_emojis(Seq::<Command>::empty()) + match c {
        Command::React { emoji, .. } => seq![emoji],
        _ => Seq::<char>::empty(),
    });
}

proof fn lemma_send_commands_texts(text: String)
    ensures
        sent_texts(send_commands(text)) == seq![text],
        reacted_emojis(send_commands(text)) == Seq::<char>::empty(),
        sent_texts(send_commands(text).take(2)) == Seq::<String>::empty(),
{
    let c = send_commands(text);
    assert(c =~= seq![c[0]] + seq![c[1]] + seq![c[2]] + seq![c[3]]);
    assert(c.take(2) =~= seq![c[0]] + seq![c[1]]);
    lemma_single(c[0]);
    lemma_single(c[1]);
    lemma_single(c[2]);
    lemma_single(c[3]);
    lemma_sent_texts_concat(seq![c[0]], seq![c[1]]);
    lemma_sent_texts_concat(seq![c[0]] + seq![c[1]], seq![c[2]]);
    lemma_sent_texts_concat(seq![c[0]] + seq![c[1]] + seq![c[2]], seq![c[3]]);
    assert(sent_texts(c) =~= seq![text]);
    assert(reacted_emojis(c) =~= Seq::<char>::empty());
    assert(sent_texts(c.take(2)) =~= Seq::<String>::empty());
}

proof fn lemma_action_texts(a: Action, message: usize)
    ensures
        sent_texts(action_commands(a, message)) == action_texts(a),
        reacted_emojis(action_commands(a, message)) == action_emojis(a),
{
    match a {
        Action::Wait(ms) => {
            lemma_single(Command::Sleep(ms));
            assert(action_commands(a, message) =~= seq![Command::Sleep(ms)]);
            assert(action_texts(a) =~= Seq::<String>::empty());
            assert(action_emojis(a) =~= Seq::<char>::empty());
        },
        Action::Send(text) => {
            lemma_send_commands_texts(text);
        },
        Action::SendAndReact(text, emoji) => {
            lemma_send_commands_texts(text);
            let r = Command::React { message, emoji };
            lemma_single(r);
            assert(send_commands(text).push(r) =~= send_commands(text) + seq![r]);
            lemma_sent_texts_concat(send_commands(text), seq![r]);
            assert(sent_texts(action_commands(a, message)) =~= seq![text]);
            assert(reacted_emojis(action_commands(a, message)) =~= seq![emoji]);
        },
    }
}

/// A reaction in the commands of one action comes two commands after its
/// send, and follows exactly one message of that action.
proof fn lemma_action_react(a: Action, message: usize, i: int)
    requires
        0 <= i < action_commands(a, message).len(),
        action_commands(a, message)[i] is React,
    ensures
        i == 4,
        action_commands(a, message)[2] is Send,
        sent_texts(action_commands(a, message).take(4)).len() == 1,
        action_commands(a, message)[i] == (Command::React { message, emoji: action_emojis(a)[0] }),
{
    match a {
        Action::Wait(ms) => {
            assert(action_commands(a, message) =~= seq![Command::Sleep(ms)]);
        },
        Action::Send(text) => {},
        Action::SendAndReact(text, emoji) => {
            lemma_send_commands_texts(text);
            assert(action_commands(a, message).take(4) =~= send_commands(text));
        },
    }
}

proof fn lemma_sends_bounded(script: Seq<Action>)
    ensures
        sends_in(script) <= script.len(),
        script_texts(script).len() == sends_in(script),
    decreases script.len(),
{
    if script.len() > 0 {
        lemma_sends_bounded(script.drop_last());
    }
}

proof fn lemma_plan_contents(script: Seq<Action>)
    ensures
        sent_texts(plan_of(script)) == script_texts(script),
        reacted_emojis(plan_of(script)) == script_emojis(script),
    decreases script.len(),
{
    if script.len() > 0 {
        let dl = script.drop_last();
        let a = script.last();
        lemma_plan_contents(dl);
        let acts = action_commands(a, sends_in(dl) as usize);
        lemma_sent_texts_concat(plan_of(dl), acts);
        lemma_action_texts(a, sends_in(dl) as usize);
    }
}

proof fn lemma_plan_reactions(script: Seq<Action>, j: int)
    requires
        script.len() <= usize::MAX,
        0 <= j < plan_of(script).len(),
        plan_of(script)[j] is React,
    ensures
        2 <= j,
        plan_of(script)[j - 2] is Send,
        plan_of(script)[j]->message + 1 == sent_texts(plan_of(script).take(j)).len(),
    decreases script.len(),
{
    let dl = script.drop_last();
    let a = script.last();
    let p = plan_of(dl);
    let k = sends_in(dl);
    let acts = action_commands(a, k as usize);
    let plan = plan_of(script);
    assert(plan == p + acts);
    if j < p.len() {
        assert(plan.take(j) =~= p.take(j));
        assert(p[j] == plan[j]);
        lemma_plan_reactions(dl, j);
        assert(plan[j - 2] == p[j - 2]);
    } else {
        let i = j - p.len();
        assert(acts[i] == plan[j]);
        lemma_action_react(a, k as usize, i);
        assert(plan.take(j) =~= p + acts.take(4));
        lemma_sent_texts_concat(p, acts.take(4));
        lemma_plan_contents(dl);
        lemma_sends_bounded(dl);
        assert(plan[j - 2] == acts[2]);
    }
}

/// The messages that the plan of a script sends are the texts of its sending
/// actions, in the order of the script; its reactions are the emojis of its
/// reacting actions, in order; and each reaction comes two commands after a
/// send, and is attached to the message that send produced (the last one sent
/// before it), never to an earlier one.
pub proof fn lemma_plan_messages(script: Seq<Action>)
    requires
        script.len() <= usize::MAX,
    ensures
        sent_texts(plan_of(script)) == script_texts(script),
        reacted_emojis(plan_of(script)) == script_emojis(script),
        forall|j: int|
            0 <= j < plan_of(script).len() && (#[trigger] plan_of(script)[j] is React) ==> 2 <= j
                && plan_of(script)[j - 2] is Send && plan_of(script)[j]->message + 1 == sent_texts(
                plan_of(script).take(j),
            ).len(),
{
    lemma_plan_contents(script);
    assert forall|j: int|
        0 <= j < plan_of(script).len() && (#[trigger] plan_of(script)[j] is React) implies 2 <= j
            && plan_of(script)[j - 2] is Send && plan_of(script)[j]->message + 1 == sent_texts(
            plan_of(script).take(j),
        ).len() by {
        lemma_plan_reactions(script, j);
    }
}

/// The plan of a prefix of a script is a prefix of the script's plan, and
/// the plan grows by the commands of one action at a time.
pub proof fn lemma_plan_prefix(script: Seq<Action>, m: int)
    requires
        0 <= m <= script.len(),
    ensures
        plan_of(script.take(m)).len() <= plan_of(script).len(),
        plan_of(script.take(m)) == plan_of(script).take(plan_of(script.take(m)).len() as int),
        m < script.len() ==> plan_of(script.take(m + 1)) == plan_of(script.take(m)) + action_commands(
            script[m],
            sends_in(script.take(m)) as usize,
        ),
    decreases script.len(),
{
    if m < script.len() {
        assert(script.take(m + 1).drop_last() =~= script.take(m));
        let dl = script.drop_last();
        assert(dl.take(m) =~= script.take(m));
        lemma_plan_prefix(dl, m);
        assert(plan_of(script.take(m)) =~= plan_of(script).take(plan_of(script.take(m)).len() as int));
    } else {
        assert(script.take(m) =~= script);
    }
}

/// If the send of the action at `k` fails, while every send and reaction
/// before it succeeded, the run is finished with `SendFailed` right after that
/// send: every command it performed belongs to the actions up to `k`, and no
/// later action executes.
pub proof fn lemma_send_failure_ends_run(script: Seq<Action>, k: int, outcomes: Seq<bool>)
    requires
        0 <= k < script.len(),
        is_send(script[k]),
        send_position(script, k) < outcomes.len(),
        accepted_until(plan_of(script), outcomes, send_position(script, k)),
        !outcomes[send_position(script, k)],
    ensures
        plan_of(script)[send_position(script, k)] is Send,
        send_position(script, k) < plan_of(script.take(k + 1)).len(),
        plan_of(script.take(k + 1)) == plan_of(script).take(plan_of(script.take(k + 1)).len() as int),
        forall|i: int|
            0 <= i <= send_position(script, k) ==> #[trigger] trace(RunState::start(script), outcomes)[i]
                == Step::Perform(plan_of(script)[i]),
        forall|i: int|
            send_position(script, k) < i <= outcomes.len() ==> #[trigger] trace(
                RunState::start(script),
                outcomes,
            )[i] == Step::Finish(Err(SequenceError::SendFailed)),
{
    lemma_plan_prefix(script, k);
    lemma_plan_prefix(script, k + 1);
    let j = send_position(script, k);
    let whole = plan_of(script);
    let upto = plan_of(script.take(k + 1));
    assert(upto[j] == whole[j]);
    assert(upto[j] is Send);
    lemma_run_fails_at(RunState::start(script), outcomes, j);
}

/// If the action at `k` sends and reacts, its send succeeds and its reaction
/// fails, while every send and reaction before succeeded, the run is finished
/// with `ReactionFailed` right after that reaction, and no later action
/// executes.
pub proof fn lemma_reaction_failure_ends_run(script: Seq<Action>, k: int, outcomes: Seq<bool>)
    requires
        0 <= k < script.len(),
        script[k] is SendAndReact,
        react_position(script, k) < outcomes.len(),
        accepted_until(plan_of(script), outcomes, react_position(script, k)),
        !outcomes[react_position(script, k)],
    ensures
        plan_of(script)[react_position(script, k)] is React,
        react_position(script, k) + 1 == plan_of(script.take(k + 1)).len(),
        plan_of(script.take(k + 1)) == plan_of(script).take(plan_of(script.take(k + 1)).len() as int),
        forall|i: int|
            0 <= i <= react_position(script, k) ==> #[trigger] trace(RunState::start(script), outcomes)[i]
                == Step::Perform(plan_of(script)[i]),
        forall|i: int|
            react_position(script, k) < i <= outcomes.len() ==> #[trigger] trace(
                RunState::start(script),
                outcomes,
            )[i] == Step::Finish(Err(SequenceError::ReactionFailed)),
{
    lemma_plan_prefix(script, k);
    lemma_plan_prefix(script, k + 1);
    let j = react_position(script, k);
    let whole = plan_of(script);
    let upto = plan_of(script.take(k + 1));
    assert(upto[j] == whole[j]);
    assert(upto[j] is React);
    lemma_run_fails_at(RunState::start(script), outcomes, j);
}

/// A run of a script in which every send and reaction succeeds (sleeping and
/// the typing indicator may fail) performs the commands of every action, in
/// the order of the script, and then finishes with success. It sends one
/// message per sending action, with that action's text, in order, and reacts
/// once per reacting action, to the message that same action sent.
pub proof fn lemma_script_run_succeeds(script: Seq<Action>, outcomes: Seq<bool>)
    requires
        script.len() <= usize::MAX,
        outcomes.len() >= plan_of(script).len(),
        accepted_until(plan_of(script), outcomes, plan_of(script).len() as int),
    ensures
        forall|i: int|
            0 <= i < plan_of(script).len() ==> #[trigger] trace(RunState::start(script), outcomes)[i]
                == Step::Perform(plan_of(script)[i]),
        forall|i: int|
            plan_of(script).len() <= i <= outcomes.len() ==> #[trigger] trace(
                RunState::start(script),
                outcomes,
            )[i] == Step::Finish(Ok(())),
        sent_texts(plan_of(script)) == script_texts(script),
        script_texts(script).len() == sends_in(script),
        reacted_emojis(plan_of(script)) == script_emojis(script),
        forall|j: int|
            0 <= j < plan_of(script).len() && (#[trigger] plan_of(script)[j] is React) ==> 2 <= j
                && plan_of(script)[j - 2] is Send && plan_of(script)[j]->message + 1 == sent_texts(
                plan_of(script).take(j),
            ).len(),
{
    lemma_run_succeeds(RunState::start(script), outcomes);
    lemma_plan_messages(script);
    lemma_sends_bounded(script);
}

} // verus!
