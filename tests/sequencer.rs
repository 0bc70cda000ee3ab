use gather_bot::gather::{gather_script, SLEEPY};
use gather_bot::sequencer::{plan, script_is_timeable, Action, Command, SequenceError, Sequencer, Step};
use gather_bot::typing::{is_timeable, typing_delay_ms, MS_PER_CHAR};

/// What a fake channel saw during one run.
struct Record {
    messages: Vec<String>,
    reactions: Vec<(usize, char)>,
    slept_ms: u64,
    typing_started: usize,
    result: Result<(), SequenceError>,
}

/// Drives a sequencer against an in-memory channel. `send_ok(i)` decides
/// whether the i-th send attempt succeeds; reactions and the typing
/// indicator succeed as the flags say.
fn drive(script: &Vec<Action>, send_ok: impl Fn(usize) -> bool, react_ok: bool, typing_ok: bool) -> Record {
    let mut seq = Sequencer::new(script);
    let mut rec = Record {
        messages: Vec::new(),
        reactions: Vec::new(),
        slept_ms: 0,
        typing_started: 0,
        result: Ok(()),
    };
    let mut attempts = 0usize;
    let mut typing = false;
    loop {
        match seq.next_step() {
            Step::Perform(Command::Sleep(ms)) => {
                rec.slept_ms += ms;
                seq.report(true);
            }
            Step::Perform(Command::StartTyping) => {
                typing = typing_ok;
                if typing_ok {
                    rec.typing_started += 1;
                }
                seq.report(typing_ok);
            }
            Step::Perform(Command::Send(text)) => {
                let ok = send_ok(attempts);
                attempts += 1;
                if ok {
                    rec.messages.push(text);
                }
                seq.report(ok);
            }
            Step::Perform(Command::StopTyping) => {
                let was = typing;
                typing = false;
                seq.report(was);
            }
            Step::Perform(Command::React { message, emoji }) => {
                assert!(message < rec.messages.len());
                if react_ok {
                    rec.reactions.push((message, emoji));
                }
                seq.report(react_ok);
            }
            Step::Finish(result) => {
                rec.result = result;
                return rec;
            }
        }
    }
}

fn texts(v: &[&str]) -> Vec<String> {
    v.iter().map(|s| s.to_string()).collect()
}

const GATHER_TEXTS: [&str; 5] = [
    "Hey!",
    "What's going on here?",
    "Why is @everyone asleep!?!?",
    "Come on come one! Wake up!",
    "It's Time to Game!",
];

#[test]
fn typing_delay_is_length_times_constant() {
    assert_eq!(MS_PER_CHAR, 100);
    assert_eq!(typing_delay_ms(""), 0);
    assert_eq!(typing_delay_ms("Hey!"), 400);
    assert_eq!(typing_delay_ms("What's going on here?"), 2100);
    // length is counted in characters, however many bytes each takes
    assert_eq!(typing_delay_ms("é"), 100);
    assert_eq!(typing_delay_ms("a"), 100);
    assert_eq!(typing_delay_ms("\u{1F634}"), 100);
    assert_eq!(typing_delay_ms("né😴"), 300);
}

#[test]
fn typing_delay_grows_with_length() {
    let mut last = 0u64;
    let mut text = String::new();
    for _ in 0..50 {
        let d = typing_delay_ms(&text);
        assert!(d >= last);
        assert_eq!(d, text.chars().count() as u64 * 100);
        last = d;
        text.push(if text.len() % 3 == 0 { 'é' } else { 'a' });
    }
}

#[test]
fn ordinary_texts_are_timeable() {
    assert!(is_timeable(""));
    assert!(is_timeable("It's Time to Game!"));
    assert!(script_is_timeable(&gather_script()));
}

#[test]
fn gather_script_has_expected_actions() {
    let s = gather_script();
    assert_eq!(s.len(), 10);
    assert!(matches!(s[0], Action::Wait(1000)));
    assert!(matches!(&s[5], Action::SendAndReact(t, e) if t == "Why is @everyone asleep!?!?" && *e == '😴'));
    assert_eq!(SLEEPY, '😴');
    assert!(matches!(s[6], Action::Wait(2000)));
    assert!(matches!(s[8], Action::Wait(500)));
}

#[test]
fn plan_sleeps_per_character_before_a_send() {
    let p = plan(&vec![Action::Send("é".to_string())]);
    assert_eq!(p[1], Command::Sleep(100));
}

#[test]
fn plan_expands_each_action_in_order() {
    let script = vec![
        Action::Wait(7),
        Action::SendAndReact("ab".to_string(), 'x'),
        Action::Send("c".to_string()),
    ];
    let p = plan(&script);
    assert_eq!(
        p,
        vec![
            Command::Sleep(7),
            Command::StartTyping,
            Command::Sleep(200),
            Command::Send("ab".to_string()),
            Command::StopTyping,
            Command::React { message: 0, emoji: 'x' },
            Command::StartTyping,
            Command::Sleep(100),
            Command::Send("c".to_string()),
            Command::StopTyping,
        ]
    );
}

#[test]
fn gather_run_succeeds_end_to_end() {
    let rec = drive(&gather_script(), |_| true, true, true);
    assert_eq!(rec.result, Ok(()));
    assert_eq!(rec.messages, texts(&GATHER_TEXTS));
    assert_eq!(rec.reactions, vec![(2, '😴')]);
    let typed: u64 = GATHER_TEXTS.iter().map(|t| t.chars().count() as u64 * 100).sum();
    assert!(rec.slept_ms >= 5500);
    assert_eq!(rec.slept_ms, 5500 + typed);
    assert_eq!(rec.typing_started, 5);
}

#[test]
fn gather_run_stops_when_reaction_fails() {
    let rec = drive(&gather_script(), |_| true, false, true);
    assert_eq!(rec.result, Err(SequenceError::ReactionFailed));
    assert_eq!(rec.messages, texts(&GATHER_TEXTS[..3]));
    assert!(rec.reactions.is_empty());
}

#[test]
fn failed_send_stops_the_run() {
    // the second send fails: nothing after it is sent or reacted to
    let rec = drive(&gather_script(), |i| i != 1, true, true);
    assert_eq!(rec.result, Err(SequenceError::SendFailed));
    assert_eq!(rec.messages, texts(&GATHER_TEXTS[..1]));
    assert!(rec.reactions.is_empty());
    assert_eq!(rec.typing_started, 2);
}

#[test]
fn failed_send_of_reacting_action_gives_send_failed() {
    let rec = drive(&gather_script(), |i| i != 2, true, true);
    assert_eq!(rec.result, Err(SequenceError::SendFailed));
    assert_eq!(rec.messages, texts(&GATHER_TEXTS[..2]));
    assert!(rec.reactions.is_empty());
}

#[test]
fn typing_failures_do_not_matter() {
    let rec = drive(&gather_script(), |_| true, true, false);
    assert_eq!(rec.result, Ok(()));
    assert_eq!(rec.messages, texts(&GATHER_TEXTS));
    assert_eq!(rec.reactions, vec![(2, '😴')]);
    assert_eq!(rec.typing_started, 0);
}

#[test]
fn reactions_go_to_the_message_of_their_own_action() {
    let script = vec![
        Action::Send("a".to_string()),
        Action::SendAndReact("b".to_string(), '1'),
        Action::Wait(3),
        Action::Send("c".to_string()),
        Action::SendAndReact("d".to_string(), '2'),
    ];
    let rec = drive(&script, |_| true, true, true);
    assert_eq!(rec.result, Ok(()));
    assert_eq!(rec.messages, texts(&["a", "b", "c", "d"]));
    assert_eq!(rec.reactions, vec![(1, '1'), (3, '2')]);
}

#[test]
fn empty_script_finishes_at_once() {
    let seq = Sequencer::new(&Vec::new());
    assert_eq!(seq.next_step(), Step::Finish(Ok(())));
}

#[test]
fn finished_run_ignores_further_reports() {
    let script = vec![Action::Send("x".to_string()), Action::Send("y".to_string())];
    let mut seq = Sequencer::new(&script);
    assert_eq!(seq.next_step(), Step::Perform(Command::StartTyping));
    seq.report(true);
    assert_eq!(seq.next_step(), Step::Perform(Command::Sleep(100)));
    seq.report(true);
    assert_eq!(seq.next_step(), Step::Perform(Command::Send("x".to_string())));
    seq.report(false);
    assert_eq!(seq.next_step(), Step::Finish(Err(SequenceError::SendFailed)));
    seq.report(true);
    assert_eq!(seq.next_step(), Step::Finish(Err(SequenceError::SendFailed)));
}

#[test]
fn failed_sleep_is_not_fatal() {
    let script = vec![Action::Wait(5), Action::Send("x".to_string())];
    let mut seq = Sequencer::new(&script);
    assert_eq!(seq.next_step(), Step::Perform(Command::Sleep(5)));
    seq.report(false);
    assert_eq!(seq.next_step(), Step::Perform(Command::StartTyping));
}

#[test]
fn error_messages() {
    assert_eq!(SequenceError::SendFailed.message(), "Unable to send message in channel");
    assert_eq!(SequenceError::ReactionFailed.message(), "Failed to react to message");
}

#[test]
fn actions_and_commands_clone_equal() {
    let a = Action::SendAndReact("hi".to_string(), 'z');
    assert!(matches!(a.clone(), Action::SendAndReact(t, 'z') if t == "hi"));
    let c = Command::React { message: 3, emoji: 'q' };
    assert_eq!(c.clone(), c);
}
