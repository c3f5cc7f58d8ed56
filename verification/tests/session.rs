use url_picker::picker::{Action, Input, Invocation, Key, KeyKind};
use url_picker::session::{Event, Failure, Session, Step};

fn strings(items: &[&str]) -> Vec<String> {
    items.iter().map(|s| s.to_string()).collect()
}

fn press(code: Key) -> Event {
    Event::Input(Input::Key { code, kind: KeyKind::Press })
}

fn session() -> Session {
    Session::new(strings(&["http://a.com", "http://b.org"]))
}

/// Reports `events` one after the other and hands back the steps that were
/// pending when each was reported, and the step pending at the end.
fn drive(session: &mut Session, events: &[Event]) -> (Vec<Step>, Step) {
    let mut performed = Vec::new();
    for event in events {
        performed.push(session.pending());
        session.report(*event);
    }
    (performed, session.pending())
}

fn count(steps: &[Step], step: &Step) -> usize {
    steps.iter().filter(|s| *s == step).count()
}

#[test]
fn a_session_begins_by_taking_the_terminal() {
    let session = session();
    assert_eq!(session.pending(), Step::Enter);
    assert_eq!(session.app().selected(), Some(0));
}

#[test]
fn quitting_gives_the_terminal_back_and_ends_well() {
    let mut s = session();
    let (performed, last) = drive(
        &mut s,
        &[Event::Done, Event::Done, press(Key::Char('q')), Event::Done],
    );
    assert_eq!(performed, vec![Step::Enter, Step::Draw, Step::Read, Step::Leave]);
    assert_eq!(last, Step::Finish(Ok(())));
}

#[test]
fn escape_quits_too() {
    let mut s = session();
    let (_, last) = drive(&mut s, &[Event::Done, Event::Done, press(Key::Esc)]);
    assert_eq!(last, Step::Leave);
}

#[test]
fn every_input_is_followed_by_a_redraw() {
    let mut s = session();
    let (performed, last) = drive(
        &mut s,
        &[
            Event::Done,
            Event::Done,
            press(Key::Char('j')),
            Event::Done,
            Event::Input(Input::Other),
            Event::Done,
            Event::Input(Input::Key { code: Key::Char('q'), kind: KeyKind::Release }),
            Event::Done,
        ],
    );
    assert_eq!(
        performed,
        vec![
            Step::Enter,
            Step::Draw,
            Step::Read,
            Step::Draw,
            Step::Read,
            Step::Draw,
            Step::Read,
            Step::Draw
        ]
    );
    assert_eq!(last, Step::Read);
    assert_eq!(s.app().selected(), Some(1));
}

#[test]
fn open_runs_on_the_item_under_the_cursor_and_then_leaves() {
    let mut s = session();
    let (_, run) = drive(
        &mut s,
        &[Event::Done, Event::Done, press(Key::Down), Event::Done, press(Key::Enter)],
    );
    assert_eq!(
        run,
        Step::Run(Invocation {
            program: "open".to_string(),
            args: strings(&["http://b.org"]),
            input: None,
        })
    );
    let (_, last) = drive(&mut s, &[Event::Done, Event::Done]);
    assert_eq!(last, Step::Finish(Ok(())));
}

#[test]
fn copy_runs_the_clipboard_program() {
    let mut s = session();
    let (_, run) = drive(&mut s, &[Event::Done, Event::Done, press(Key::Char('c'))]);
    assert_eq!(
        run,
        Step::Run(Invocation {
            program: "pbcopy".to_string(),
            args: Vec::new(),
            input: Some("http://a.com\n".to_string()),
        })
    );
}

#[test]
fn a_failed_action_still_gives_the_terminal_back_once() {
    for (key, action) in [
        (Key::Char('o'), Action::Open),
        (Key::Enter, Action::Open),
        (Key::Char('c'), Action::Copy),
    ] {
        let mut s = session();
        let (performed, last) = drive(
            &mut s,
            &[Event::Done, Event::Done, press(key), Event::Failed, Event::Done],
        );
        assert_eq!(count(&performed, &Step::Enter), 1);
        assert_eq!(count(&performed, &Step::Leave), 1);
        assert_eq!(performed[4], Step::Leave);
        assert_eq!(last, Step::Finish(Err(Failure::Action(action))));
        let (after, still) = drive(&mut s, &[Event::Done, Event::Failed]);
        assert_eq!(count(&after, &Step::Leave), 0);
        assert_eq!(still, Step::Finish(Err(Failure::Action(action))));
    }
}

#[test]
fn the_first_failure_is_the_one_returned() {
    let mut s = session();
    let (_, last) = drive(
        &mut s,
        &[Event::Done, Event::Done, press(Key::Char('o')), Event::Failed, Event::Failed],
    );
    assert_eq!(last, Step::Finish(Err(Failure::Action(Action::Open))));
    let mut s = session();
    let (_, last) = drive(&mut s, &[Event::Done, Event::Failed, Event::Failed]);
    assert_eq!(last, Step::Finish(Err(Failure::Loop)));
    let mut s = session();
    let (_, last) = drive(&mut s, &[Event::Failed, Event::Failed]);
    assert_eq!(last, Step::Finish(Err(Failure::Setup)));
}

#[test]
fn a_failed_setup_gives_back_what_was_taken_and_is_returned() {
    let mut s = session();
    let (performed, next) = drive(&mut s, &[Event::Failed]);
    assert_eq!(performed, vec![Step::Enter]);
    assert_eq!(next, Step::Leave);
    let (performed, last) = drive(&mut s, &[Event::Done]);
    assert_eq!(performed, vec![Step::Leave]);
    assert_eq!(last, Step::Finish(Err(Failure::Setup)));
}

#[test]
fn a_failed_draw_or_read_leaves_with_the_loop_failure() {
    let mut s = session();
    let (performed, last) = drive(&mut s, &[Event::Done, Event::Failed, Event::Done]);
    assert_eq!(performed, vec![Step::Enter, Step::Draw, Step::Leave]);
    assert_eq!(last, Step::Finish(Err(Failure::Loop)));
    let mut s = session();
    let (performed, last) = drive(&mut s, &[Event::Done, Event::Done, Event::Failed, Event::Done]);
    assert_eq!(performed, vec![Step::Enter, Step::Draw, Step::Read, Step::Leave]);
    assert_eq!(last, Step::Finish(Err(Failure::Loop)));
}

#[test]
fn a_failed_restore_is_returned_where_nothing_failed_before() {
    let mut s = session();
    let (_, last) = drive(
        &mut s,
        &[Event::Done, Event::Done, press(Key::Char('q')), Event::Failed],
    );
    assert_eq!(last, Step::Finish(Err(Failure::Restore)));
}

#[test]
fn an_empty_session_answers_only_to_quit() {
    let mut s = Session::new(Vec::new());
    let (performed, last) = drive(
        &mut s,
        &[
            Event::Done,
            Event::Done,
            press(Key::Char('o')),
            Event::Done,
            press(Key::Char('c')),
            Event::Done,
            press(Key::Char('j')),
            Event::Done,
            press(Key::Char('k')),
            Event::Done,
            press(Key::Char('q')),
            Event::Done,
        ],
    );
    assert_eq!(count(&performed, &Step::Leave), 1);
    assert_eq!(performed.iter().filter(|s| matches!(s, Step::Run(_))).count(), 0);
    assert_eq!(s.app().selected(), None);
    assert_eq!(last, Step::Finish(Ok(())));
}

#[test]
fn any_run_takes_the_terminal_once_and_gives_it_back_at_most_once() {
    let alphabet = [
        Event::Done,
        Event::Failed,
        press(Key::Char('j')),
        press(Key::Char('o')),
        press(Key::Char('q')),
    ];
    let len = 6;
    let mut script = vec![0usize; len];
    loop {
        let events: Vec<Event> = script.iter().map(|i| alphabet[*i]).collect();
        let mut s = session();
        let (performed, last) = drive(&mut s, &events);
        assert_eq!(count(&performed, &Step::Enter), 1);
        let leaves = count(&performed, &Step::Leave);
        if let Step::Finish(_) = last {
            assert_eq!(leaves, 1);
        } else {
            assert_eq!(leaves, 0);
        }
        let mut i = 0;
        while i < len && script[i] == alphabet.len() - 1 {
            script[i] = 0;
            i += 1;
        }
        if i == len {
            break;
        }
        script[i] += 1;
    }
}

#[test]
fn failures_have_their_words() {
    assert_eq!(Failure::Setup.context(), "setup failed");
    assert_eq!(Failure::Loop.context(), "app loop failed");
    assert_eq!(Failure::Action(Action::Open).context(), "failed to open the URL");
    assert_eq!(Failure::Action(Action::Copy).context(), "failed to copy the URL");
    assert_eq!(Failure::Restore.context(), "restore terminal failed");
}
