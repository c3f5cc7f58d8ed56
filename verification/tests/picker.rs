use url_picker::picker::{
    invocation, read_command, Action, App, Command, Input, Invocation, Key, KeyKind, Reply,
};

fn strings(items: &[&str]) -> Vec<String> {
    items.iter().map(|s| s.to_string()).collect()
}

fn press(code: Key) -> Input {
    Input::Key { code, kind: KeyKind::Press }
}

#[test]
fn a_new_picker_has_the_cursor_on_the_first_item() {
    let app = App::new(strings(&["a", "b", "c"]));
    assert_eq!(app.selected(), Some(0));
    assert_eq!(app.current(), Some(&"a".to_string()));
    assert_eq!(app.items(), &strings(&["a", "b", "c"]));
}

#[test]
fn a_new_picker_over_nothing_has_no_cursor() {
    let app = App::new(Vec::new());
    assert_eq!(app.selected(), None);
    assert_eq!(app.current(), None);
    assert!(app.items().is_empty());
}

#[test]
fn next_and_prev_move_by_one() {
    let mut app = App::new(strings(&["a", "b", "c"]));
    app.next();
    assert_eq!(app.selected(), Some(1));
    app.next();
    assert_eq!(app.selected(), Some(2));
    app.prev();
    assert_eq!(app.selected(), Some(1));
    assert_eq!(app.current(), Some(&"b".to_string()));
}

#[test]
fn prev_on_the_first_item_stays() {
    let mut app = App::new(strings(&["a", "b"]));
    app.prev();
    assert_eq!(app.selected(), Some(0));
}

#[test]
fn next_on_the_last_item_stays() {
    let mut app = App::new(strings(&["a", "b"]));
    app.next();
    app.next();
    app.next();
    assert_eq!(app.selected(), Some(1));
    let mut one = App::new(strings(&["only"]));
    one.next();
    assert_eq!(one.selected(), Some(0));
}

#[test]
fn moves_on_an_empty_picker_select_nothing() {
    let mut app = App::new(Vec::new());
    app.next();
    assert_eq!(app.selected(), None);
    app.prev();
    assert_eq!(app.selected(), None);
    for key in [Key::Char('j'), Key::Char('k'), Key::Down, Key::Up] {
        assert_eq!(app.on_input(press(key)), Reply::Stay);
        assert_eq!(app.selected(), None);
    }
}

#[test]
fn the_cursor_stays_in_the_list_under_any_moves() {
    for n in 0..4usize {
        let items: Vec<String> = (0..n).map(|i| i.to_string()).collect();
        for script in 0..(1u32 << 8) {
            let mut app = App::new(items.clone());
            for bit in 0..8 {
                if script & (1 << bit) != 0 {
                    app.next();
                } else {
                    app.prev();
                }
                match app.selected() {
                    Some(i) => assert!(i < n),
                    None => assert_eq!(n, 0),
                }
            }
        }
    }
}

#[test]
fn keys_have_their_commands() {
    assert_eq!(read_command(press(Key::Char('q'))), Command::Quit);
    assert_eq!(read_command(press(Key::Esc)), Command::Quit);
    assert_eq!(read_command(press(Key::Char('j'))), Command::Next);
    assert_eq!(read_command(press(Key::Down)), Command::Next);
    assert_eq!(read_command(press(Key::Char('k'))), Command::Prev);
    assert_eq!(read_command(press(Key::Up)), Command::Prev);
    assert_eq!(read_command(press(Key::Char('o'))), Command::Commit(Action::Open));
    assert_eq!(read_command(press(Key::Enter)), Command::Commit(Action::Open));
    assert_eq!(read_command(press(Key::Char('c'))), Command::Commit(Action::Copy));
    assert_eq!(read_command(press(Key::Char('x'))), Command::Nothing);
    assert_eq!(read_command(press(Key::Char('Q'))), Command::Nothing);
    assert_eq!(read_command(press(Key::Other)), Command::Nothing);
    assert_eq!(read_command(Input::Other), Command::Nothing);
}

#[test]
fn only_a_pressed_key_has_a_command() {
    for kind in [KeyKind::Repeat, KeyKind::Release] {
        for code in [Key::Char('q'), Key::Esc, Key::Char('j'), Key::Enter, Key::Char('c')] {
            assert_eq!(read_command(Input::Key { code, kind }), Command::Nothing);
        }
    }
}

#[test]
fn inputs_move_the_cursor_and_are_answered() {
    let mut app = App::new(strings(&["a", "b", "c"]));
    assert_eq!(app.on_input(press(Key::Char('j'))), Reply::Stay);
    assert_eq!(app.selected(), Some(1));
    assert_eq!(app.on_input(press(Key::Down)), Reply::Stay);
    assert_eq!(app.selected(), Some(2));
    assert_eq!(app.on_input(press(Key::Char('k'))), Reply::Stay);
    assert_eq!(app.selected(), Some(1));
    assert_eq!(app.on_input(press(Key::Up)), Reply::Stay);
    assert_eq!(app.selected(), Some(0));
    assert_eq!(app.on_input(press(Key::Char('z'))), Reply::Stay);
    assert_eq!(app.on_input(Input::Other), Reply::Stay);
    assert_eq!(app.on_input(Input::Key { code: Key::Char('j'), kind: KeyKind::Release }), Reply::Stay);
    assert_eq!(app.selected(), Some(0));
    assert_eq!(app.on_input(press(Key::Char('o'))), Reply::Run(Action::Open));
    assert_eq!(app.on_input(press(Key::Enter)), Reply::Run(Action::Open));
    assert_eq!(app.on_input(press(Key::Char('c'))), Reply::Run(Action::Copy));
    assert_eq!(app.on_input(press(Key::Char('q'))), Reply::Quit);
    assert_eq!(app.on_input(press(Key::Esc)), Reply::Quit);
    assert_eq!(app.selected(), Some(0));
}

#[test]
fn a_commit_on_an_empty_picker_asks_for_nothing() {
    let mut app = App::new(Vec::new());
    assert_eq!(app.on_input(press(Key::Char('o'))), Reply::Stay);
    assert_eq!(app.on_input(press(Key::Enter)), Reply::Stay);
    assert_eq!(app.on_input(press(Key::Char('c'))), Reply::Stay);
    assert_eq!(app.on_input(press(Key::Char('q'))), Reply::Quit);
    assert_eq!(app.select(), None);
    assert_eq!(app.copy(), None);
}

#[test]
fn open_runs_the_opener_on_the_url() {
    let mut app = App::new(strings(&["http://a.com", "http://b.org"]));
    app.next();
    assert_eq!(
        app.select(),
        Some(Invocation {
            program: "open".to_string(),
            args: strings(&["http://b.org"]),
            input: None,
        })
    );
    assert_eq!(app.commit(Action::Open), app.select());
}

#[test]
fn copy_feeds_the_url_and_a_line_feed_to_the_clipboard_program() {
    let app = App::new(strings(&["http://a.com", "http://b.org"]));
    assert_eq!(
        app.copy(),
        Some(Invocation {
            program: "pbcopy".to_string(),
            args: Vec::new(),
            input: Some("http://a.com\n".to_string()),
        })
    );
    assert_eq!(app.commit(Action::Copy), app.copy());
}

#[test]
fn invocation_is_built_from_action_and_url() {
    let url = "https://x.y/z".to_string();
    let open = invocation(Action::Open, &url);
    assert_eq!(open.program, "open");
    assert_eq!(open.args, vec![url.clone()]);
    assert_eq!(open.input, None);
    let copy = invocation(Action::Copy, &url);
    assert_eq!(copy.program, "pbcopy");
    assert!(copy.args.is_empty());
    assert_eq!(copy.input, Some("https://x.y/z\n".to_string()));
}

#[test]
fn a_failed_action_has_its_words() {
    assert_eq!(Action::Open.context(), "failed to open the URL");
    assert_eq!(Action::Copy.context(), "failed to copy the URL");
}
