//! The picker: a list of items, a cursor on one of them, and what the keys
//! do.

use crate::text::views;
use vstd::prelude::*;
use vstd::string::StringExecFns;

verus! {

/// The code of a key, as far as the picker tells keys apart.
#[derive(Clone, Copy, Debug, PartialEq, Eq, Structural)]
pub enum Key {
    Char(char),
    Esc,
    Enter,
    Up,
    Down,
    Other,
}

/// What happened to a key.
#[derive(Clone, Copy, Debug, PartialEq, Eq, Structural)]
pub enum KeyKind {
    Press,
    Repeat,
    Release,
}

/// One event of the terminal.
#[derive(Clone, Copy, Debug, PartialEq, Eq, Structural)]
pub enum Input {
    Key { code: Key, kind: KeyKind },
    Other,
}

/// What can be done with the item under the cursor.
#[derive(Clone, Copy, Debug, PartialEq, Eq, Structural)]
pub enum Action {
    Open,
    Copy,
}

/// What a key asks of the picker.
#[derive(Clone, Copy, Debug, PartialEq, Eq, Structural)]
pub enum Command {
    Quit,
    Next,
    Prev,
    Commit(Action),
    Nothing,
}

/// What the picker answers to an input.
#[derive(Clone, Copy, Debug, PartialEq, Eq, Structural)]
pub enum Reply {
    /// Go on: draw again and wait for the next input.
    Stay,
    /// End the session; nothing is to be done.
    Quit,
    /// Do this with the item under the cursor, then end the session.
    Run(Action),
}

/// A step of the cursor.
#[derive(Clone, Copy, Debug, PartialEq, Eq, Structural)]
pub enum Move {
    Prev,
    Next,
}

/// The program that opens a URL.
pub const OPENER: &'static str = "open";

/// The program that takes what it reads into the clipboard.
pub const CLIPBOARD: &'static str = "pbcopy";

/// A program to run: its name, its arguments, and what to write to its
/// standard input before closing it, if anything.
#[derive(Debug, PartialEq, Eq)]
pub struct Invocation {
    pub program: String,
    pub args: Vec<String>,
    pub input: Option<String>,
}

/// An invocation as the contracts see it.
pub struct InvocationView {
    pub program: Seq<char>,
    pub args: Seq<Seq<char>>,
    pub input: Option<Seq<char>>,
}

impl View for Invocation {
    type V = InvocationView;

    open spec fn view(&self) -> InvocationView {
        InvocationView {
            program: self.program@,
            args: views(self.args@),
            input: match self.input {
                Some(s) => Some(s@),
                None => None,
            },
        }
    }
}

/// How `action` is done with `url`: the opener gets the URL as its one
/// argument; the clipboard program gets no argument and reads the URL and a
/// line feed.
pub open spec fn invocation_for(action: Action, url: Seq<char>) -> InvocationView {
    match action {
        Action::Open => InvocationView { program: OPENER@, args: seq![url], input: None },
        Action::Copy => InvocationView {
            program: CLIPBOARD@,
            args: Seq::empty(),
            input: Some(url.push('\n')),
        },
    }
}

/// The words that say which action failed.
pub open spec fn failure_words(action: Action) -> Seq<char> {
    match action {
        Action::Open => "failed to open the URL"@,
        Action::Copy => "failed to copy the URL"@,
    }
}

/// The command bound to an input. Only a key that is pressed has one.
pub open spec fn command_of(input: Input) -> Command {
    match input {
        Input::Key { code, kind: KeyKind::Press } => match code {
            Key::Esc => Command::Quit,
            Key::Down => Command::Next,
            Key::Up => Command::Prev,
            Key::Enter => Command::Commit(Action::Open),
            Key::Char(c) => if c == 'q' {
                Command::Quit
            } else if c == 'j' {
                Command::Next
            } else if c == 'k' {
                Command::Prev
            } else if c == 'o' {
                Command::Commit(Action::Open)
            } else if c == 'c' {
                Command::Commit(Action::Copy)
            } else {
                Command::Nothing
            },
            Key::Other => Command::Nothing,
        },
        _ => Command::Nothing,
    }
}

/// The cursor of a new picker over `n` items: on the first, if there is one.
pub open spec fn first_cursor(n: nat) -> Option<nat> {
    if n > 0 {
        Some(0)
    } else {
        None
    }
}

/// A cursor that fits a list of `n` items: on one of them, or on none where
/// there is none.
pub open spec fn cursor_fits(cursor: Option<nat>, n: nat) -> bool {
    match cursor {
        Some(i) => i < n,
        None => n == 0,
    }
}

/// The cursor after a step towards the end of a list of `n` items. On the
/// last item it stays.
pub open spec fn after_next(cursor: Option<nat>, n: nat) -> Option<nat> {
    match cursor {
        Some(i) => if i + 1 < n {
            Some(i + 1)
        } else {
            Some(i)
        },
        None => None,
    }
}

/// The cursor after a step towards the start of the list. On the first item
/// it stays.
pub open spec fn after_prev(cursor: Option<nat>) -> Option<nat> {
    match cursor {
        Some(i) => if i > 0 {
            Some((i - 1) as nat)
        } else {
            Some(i)
        },
        None => None,
    }
}

pub open spec fn after_move(cursor: Option<nat>, n: nat, m: Move) -> Option<nat> {
    match m {
        Move::Prev => after_prev(cursor),
        Move::Next => after_next(cursor, n),
    }
}

/// The cursor after `moves`, taken in order.
pub open spec fn after_moves(cursor: Option<nat>, n: nat, moves: Seq<Move>) -> Option<nat>
    decreases moves.len(),
{
    if moves.len() == 0 {
        cursor
    } else {
        after_move(after_moves(cursor, n, moves.drop_last()), n, moves.last())
    }
}

/// The cursor after a command.
pub open spec fn cursor_after(cursor: Option<nat>, n: nat, command: Command) -> Option<nat> {
    match command {
        Command::Next => after_next(cursor, n),
        Command::Prev => after_prev(cursor),
        _ => cursor,
    }
}

/// The answer to a command. A commit with the cursor on no item asks for
/// nothing.
pub open spec fn reply_to(cursor: Option<nat>, command: Command) -> Reply {
    match command {
        Command::Quit => Reply::Quit,
        Command::Commit(action) => if cursor is Some {
            Reply::Run(action)
        } else {
            Reply::Stay
        },
        _ => Reply::Stay,
    }
}

pub open spec fn index_view(index: Option<usize>) -> Option<nat> {
    match index {
        Some(i) => Some(i as nat),
        None => None,
    }
}

/// A picker as the contracts see it.
pub struct AppView {
    pub items: Seq<Seq<char>>,
    pub cursor: Option<nat>,
}

impl AppView {
    pub open spec fn wf(self) -> bool {
        cursor_fits(self.cursor, self.items.len())
    }

    /// The item under the cursor.
    pub open spec fn current(self) -> Option<Seq<char>> {
        match self.cursor {
            Some(i) => Some(self.items[i as int]),
            None => None,
        }
    }
}

/// The picker: the items, and the cursor on one of them.
pub struct App {
    items: Vec<String>,
    selected: Option<usize>,
}

impl View for App {
    type V = AppView;

    closed spec fn view(&self) -> AppView {
        AppView { items: views(self.items@), cursor: index_view(self.selected) }
    }
}

/// Reads the command bound to `input`.
pub fn read_command(input: Input) -> (command: Command)
    ensures
        command == command_of(input),
    no_unwind
{
    match input {
        Input::Key { code, kind: KeyKind::Press } => match code {
            Key::Esc => Command::Quit,
            Key::Down => Command::Next,
            Key::Up => Command::Prev,
            Key::Enter => Command::Commit(Action::Open),
            Key::Char(c) => {
                if c == 'q' {
                    Command::Quit
                } else if c == 'j' {
                    Command::Next
                } else if c == 'k' {
                    Command::Prev
                } else if c == 'o' {
                    Command::Commit(Action::Open)
                } else if c == 'c' {
                    Command::Commit(Action::Copy)
                } else {
                    Command::Nothing
                }
            },
            Key::Other => Command::Nothing,
        },
        _ => Command::Nothing,
    }
}

impl Action {
    /// The words that say that this action failed.
    pub fn context(&self) -> (words: &'static str)
        ensures
            words@ == failure_words(*self),
    {
        match self {
            Action::Open => "failed to open the URL",
            Action::Copy => "failed to copy the URL",
        }
    }
}

/// Says how to do `action` with `url`.
pub fn invocation(action: Action, url: &String) -> (inv: Invocation)
    ensures
        inv@ == invocation_for(action, url@),
{
    match action {
        Action::Open => {
            let mut args: Vec<String> = Vec::new();
            args.push(url.clone());
            assert(views(args@) =~= seq![url@]);
            Invocation { program: String::from_str(OPENER), args, input: None }
        },
        Action::Copy => {
            let args: Vec<String> = Vec::new();
            assert(views(args@) =~= Seq::empty());
            let line = url.clone().concat("\n");
            proof {
                reveal_strlit("\n");
                assert(line@ =~= url@.push('\n'));
            }
            Invocation { program: String::from_str(CLIPBOARD), args, input: Some(line) }
        },
    }
}

impl App {
    /// The cursor is on an item, or on none where there is none.
    #[verifier::type_invariant]
    pub open spec fn inv(self) -> bool {
        self@.wf()
    }

    /// A picker over `items`, with the cursor on the first of them.
    pub fn new(items: Vec<String>) -> (app: App)
        ensures
            app@.items == views(items@),
            app@.cursor == first_cursor(items@.len()),
    {
        let selected = if items.len() > 0 {
            Some(0)
        } else {
            None
        };
        App { items, selected }
    }

    /// The items.
    pub fn items(&self) -> (items: &Vec<String>)
        ensures
            views(items@) == self@.items,
    {
        &self.items
    }

    /// The index of the item under the cursor.
    pub fn selected(&self) -> (index: Option<usize>)
        ensures
            index_view(index) == self@.cursor,
            self@.wf(),
    {
        proof {
            use_type_invariant(self);
        }
        self.selected
    }

    /// The item under the cursor.
    pub fn current(&self) -> (item: Option<&String>)
        ensures
            self@.wf(),
            match item {
                Some(s) => self@.current() == Some(s@),
                None => self@.current() is None,
            },
    {
        proof {
            use_type_invariant(self);
        }
        match self.selected {
            Some(i) => Some(&self.items[i]),
            None => None,
        }
    }

    /// How to do `action` with the item under the cursor; `None` where the
    /// cursor is on no item.
    pub fn commit(&self, action: Action) -> (inv: Option<Invocation>)
        ensures
            match self@.current() {
                Some(url) => inv matches Some(i) && i@ == invocation_for(action, url),
                None => inv is None,
            },
    {
        match self.current() {
            Some(url) => Some(invocation(action, url)),
            None => None,
        }
    }

    /// How to open the item under the cursor.
    pub fn select(&self) -> (inv: Option<Invocation>)
        ensures
            match self@.current() {
                Some(url) => inv matches Some(i) && i@ == invocation_for(Action::Open, url),
                None => inv is None,
            },
    {
        self.commit(Action::Open)
    }

    /// How to copy the item under the cursor to the clipboard.
    pub fn copy(&self) -> (inv: Option<Invocation>)
        ensures
            match self@.current() {
                Some(url) => inv matches Some(i) && i@ == invocation_for(Action::Copy, url),
                None => inv is None,
            },
    {
        self.commit(Action::Copy)
    }

    /// Moves the cursor to the item before, unless it is on the first.
    pub fn prev(&mut self)
        ensures
            final(self)@.items == old(self)@.items,
            final(self)@.cursor == after_prev(old(self)@.cursor),
        no_unwind
    {
        proof {
            use_type_invariant(&*self);
        }
        match self.selected {
            Some(i) => {
                if i > 0 {
                    self.selected = Some(i - 1);
                }
            },
            None => {},
        }
    }

    /// Moves the cursor to the item after, unless it is on the last.
    pub fn next(&mut self)
        ensures
            final(self)@.items == old(self)@.items,
            final(self)@.cursor == after_next(old(self)@.cursor, old(self)@.items.len()),
        no_unwind
    {
        proof {
            use_type_invariant(&*self);
        }
        let n = self.items.len();
        match self.selected {
            Some(i) => {
                if i + 1 < n {
                    self.selected = Some(i + 1);
                }
            },
            None => {},
        }
    }

    /// Takes one input: moves the cursor if the input asks for it, and says
    /// how the session goes on.
    pub fn on_input(&mut self, input: Input) -> (reply: Reply)
        ensures
            final(self)@.items == old(self)@.items,
            final(self)@.cursor == cursor_after(
                old(self)@.cursor,
                old(self)@.items.len(),
                command_of(input),
            ),
            reply == reply_to(old(self)@.cursor, command_of(input)),
        no_unwind
    {
        match read_command(input) {
            Command::Quit => Reply::Quit,
            Command::Next => {
                self.next();
                Reply::Stay
            },
            Command::Prev => {
                self.prev();
                Reply::Stay
            },
            Command::Commit(action) => {
                match self.selected {
                    Some(_) => Reply::Run(action),
                    None => Reply::Stay,
                }
            },
            Command::Nothing => Reply::Stay,
        }
    }
}

/// However the cursor of a new picker is moved, it stays on an item of the
/// list, and on none where the list is empty.
pub proof fn lemma_cursor_stays_in_list(n: nat, moves: Seq<Move>)
    ensures
        cursor_fits(after_moves(first_cursor(n), n, moves), n),
        n == 0 ==> after_moves(first_cursor(n), n, moves) is None,
        n > 0 ==> after_moves(first_cursor(n), n, moves) is Some,
    decreases moves.len(),
{
    if moves.len() > 0 {
        lemma_cursor_stays_in_list(n, moves.drop_last());
    }
}

/// A move keeps a cursor that fits the list fitting it.
pub proof fn lemma_move_keeps_cursor(cursor: Option<nat>, n: nat, m: Move)
    requires
        cursor_fits(cursor, n),
    ensures
        cursor_fits(after_move(cursor, n, m), n),
{
}

/// At either end of the list the cursor does not wrap around: a step back
/// from the first item and a step on from the last leave it where it is.
pub proof fn lemma_no_wraparound(n: nat)
    requires
        n > 0,
    ensures
        after_prev(Some(0nat)) == Some(0nat),
        after_next(Some((n - 1) as nat), n) == Some((n - 1) as nat),
{
}

} // verus!
