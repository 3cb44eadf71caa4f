use vstd::prelude::*;

use crate::bindings::{binds_keys, chord, lemma_fresh_chord, BindingError, Bindings, BindingsView, Rule};
use crate::counter::{ctrl, key};
use crate::key::{KeyCode, KeyEvent, KeyModifiers};
use crate::style::{Colour, Style};

verus! {

/// The styles of a text input: one for its content, one for its cursor.
#[derive(Debug, Clone, Copy, PartialEq, Eq, Structural)]
pub struct InputStyle {
    pub content: Style,
    pub cursor: Style,
}

pub open spec fn dark0_soft() -> Colour {
    Colour { red: 50, green: 48, blue: 47 }
}

pub open spec fn light2() -> Colour {
    Colour { red: 213, green: 196, blue: 161 }
}

pub open spec fn bright_blue() -> Colour {
    Colour { red: 131, green: 165, blue: 152 }
}

impl Default for InputStyle {
    fn default() -> (r: InputStyle)
        ensures
            r.content == (Style { background: dark0_soft(), foreground: light2(), bold: false }),
            r.cursor == (Style { background: bright_blue(), foreground: dark0_soft(), bold: false }),
    {
        let dark0_soft = Colour::rgb(50, 48, 47);
        let light2 = Colour::rgb(213, 196, 161);
        let bright_blue = Colour::rgb(131, 165, 152);
        InputStyle {
            content: Style::normal(dark0_soft, light2),
            cursor: Style::normal(bright_blue, dark0_soft),
        }
    }
}

/// What a text input is told to do.
#[derive(Debug, Clone, Copy, PartialEq, Eq, Structural)]
pub enum Message {
    CursorLeft,
    CursorRight,
    InsertChar(char),
    DeleteBackward,
    DeleteForward,
    StartOfLine,
    EndOfLine,
}

/// The commands a text input binds to keys.
#[derive(Debug, Clone, Copy, PartialEq, Eq, Structural)]
pub enum InputCommand {
    Left,
    Right,
    StartOfLine,
    EndOfLine,
    DeleteForward,
    DeleteBackward,
    InsertCharacter,
}

/// The text input's binding table.
pub open spec fn input_table(v: BindingsView<InputCommand>) -> bool {
    &&& v.commands.len() == 7
    &&& v.commands[0].name@ == "left"@ && v.commands[0].action == InputCommand::Left
    &&& v.commands[1].name@ == "right"@ && v.commands[1].action == InputCommand::Right
    &&& v.commands[2].name@ == "start-of-line"@ && v.commands[2].action == InputCommand::StartOfLine
    &&& v.commands[3].name@ == "end-of-line"@ && v.commands[3].action == InputCommand::EndOfLine
    &&& v.commands[4].name@ == "delete-forward"@ && v.commands[4].action == InputCommand::DeleteForward
    &&& v.commands[5].name@ == "delete-backward"@ && v.commands[5].action == InputCommand::DeleteBackward
    &&& v.commands[6].name@ == "insert-character"@ && v.commands[6].action == InputCommand::InsertCharacter
    &&& v.rules.len() == 12
    &&& binds_keys(v.rules[0], 0, seq![ctrl(KeyCode::Char('b'))])
    &&& binds_keys(v.rules[1], 0, seq![key(KeyCode::Left)])
    &&& binds_keys(v.rules[2], 1, seq![ctrl(KeyCode::Char('f'))])
    &&& binds_keys(v.rules[3], 1, seq![key(KeyCode::Right)])
    &&& binds_keys(v.rules[4], 2, seq![ctrl(KeyCode::Char('a'))])
    &&& binds_keys(v.rules[5], 2, seq![key(KeyCode::Home)])
    &&& binds_keys(v.rules[6], 3, seq![ctrl(KeyCode::Char('e'))])
    &&& binds_keys(v.rules[7], 3, seq![key(KeyCode::End)])
    &&& binds_keys(v.rules[8], 4, seq![ctrl(KeyCode::Char('d'))])
    &&& binds_keys(v.rules[9], 4, seq![key(KeyCode::Delete)])
    &&& binds_keys(v.rules[10], 5, seq![key(KeyCode::Backspace)])
    &&& v.rules[11].command == 6 && v.rules[11].rule is AnyCharacter
}

/// Binds a one-chord rule that no rule of the table holds yet.
fn add_chord(
    bindings: &mut Bindings<InputCommand>,
    name: &str,
    e: KeyEvent,
    action: InputCommand,
) -> (r: usize)
    requires
        old(bindings)@.wf(),
        forall|i: int|
            0 <= i < old(bindings)@.rules.len() ==> #[trigger] old(bindings)@.rules[i].rule is Keys
                && old(bindings)@.rules[i].rule->Keys_0@.len() == 1 && !crate::key::same_key(
                old(bindings)@.rules[i].rule->Keys_0@[0],
                e,
            ),
    ensures
        final(bindings)@.wf(),
        final(bindings)@.focus == old(bindings)@.focus,
        final(bindings)@.pending == old(bindings)@.pending,
        final(bindings)@.has_name(r as int, name@),
        final(bindings)@.rules.len() == old(bindings)@.rules.len() + 1,
        forall|i: int| 0 <= i < old(bindings)@.rules.len() ==> #[trigger] final(bindings)@.rules[i] == old(bindings)@.rules[i],
        binds_keys(final(bindings)@.rules[old(bindings)@.rules.len() as int], r, seq![e]),
        forall|c: int| old(bindings)@.has_name(c, name@) ==> r == c,
        old(bindings)@.has_name(r as int, name@) ==> final(bindings)@.commands == old(bindings)@.commands,
        !old(bindings)@.has_name(r as int, name@) ==> {
            &&& r == old(bindings)@.commands.len()
            &&& final(bindings)@.commands.len() == old(bindings)@.commands.len() + 1
            &&& final(bindings)@.commands.take(r as int) == old(bindings)@.commands
            &&& final(bindings)@.commands[r as int].action == action
        },
{
    let keys = chord(e);
    proof {
        lemma_fresh_chord(old(bindings)@, e, keys);
    }
    let r = bindings.add(name, Rule::Keys(keys), action);
    match r {
        Ok(c) => c,
        Err(_) => {
            assert(false);
            0
        },
    }
}

/// Sets the table's focus, then fills it with the text input's bindings if it is
/// empty; a table that already holds commands keeps them.
pub fn bindings(focused: bool, bindings: &mut Bindings<InputCommand>)
    requires
        old(bindings)@.wf(),
    ensures
        final(bindings)@.wf(),
        final(bindings)@.focus == focused,
        final(bindings)@.pending == old(bindings)@.pending,
        old(bindings)@.commands.len() != 0 ==> final(bindings)@.commands == old(bindings)@.commands
            && final(bindings)@.rules == old(bindings)@.rules,
        old(bindings)@.commands.len() == 0 ==> input_table(final(bindings)@),
{
    bindings.set_focus(focused);
    if !bindings.is_empty() {
        return;
    }
    proof {
        reveal_strlit("left");
        reveal_strlit("right");
        reveal_strlit("start-of-line");
        reveal_strlit("end-of-line");
        reveal_strlit("delete-forward");
        reveal_strlit("delete-backward");
        reveal_strlit("insert-character");
    }
    assert(old(bindings)@.rules.len() == 0) by {
        if old(bindings)@.rules.len() > 0 {
            assert(old(bindings)@.rules[0].command < old(bindings)@.commands.len());
        }
    }
    let control = KeyModifiers::control();
    let c0 = add_chord(bindings, "left", KeyEvent::new(KeyCode::Char('b'), control), InputCommand::Left);
    assert(c0 == 0);
    let c1 = add_chord(bindings, "left", KeyEvent::from(KeyCode::Left), InputCommand::Left);
    assert(c1 == 0);
    assert("left"@[0] != "right"@[0]);
    let c2 = add_chord(bindings, "right", KeyEvent::new(KeyCode::Char('f'), control), InputCommand::Right);
    assert(c2 == 1);
    let c3 = add_chord(bindings, "right", KeyEvent::from(KeyCode::Right), InputCommand::Right);
    assert(c3 == 1);
    assert("left"@[0] != "start-of-line"@[0]);
    assert("right"@[0] != "start-of-line"@[0]);
    let c4 = add_chord(bindings, "start-of-line", KeyEvent::new(KeyCode::Char('a'), control), InputCommand::StartOfLine);
    assert(c4 == 2);
    let c5 = add_chord(bindings, "start-of-line", KeyEvent::from(KeyCode::Home), InputCommand::StartOfLine);
    assert(c5 == 2);
    assert("left"@[0] != "end-of-line"@[0]);
    assert("right"@[0] != "end-of-line"@[0]);
    assert("start-of-line"@[0] != "end-of-line"@[0]);
    let c6 = add_chord(bindings, "end-of-line", KeyEvent::new(KeyCode::Char('e'), control), InputCommand::EndOfLine);
    assert(c6 == 3);
    let c7 = add_chord(bindings, "end-of-line", KeyEvent::from(KeyCode::End), InputCommand::EndOfLine);
    assert(c7 == 3);
    assert("left"@[0] != "delete-forward"@[0]);
    assert("right"@[0] != "delete-forward"@[0]);
    assert("start-of-line"@[0] != "delete-forward"@[0]);
    assert("end-of-line"@[0] != "delete-forward"@[0]);
    let c8 = add_chord(bindings, "delete-forward", KeyEvent::new(KeyCode::Char('d'), control), InputCommand::DeleteForward);
    assert(c8 == 4);
    let c9 = add_chord(bindings, "delete-forward", KeyEvent::from(KeyCode::Delete), InputCommand::DeleteForward);
    assert(c9 == 4);
    assert("left"@[0] != "delete-backward"@[0]);
    assert("right"@[0] != "delete-backward"@[0]);
    assert("start-of-line"@[0] != "delete-backward"@[0]);
    assert("end-of-line"@[0] != "delete-backward"@[0]);
    assert("delete-forward"@[7] != "delete-backward"@[7]);
    let c10 = add_chord(bindings, "delete-backward", KeyEvent::from(KeyCode::Backspace), InputCommand::DeleteBackward);
    assert(c10 == 5);
    assert("left"@[0] != "insert-character"@[0]);
    assert("right"@[0] != "insert-character"@[0]);
    assert("start-of-line"@[0] != "insert-character"@[0]);
    assert("end-of-line"@[0] != "insert-character"@[0]);
    assert("delete-forward"@[0] != "insert-character"@[0]);
    assert("delete-backward"@[0] != "insert-character"@[0]);
    let ghost before = bindings@;
    assert(!before.has_rule(Rule::AnyCharacter)) by {
        assert forall|i: int| 0 <= i < before.rules.len() implies !crate::bindings::same_rule(#[trigger] before.rules[i].rule, Rule::AnyCharacter) by {
        }
    }
    let c11 = bindings.add("insert-character", Rule::AnyCharacter, InputCommand::InsertCharacter);
    assert(c11 == Ok::<usize, BindingError>(6));
}

/// Whether a character typed into the input is inserted: all but line feed,
/// carriage return and tab.
pub open spec fn insertable(c: char) -> bool {
    c != '\n' && c != '\r' && c != '\t'
}

/// The message a resolved command sends. Inserting takes the one character key
/// pressed, when it is insertable.
pub fn run_command(command: InputCommand, keys: &Vec<KeyEvent>) -> (r: Option<Message>)
    ensures
        r == match command {
            InputCommand::Left => Some(Message::CursorLeft),
            InputCommand::Right => Some(Message::CursorRight),
            InputCommand::StartOfLine => Some(Message::StartOfLine),
            InputCommand::EndOfLine => Some(Message::EndOfLine),
            InputCommand::DeleteForward => Some(Message::DeleteForward),
            InputCommand::DeleteBackward => Some(Message::DeleteBackward),
            InputCommand::InsertCharacter => if keys@.len() == 1 && keys@[0].code is Char && insertable(
                keys@[0].code->Char_0,
            ) {
                Some(Message::InsertChar(keys@[0].code->Char_0))
            } else {
                None::<Message>
            },
        },
{
    match command {
        InputCommand::Left => Some(Message::CursorLeft),
        InputCommand::Right => Some(Message::CursorRight),
        InputCommand::StartOfLine => Some(Message::StartOfLine),
        InputCommand::EndOfLine => Some(Message::EndOfLine),
        InputCommand::DeleteForward => Some(Message::DeleteForward),
        InputCommand::DeleteBackward => Some(Message::DeleteBackward),
        InputCommand::InsertCharacter => {
            if keys.len() != 1 {
                return None;
            }
            match keys[0].code {
                KeyCode::Char(c) => if c != '\n' && c != '\r' && c != '\t' {
                    Some(Message::InsertChar(c))
                } else {
                    None
                },
                _ => None,
            }
        },
    }
}

} // verus!
