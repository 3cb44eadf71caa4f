use zi::bindings::{chord, BindingError, Bindings, Rule};
use zi::counter::{Counter, CounterCommand, Properties};
use zi::component::Rect;
use zi::input::{self, InputCommand, Message};
use zi::key::{KeyCode, KeyEvent, KeyModifiers};

fn frame() -> Rect {
    Rect { x: 0, y: 0, width: 80, height: 24 }
}

fn counter_table() -> Bindings<CounterCommand> {
    let counter = Counter::create(Properties { initial_count: 0 }, frame());
    let mut table = Bindings::new();
    counter.bindings(&mut table);
    table
}

fn key(c: char) -> KeyEvent {
    KeyEvent::from(KeyCode::Char(c))
}

#[test]
fn counter_scenario_resolves_commands() {
    let mut table = counter_table();
    let plus = table.handle_key(key('+')).unwrap();
    assert_eq!(table.name(plus).as_str(), "increment");
    assert_eq!(*table.action(plus), CounterCommand::Increment);
    assert!(table.pending().is_empty());

    let ctrl = KeyEvent::new(KeyCode::Null, KeyModifiers::control());
    assert_eq!(table.handle_key(ctrl), None);
    assert_eq!(table.pending().len(), 1);
    assert_eq!(table.pending()[0], ctrl);

    let exit = table
        .handle_key(KeyEvent::new(KeyCode::Char('c'), KeyModifiers::control()))
        .unwrap();
    assert_eq!(table.name(exit).as_str(), "exit");
    assert!(table.pending().is_empty());

    let eq = table.handle_key(key('=')).unwrap();
    assert_eq!(eq, plus);
    let esc = table.handle_key(KeyEvent::from(KeyCode::Esc)).unwrap();
    assert_eq!(esc, exit);
    let minus = table.handle_key(key('-')).unwrap();
    assert_eq!(table.name(minus).as_str(), "decrement");
}

#[test]
fn unfocused_table_resolves_nothing_until_focused() {
    let mut table = counter_table();
    table.set_focus(false);
    assert_eq!(table.handle_key(key('+')), None);
    assert_eq!(table.handle_key(KeyEvent::from(KeyCode::Esc)), None);
    assert!(table.pending().is_empty());
    table.set_focus(true);
    assert_eq!(table.handle_key(key('+')), Some(0));
    assert_eq!(table.handle_key(KeyEvent::from(KeyCode::Esc)), Some(2));
}

#[test]
fn counter_bindings_are_idempotent() {
    let counter = Counter::create(Properties { initial_count: 0 }, frame());
    let mut table = Bindings::new();
    counter.bindings(&mut table);
    assert_eq!(table.len(), 3);
    counter.bindings(&mut table);
    assert_eq!(table.len(), 3);
    assert_eq!(table.name(0).as_str(), "increment");
    assert_eq!(table.name(1).as_str(), "decrement");
    assert_eq!(table.name(2).as_str(), "exit");
    assert!(table.focus());
    assert_eq!(table.add("other", Rule::Keys(chord(key('+'))), CounterCommand::Exit), Err(BindingError::DuplicateRule));
}

#[test]
fn multi_key_sequence_waits_then_resolves() {
    let mut table: Bindings<u8> = Bindings::new();
    let seq = vec![
        KeyEvent::new(KeyCode::Char('x'), KeyModifiers::control()),
        KeyEvent::new(KeyCode::Char('s'), KeyModifiers::control()),
    ];
    assert_eq!(table.add("save", Rule::Keys(seq), 7), Ok(0));
    assert_eq!(table.add("search", Rule::Keys(chord(key('s'))), 8), Ok(1));
    table.set_focus(true);
    assert_eq!(table.handle_key(KeyEvent::new(KeyCode::Char('x'), KeyModifiers::control())), None);
    assert_eq!(table.pending().len(), 1);
    let hints = table.queries(&table.pending().clone());
    assert_eq!(hints, vec![0]);
    assert_eq!(table.handle_key(KeyEvent::new(KeyCode::Char('s'), KeyModifiers::control())), Some(0));
    assert!(table.pending().is_empty());
    // A key that starts nothing resets the buffer to itself and is resolved alone.
    assert_eq!(table.handle_key(KeyEvent::from(KeyCode::Tab)), None);
    assert_eq!(table.handle_key(key('s')), Some(1));
}

#[test]
fn dead_buffer_restarts_from_new_key() {
    let mut table: Bindings<u8> = Bindings::new();
    let seq = vec![key('g'), key('g')];
    assert_eq!(table.add("top", Rule::Keys(seq), 1), Ok(0));
    assert_eq!(table.add("quit", Rule::Keys(chord(key('q'))), 2), Ok(1));
    table.set_focus(true);
    assert_eq!(table.handle_key(key('g')), None);
    assert_eq!(table.handle_key(key('q')), Some(1));
    assert_eq!(table.handle_key(key('g')), None);
    assert_eq!(table.handle_key(key('g')), Some(0));
}

#[test]
fn ambiguous_suffix_resolves_nothing() {
    let mut table: Bindings<u8> = Bindings::new();
    assert_eq!(table.add("ab", Rule::Keys(vec![key('a'), key('b')]), 1), Ok(0));
    assert_eq!(table.add("b", Rule::Keys(chord(key('b'))), 2), Ok(1));
    assert_eq!(table.resolve(&vec![key('a'), key('b')]), None);
    assert_eq!(table.resolve(&vec![key('b')]), Some(1));
    assert_eq!(table.resolve(&vec![key('c'), key('b')]), Some(1));
}

#[test]
fn add_rejects_empty_and_duplicate_rules() {
    let mut table: Bindings<u8> = Bindings::new();
    assert_eq!(table.add("none", Rule::Keys(Vec::new()), 0), Err(BindingError::EmptySequence));
    assert!(table.is_empty());
    assert_eq!(table.add("up", Rule::Keys(chord(KeyEvent::from(KeyCode::Up))), 0), Ok(0));
    assert_eq!(table.add("up", Rule::Keys(chord(KeyEvent::from(KeyCode::Up))), 0), Err(BindingError::DuplicateRule));
    let shifted = KeyEvent::new(KeyCode::Char('k'), KeyModifiers::shift());
    assert_eq!(table.add("K", Rule::Keys(chord(shifted)), 1), Ok(1));
    assert_eq!(table.add("K2", Rule::Keys(chord(key('K'))), 1), Err(BindingError::DuplicateRule));
    assert_eq!(table.add("any", Rule::AnyCharacter, 2), Ok(2));
    assert_eq!(table.add("any2", Rule::AnyCharacter, 2), Err(BindingError::DuplicateRule));
    assert_eq!(table.len(), 3);
    assert_eq!(table.find_command("K"), Some(1));
    assert_eq!(table.find_command("missing"), None);
}

#[test]
fn input_bindings_insert_characters() {
    let mut table = Bindings::new();
    input::bindings(true, &mut table);
    assert_eq!(table.len(), 7);
    let c = table.handle_key(key('x')).unwrap();
    assert_eq!(*table.action(c), InputCommand::InsertCharacter);
    assert_eq!(input::run_command(InputCommand::InsertCharacter, &vec![key('x')]), Some(Message::InsertChar('x')));
    assert_eq!(input::run_command(InputCommand::InsertCharacter, &vec![key('\t')]), None);
    let left = table.handle_key(KeyEvent::from(KeyCode::Left)).unwrap();
    assert_eq!(table.name(left).as_str(), "left");
    assert_eq!(input::run_command(*table.action(left), &vec![]), Some(Message::CursorLeft));
    let home = table.handle_key(KeyEvent::new(KeyCode::Char('a'), KeyModifiers::control())).unwrap();
    assert_eq!(*table.action(home), InputCommand::StartOfLine);
}

#[test]
fn input_bindings_follow_focus_and_keep_rules() {
    let mut table = Bindings::new();
    input::bindings(false, &mut table);
    assert_eq!(table.handle_key(key('x')), None);
    input::bindings(true, &mut table);
    assert_eq!(table.len(), 7);
    assert!(table.focus());
    let c = table.handle_key(KeyEvent::from(KeyCode::Backspace)).unwrap();
    assert_eq!(table.name(c).as_str(), "delete-backward");
}

#[test]
fn queries_list_reachable_commands() {
    let table = counter_table();
    assert_eq!(table.queries(&vec![key('+')]), vec![0]);
    assert_eq!(table.queries(&vec![KeyEvent::from(KeyCode::Esc)]), vec![2]);
    assert_eq!(table.queries(&vec![key('z')]), Vec::<usize>::new());
    assert!(table.is_live(&vec![]));
    assert!(!table.is_live(&vec![key('+')]));
}

#[test]
fn any_character_skips_control_and_alt() {
    let table: Bindings<u8> = {
        let mut t = Bindings::new();
        assert_eq!(t.add("type", Rule::AnyCharacter, 1), Ok(0));
        t
    };
    assert_eq!(table.resolve(&vec![key('a')]), Some(0));
    assert_eq!(table.resolve(&vec![KeyEvent::new(KeyCode::Char('a'), KeyModifiers::shift())]), Some(0));
    assert_eq!(table.resolve(&vec![KeyEvent::new(KeyCode::Char('a'), KeyModifiers::control())]), None);
    assert_eq!(table.resolve(&vec![KeyEvent::new(KeyCode::Char('a'), KeyModifiers::alt())]), None);
    assert_eq!(table.resolve(&vec![key('a'), key('b')]), None);
    assert_eq!(table.resolve(&vec![KeyEvent::from(KeyCode::Enter)]), None);
}
