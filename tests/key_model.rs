use zi::key::{KeyCode, KeyEvent, KeyModifiers};

#[test]
fn shifted_lower_letter_equals_upper_letter() {
    let shifted = KeyEvent::new(KeyCode::Char('a'), KeyModifiers::shift());
    let upper = KeyEvent::from(KeyCode::Char('A'));
    assert_eq!(shifted, upper);
    assert_eq!(shifted.normalize_case(), upper.normalize_case());
}

#[test]
fn normalize_upper_letter_gains_shift() {
    let e = KeyEvent::from(KeyCode::Char('Q')).normalize_case();
    assert_eq!(e.code, KeyCode::Char('Q'));
    assert_eq!(e.modifiers, KeyModifiers::shift());
}

#[test]
fn normalize_shifted_lower_letter_becomes_upper() {
    let e = KeyEvent::new(KeyCode::Char('z'), KeyModifiers::shift().union(KeyModifiers::control()))
        .normalize_case();
    assert_eq!(e.code, KeyCode::Char('Z'));
    assert!(e.modifiers.shift && e.modifiers.control && !e.modifiers.alt);
}

#[test]
fn normalize_keeps_non_letters() {
    let digit = KeyEvent::new(KeyCode::Char('1'), KeyModifiers::shift());
    let n = digit.normalize_case();
    assert_eq!(n.code, KeyCode::Char('1'));
    assert_eq!(n.modifiers, KeyModifiers::shift());
    assert_ne!(digit, KeyEvent::from(KeyCode::Char('1')));
    let esc = KeyEvent::new(KeyCode::Esc, KeyModifiers::alt()).normalize_case();
    assert_eq!(esc.code, KeyCode::Esc);
    assert_eq!(esc.modifiers, KeyModifiers::alt());
}

#[test]
fn normalize_is_idempotent() {
    for e in [
        KeyEvent::new(KeyCode::Char('b'), KeyModifiers::shift()),
        KeyEvent::from(KeyCode::Char('B')),
        KeyEvent::from(KeyCode::Char('b')),
        KeyEvent::new(KeyCode::F(3), KeyModifiers::shift()),
    ] {
        let once = e.normalize_case();
        let twice = once.normalize_case();
        assert_eq!(once.code, twice.code);
        assert_eq!(once.modifiers, twice.modifiers);
    }
}

#[test]
fn lower_letter_without_shift_differs_from_upper() {
    assert_ne!(KeyEvent::from(KeyCode::Char('a')), KeyEvent::from(KeyCode::Char('A')));
    assert_ne!(
        KeyEvent::new(KeyCode::Char('c'), KeyModifiers::control()),
        KeyEvent::from(KeyCode::Char('c'))
    );
}

#[test]
fn modifiers_contains_and_insert() {
    let mut m = KeyModifiers::control();
    assert!(!m.contains(KeyModifiers::shift()));
    m.insert(KeyModifiers::shift());
    assert!(m.contains(KeyModifiers::shift()));
    assert!(m.contains(KeyModifiers::control()));
    assert!(m.contains(KeyModifiers::empty()));
    assert!(!m.contains(KeyModifiers::alt()));
}
