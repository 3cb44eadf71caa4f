use zi::component::{ComponentDef, ComponentId, ComponentType, Rect, ShouldRender};
use zi::counter::{Counter, CounterCommand, Message, Properties};
use zi::dynamic::{DynamicMessage, DynamicProperties, Erase};
use zi::input::{self, InputStyle};
use zi::style::{Colour, Style};

fn frame() -> Rect {
    Rect { x: 0, y: 0, width: 10, height: 1 }
}

#[test]
fn counter_end_to_end() {
    let mut counter = Counter::create(Properties { initial_count: 0 }, frame());
    for _ in 0..3 {
        assert_eq!(counter.update(Message::Increment), ShouldRender::Yes);
    }
    assert_eq!(counter.count, 3);
    let mut zero = Counter::create(Properties { initial_count: 0 }, frame());
    assert_eq!(zero.update(Message::Decrement), ShouldRender::No);
    assert_eq!(zero.count, 0);
    assert_eq!(counter.update(Message::Decrement), ShouldRender::Yes);
    assert_eq!(counter.count, 2);
}

#[test]
fn counter_saturates_at_top() {
    let mut counter = Counter::create(Properties { initial_count: usize::MAX }, frame());
    assert_eq!(counter.update(Message::Increment), ShouldRender::No);
    assert_eq!(counter.count, usize::MAX);
}

#[test]
fn counter_commands_and_tick() {
    let counter = Counter::create(Properties { initial_count: 5 }, frame());
    assert_eq!(counter.run_command(CounterCommand::Increment), Some(Message::Increment));
    assert_eq!(counter.run_command(CounterCommand::Decrement), Some(Message::Decrement));
    assert_eq!(counter.run_command(CounterCommand::Exit), None);
    assert_eq!(counter.tick(), None);
}

#[test]
fn counter_updates_through_erased_message() {
    let mut counter = Counter::create(Properties { initial_count: 1 }, frame());
    let m = Message::Increment.erase();
    assert_eq!(m, DynamicMessage::Counter(Message::Increment));
    assert_eq!(counter.update_dynamic(m), ShouldRender::Yes);
    assert_eq!(counter.count, 2);
}

#[test]
fn erasure_round_trip_and_mismatch() {
    let m = Message::Decrement.erase();
    assert_eq!(<Message as Erase<DynamicMessage>>::downcast(m), Some(Message::Decrement));
    assert_eq!(<input::Message as Erase<DynamicMessage>>::downcast(m), None);
    let i = input::Message::InsertChar('q').erase();
    assert_eq!(<input::Message as Erase<DynamicMessage>>::downcast(i), Some(input::Message::InsertChar('q')));
    assert_eq!(<Message as Erase<DynamicMessage>>::downcast(i), None);
    let p = Properties { initial_count: 9 }.erase();
    assert_eq!(p, DynamicProperties::Counter(Properties { initial_count: 9 }));
    assert_eq!(<Properties as Erase<DynamicProperties>>::downcast(p), Some(Properties { initial_count: 9 }));
}

#[test]
fn properties_are_taken_once() {
    let mut def: ComponentDef<Properties> = ComponentDef::new::<Counter>(None, Properties { initial_count: 4 });
    let (counter, table) = Counter::create_from(&mut def, frame());
    assert_eq!(counter.count, 4);
    assert!(table.is_empty());
    assert!(!table.focus());
    assert!(def.properties.is_none());
    assert_eq!(def.take_properties(), None);
}

#[test]
fn dynamic_properties_are_taken_once() {
    let mut def: ComponentDef<Properties> = ComponentDef::new::<Counter>(Some(3), Properties { initial_count: 2 });
    let p: DynamicProperties = def.dynamic_properties();
    assert_eq!(p, DynamicProperties::Counter(Properties { initial_count: 2 }));
    assert!(def.properties.is_none());
    assert_eq!(def.take_properties(), None);
}

#[test]
fn counter_change_keeps_count() {
    let mut counter = Counter::create(Properties { initial_count: 1 }, frame());
    counter.update(Message::Increment);
    assert_eq!(counter.change(Properties { initial_count: 1 }), ShouldRender::No);
    assert_eq!(counter.change(Properties { initial_count: 7 }), ShouldRender::Yes);
    assert_eq!(counter.count, 2);
    assert_eq!(counter.properties, Properties { initial_count: 7 });
    let erased = Properties { initial_count: 9 }.erase();
    assert_eq!(counter.change_dynamic(erased), ShouldRender::Yes);
    assert_eq!(counter.change_dynamic(erased), ShouldRender::No);
    assert_eq!(counter.properties, Properties { initial_count: 9 });
    assert_eq!(counter.count, 2);
    assert_eq!(counter.tick_dynamic(), None);
}

#[test]
fn properties_unwrap_takes_value() {
    let mut def: ComponentDef<Properties> = ComponentDef::new::<Counter>(None, Properties { initial_count: 8 });
    assert_eq!(def.properties_unwrap(), Properties { initial_count: 8 });
    assert!(def.properties.is_none());
}

#[test]
fn generated_ids_are_stable() {
    let def: ComponentDef<Properties> = ComponentDef::new::<Counter>(None, Properties { initial_count: 0 });
    let a = def.generate_id(0x1234);
    let b = def.generate_id(0x1234);
    assert_eq!(a, b);
    assert_eq!(a.id, 0x1234);
    assert_eq!(a.type_id(), Counter::type_tag());
    assert_ne!(a, def.generate_id(0x1235));
    assert_eq!(def.component_type_id(), Counter::type_tag());
    assert_eq!(def.key(), None);
}

#[test]
fn generated_ids_fold_the_key() {
    let keyed: ComponentDef<Properties> = ComponentDef::new::<Counter>(Some(0xff), Properties { initial_count: 0 });
    let other: ComponentDef<Properties> = ComponentDef::new::<Counter>(Some(0x0f), Properties { initial_count: 0 });
    let a = keyed.generate_id(0x100);
    assert_eq!(a.id, 0x1ff);
    assert_ne!(a, other.generate_id(0x100));
}

#[test]
fn id_equality_ignores_the_name() {
    let a = ComponentId { type_tag: 1, id: 2, kind_name: "one" };
    let b = ComponentId { type_tag: 1, id: 2, kind_name: "two" };
    let c = ComponentId { type_tag: 2, id: 2, kind_name: "one" };
    assert_eq!(a, b);
    assert_ne!(a, c);
    assert_eq!(ComponentId::new::<Counter>(7), ComponentId::new::<Counter>(7));
    assert_eq!(ComponentId::new::<Counter>(7).kind_name(), "Counter");
    let def: ComponentDef<Properties> = ComponentDef::new::<Counter>(None, Properties { initial_count: 0 });
    assert_eq!(def.kind_name, "Counter");
    assert_eq!(def.generate_id(5).kind_name(), "Counter");
}

#[test]
fn input_style_default_colours() {
    let s = InputStyle::default();
    assert_eq!(s.content, Style::normal(Colour::rgb(50, 48, 47), Colour::rgb(213, 196, 161)));
    assert_eq!(s.cursor, Style::normal(Colour::rgb(131, 165, 152), Colour::rgb(50, 48, 47)));
    assert!(!s.content.bold);
}
