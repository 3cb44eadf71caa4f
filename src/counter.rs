use vstd::prelude::*;

use crate::bindings::{binds_keys, chord, lemma_fresh_chord, BindingError, Bindings, BindingsView, Rule};
use crate::dynamic::{DynamicMessage, DynamicProperties, Erase};
use crate::component::{took, ComponentDef, ComponentType, Rect, ShouldRender};
use crate::key::{same_key, KeyCode, KeyEvent, KeyModifiers};

verus! {

/// What a counter is told to do.
#[derive(Debug, Clone, Copy, PartialEq, Eq, Structural)]
pub enum Message {
    Increment,
    Decrement,
}

/// A counter's properties: the value it starts from.
#[derive(Debug, Clone, Copy, PartialEq, Eq, Structural)]
pub struct Properties {
    pub initial_count: usize,
}

/// The commands a counter binds to keys.
#[derive(Debug, Clone, Copy, PartialEq, Eq, Structural)]
pub enum CounterCommand {
    Increment,
    Decrement,
    Exit,
}

/// A component that holds a count, moved up and down by messages.
#[derive(Debug)]
pub struct Counter {
    pub count: usize,
    pub properties: Properties,
}

/// The count after `m`: one up or one down, held within the range of `usize`.
pub open spec fn count_after(n: usize, m: Message) -> usize {
    match m {
        Message::Increment => if n < usize::MAX {
            (n + 1) as usize
        } else {
            n
        },
        Message::Decrement => if n > 0 {
            (n - 1) as usize
        } else {
            n
        },
    }
}

pub open spec fn key(code: KeyCode) -> KeyEvent {
    KeyEvent { code, modifiers: KeyModifiers { shift: false, control: false, alt: false } }
}

pub open spec fn ctrl(code: KeyCode) -> KeyEvent {
    KeyEvent { code, modifiers: KeyModifiers { shift: false, control: true, alt: false } }
}

/// The counter's binding table: focused; `+` and `=` increment, `-` decrements,
/// Ctrl-c and Esc exit.
pub open spec fn counter_table(v: BindingsView<CounterCommand>) -> bool {
    &&& v.focus
    &&& v.commands.len() == 3
    &&& v.commands[0].name@ == "increment"@ && v.commands[0].action == CounterCommand::Increment
    &&& v.commands[1].name@ == "decrement"@ && v.commands[1].action == CounterCommand::Decrement
    &&& v.commands[2].name@ == "exit"@ && v.commands[2].action == CounterCommand::Exit
    &&& v.rules.len() == 5
    &&& binds_keys(v.rules[0], 0, seq![key(KeyCode::Char('+'))])
    &&& binds_keys(v.rules[1], 0, seq![key(KeyCode::Char('='))])
    &&& binds_keys(v.rules[2], 1, seq![key(KeyCode::Char('-'))])
    &&& binds_keys(v.rules[3], 2, seq![ctrl(KeyCode::Char('c'))])
    &&& binds_keys(v.rules[4], 2, seq![key(KeyCode::Esc)])
}

impl ComponentType for Counter {
    open spec fn spec_type_tag() -> u64 {
        1
    }

    fn type_tag() -> (r: u64) {
        1
    }

    open spec fn spec_kind_name() -> &'static str {
        "Counter"
    }

    fn kind_name() -> (r: &'static str) {
        "Counter"
    }
}

impl Counter {
    pub fn create(properties: Properties, frame: Rect) -> (r: Counter)
        ensures
            r.count == properties.initial_count,
            r.properties == properties,
    {
        Counter { count: properties.initial_count, properties }
    }

    /// Builds a counter from a definition, taking its properties, together with a
    /// fresh empty binding table for it. The properties must not have been taken
    /// before.
    pub fn create_from(def: &mut ComponentDef<Properties>, frame: Rect) -> (r: (Counter, Bindings<CounterCommand>))
        requires
            old(def).properties is Some,
        ensures
            took(*old(def), *final(def), old(def).properties),
            r.0.count == old(def).properties->Some_0.initial_count,
            r.0.properties == old(def).properties->Some_0,
            r.1@.wf(),
            !r.1@.focus,
            r.1@.commands.len() == 0,
            r.1@.rules.len() == 0,
            r.1@.pending.len() == 0,
    {
        (Counter::create(def.properties_unwrap(), frame), Bindings::new())
    }

    /// Takes new properties: they are kept, and the counter asks to be drawn again,
    /// exactly when they differ from those it holds. The count is state and stays.
    pub fn change(&mut self, properties: Properties) -> (r: ShouldRender)
        ensures
            final(self).count == old(self).count,
            final(self).properties == properties,
            r == (if properties != old(self).properties {
                ShouldRender::Yes
            } else {
                ShouldRender::No
            }),
    {
        if self.properties != properties {
            self.properties = properties;
            ShouldRender::Yes
        } else {
            ShouldRender::No
        }
    }

    /// Takes new properties that arrive behind the uniform properties type; they
    /// must be a counter's properties.
    pub fn change_dynamic(&mut self, properties: DynamicProperties) -> (r: ShouldRender)
        requires
            <Properties as Erase<DynamicProperties>>::spec_downcast(properties) is Some,
        ensures
            final(self).count == old(self).count,
            final(self).properties == <Properties as Erase<DynamicProperties>>::spec_downcast(properties)->Some_0,
            r == (if <Properties as Erase<DynamicProperties>>::spec_downcast(properties)->Some_0 != old(self).properties {
                ShouldRender::Yes
            } else {
                ShouldRender::No
            }),
    {
        let p = <Properties as Erase<DynamicProperties>>::downcast(properties).unwrap();
        self.change(p)
    }

    /// Applies a message; asks to be drawn again exactly when the count changed.
    pub fn update(&mut self, message: Message) -> (r: ShouldRender)
        ensures
            final(self).count == count_after(old(self).count, message),
            r == (if final(self).count != old(self).count {
                ShouldRender::Yes
            } else {
                ShouldRender::No
            }),
    {
        let new_count = match message {
            Message::Increment => self.count.saturating_add(1),
            Message::Decrement => self.count.saturating_sub(1),
        };
        if new_count != self.count {
            self.count = new_count;
            ShouldRender::Yes
        } else {
            ShouldRender::No
        }
    }

    /// Applies a message that arrives behind the uniform message type; it must be a
    /// counter's message.
    pub fn update_dynamic(&mut self, message: DynamicMessage) -> (r: ShouldRender)
        requires
            <Message as Erase<DynamicMessage>>::spec_downcast(message) is Some,
        ensures
            final(self).count == count_after(old(self).count, <Message as Erase<DynamicMessage>>::spec_downcast(message)->Some_0),
            r == (if final(self).count != old(self).count {
                ShouldRender::Yes
            } else {
                ShouldRender::No
            }),
    {
        let m = <Message as Erase<DynamicMessage>>::downcast(message).unwrap();
        self.update(m)
    }

    /// A new frame changes nothing a counter shows.
    pub fn resize(&mut self, frame: Rect) -> (r: ShouldRender)
        ensures
            final(self).count == old(self).count,
            r == ShouldRender::No,
    {
        ShouldRender::No
    }

    /// Fills an empty table with the counter's bindings; a table that already holds
    /// commands is left as it is.
    pub fn bindings(&self, bindings: &mut Bindings<CounterCommand>)
        requires
            old(bindings)@.wf(),
        ensures
            final(bindings)@.wf(),
            final(bindings)@.pending == old(bindings)@.pending,
            old(bindings)@.commands.len() != 0 ==> final(bindings)@ == old(bindings)@,
            old(bindings)@.commands.len() == 0 ==> counter_table(final(bindings)@),
    {
        if !bindings.is_empty() {
            return;
        }
        proof {
            reveal_strlit("increment");
            reveal_strlit("decrement");
            reveal_strlit("exit");
        }
        assert(old(bindings)@.rules.len() == 0) by {
            if old(bindings)@.rules.len() > 0 {
                assert(old(bindings)@.rules[0].command < old(bindings)@.commands.len());
            }
        }
        bindings.set_focus(true);
        let plus = KeyEvent::from(KeyCode::Char('+'));
        let equals = KeyEvent::from(KeyCode::Char('='));
        let minus = KeyEvent::from(KeyCode::Char('-'));
        let ctrl_c = KeyEvent::new(KeyCode::Char('c'), KeyModifiers::control());
        let esc = KeyEvent::from(KeyCode::Esc);
        let k0 = chord(plus);
        let k1 = chord(equals);
        let k2 = chord(minus);
        let k3 = chord(ctrl_c);
        let k4 = chord(esc);
        let r0 = bindings.add("increment", Rule::Keys(k0), CounterCommand::Increment);
        assert(r0 == Ok::<usize, BindingError>(0));
        proof {
            lemma_fresh_chord(bindings@, equals, k1);
        }
        let r1 = bindings.add("increment", Rule::Keys(k1), CounterCommand::Increment);
        assert(r1 == Ok::<usize, BindingError>(0));
        proof {
            lemma_fresh_chord(bindings@, minus, k2);
        }
        let r2 = bindings.add("decrement", Rule::Keys(k2), CounterCommand::Decrement);
        assert("increment"@[0] != "decrement"@[0]);
        assert(r2 == Ok::<usize, BindingError>(1));
        proof {
            lemma_fresh_chord(bindings@, ctrl_c, k3);
        }
        let r3 = bindings.add("exit", Rule::Keys(k3), CounterCommand::Exit);
        assert("increment"@[0] != "exit"@[0]);
        assert("decrement"@[0] != "exit"@[0]);
        assert(r3 == Ok::<usize, BindingError>(2));
        proof {
            lemma_fresh_chord(bindings@, esc, k4);
        }
        let r4 = bindings.add("exit", Rule::Keys(k4), CounterCommand::Exit);
        assert(r4 == Ok::<usize, BindingError>(2));
    }

    /// The message a resolved command sends; exiting sends none.
    pub fn run_command(&self, command: CounterCommand) -> (r: Option<Message>)
        ensures
            r == match command {
                CounterCommand::Increment => Some(Message::Increment),
                CounterCommand::Decrement => Some(Message::Decrement),
                CounterCommand::Exit => None::<Message>,
            },
    {
        match command {
            CounterCommand::Increment => Some(Message::Increment),
            CounterCommand::Decrement => Some(Message::Decrement),
            CounterCommand::Exit => None,
        }
    }

    /// What `tick` sends, behind the uniform message type.
    pub fn tick_dynamic(&self) -> (r: Option<DynamicMessage>)
        ensures
            r is None,
    {
        match self.tick() {
            Some(m) => Some(m.erase()),
            None => None,
        }
    }

    /// A counter sends nothing on its own.
    pub fn tick(&self) -> (r: Option<Message>)
        ensures
            r is None,
    {
        None
    }
}

} // verus!
