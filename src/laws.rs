use vstd::prelude::*;

use crate::bindings::{rule_live, rule_matches, BindingsView};
use crate::component::{position_id, same_component, took, ComponentDef, ComponentId};
use crate::counter;
use crate::dynamic::{DynamicMessage, Erase};
use crate::input;
use crate::key::{ascii_upper, is_ascii_letter, normalize, same_key, KeyCode, KeyEvent, KeyModifiers};

verus! {

/// A letter typed with SHIFT is the same key press as its upper-case form typed
/// without modifiers.
pub proof fn lemma_shifted_letter(c: char)
    requires
        is_ascii_letter(c),
    ensures
        normalize(
            KeyEvent { code: KeyCode::Char(c), modifiers: KeyModifiers { shift: true, control: false, alt: false } },
        ) == normalize(
            KeyEvent {
                code: KeyCode::Char(ascii_upper(c)),
                modifiers: KeyModifiers { shift: false, control: false, alt: false },
            },
        ),
{
    assert(is_ascii_letter(ascii_upper(c)) && 'A' <= ascii_upper(c) <= 'Z');
}

/// Normalization leaves every key but a letter as it is, whatever its modifiers.
pub proof fn lemma_non_letter_unchanged(e: KeyEvent)
    requires
        !(e.code is Char && is_ascii_letter(e.code->Char_0)),
    ensures
        normalize(e) == e,
{
}

/// Normalizing twice is normalizing once.
pub proof fn lemma_normalize_idempotent(e: KeyEvent)
    ensures
        normalize(normalize(e)) == normalize(e),
{
    if let KeyCode::Char(c) = e.code {
        if 'a' <= c <= 'z' {
            assert('A' <= ascii_upper(c) <= 'Z');
        }
    }
}

/// Component ids generated for the same type, position hash and key are the same
/// component; a different type, a different position hash under the same key, or a
/// different explicit key at the same position gives a different component.
pub proof fn lemma_identity_stability(
    a: ComponentId,
    b: ComponentId,
    tag_a: u64,
    tag_b: u64,
    hash_a: u64,
    hash_b: u64,
    key_a: Option<u64>,
    key_b: Option<u64>,
)
    requires
        a.type_tag == tag_a && a.id == position_id(hash_a, key_a),
        b.type_tag == tag_b && b.id == position_id(hash_b, key_b),
    ensures
        tag_a == tag_b && hash_a == hash_b && key_a == key_b ==> same_component(a, b),
        tag_a != tag_b ==> !same_component(a, b),
        key_a == key_b && hash_a != hash_b ==> !same_component(a, b),
        hash_a == hash_b && key_a is Some && key_b is Some && key_a != key_b ==> !same_component(a, b),
{
    if key_a == key_b && hash_a != hash_b {
        if let Some(k) = key_a {
            assert(hash_a ^ k != hash_b ^ k) by (bit_vector)
                requires
                    hash_a != hash_b,
            ;
        }
    }
    if hash_a == hash_b && key_a is Some && key_b is Some && key_a != key_b {
        let (x, y) = (key_a->Some_0, key_b->Some_0);
        assert(hash_a ^ x != hash_a ^ y) by (bit_vector)
            requires
                x != y,
        ;
    }
}

/// Properties come out of a definition once: a second extraction finds none.
pub proof fn lemma_single_consumption<P>(
    d0: ComponentDef<P>,
    d1: ComponentDef<P>,
    d2: ComponentDef<P>,
    first: Option<P>,
    second: Option<P>,
)
    requires
        took(d0, d1, first),
        took(d1, d2, second),
    ensures
        second is None,
        first == d0.properties,
{
}

/// Erasing a value and downcasting it to its own type gives the value back.
pub proof fn lemma_erasure_round_trip<D, T: Erase<D>>(x: T)
    ensures
        T::spec_downcast(x.spec_erase()) == Some(x),
{
    T::lemma_round_trip(x);
}

/// A counter's message does not downcast to a text input's message, nor the other
/// way round.
pub proof fn lemma_erasure_mismatch(c: counter::Message, i: input::Message)
    ensures
        <input::Message as Erase<DynamicMessage>>::spec_downcast(c.spec_erase()) is None,
        <counter::Message as Erase<DynamicMessage>>::spec_downcast(i.spec_erase()) is None,
{
}

/// The pending keys after a run of key events, and what each event resolved.
pub open spec fn run_keys<A>(v: BindingsView<A>, events: Seq<KeyEvent>) -> (Seq<KeyEvent>, Seq<Option<usize>>)
    decreases events.len(),
{
    if events.len() == 0 {
        (v.pending, Seq::empty())
    } else {
        let (pending, r) = v.key_step(events[0]);
        let next = BindingsView { focus: v.focus, commands: v.commands, rules: v.rules, pending };
        let (last, rest) = run_keys(next, events.drop_first());
        (last, seq![r] + rest)
    }
}

/// A table without focus resolves nothing, and its pending keys do not move, whatever
/// keys arrive.
pub proof fn lemma_focus_gating<A>(v: BindingsView<A>, events: Seq<KeyEvent>)
    requires
        !v.focus,
    ensures
        run_keys(v, events).0 == v.pending,
        run_keys(v, events).1.len() == events.len(),
        forall|k: int| 0 <= k < events.len() ==> #[trigger] run_keys(v, events).1[k] is None,
    decreases events.len(),
{
    if events.len() > 0 {
        let next = BindingsView { focus: v.focus, commands: v.commands, rules: v.rules, pending: v.pending };
        lemma_focus_gating(next, events.drop_first());
        assert(next == v);
        let rest = run_keys(v, events.drop_first()).1;
        assert forall|k: int| 0 <= k < events.len() implies #[trigger] run_keys(v, events).1[k] is None by {
            if k > 0 {
                assert(run_keys(v, events).1[k] == rest[k - 1]);
            }
        }
    }
}

proof fn lemma_counter_ends_dead(v: BindingsView<counter::CounterCommand>, e: KeyEvent, ks: Seq<KeyEvent>)
    requires
        counter::counter_table(v),
        !same_key(e, counter::key(KeyCode::Char('+'))),
        !same_key(e, counter::key(KeyCode::Char('='))),
        !same_key(e, counter::key(KeyCode::Char('-'))),
        !same_key(e, counter::ctrl(KeyCode::Char('c'))),
        !same_key(e, counter::key(KeyCode::Esc)),
        ks.len() > 0,
        ks[ks.len() - 1] == e,
    ensures
        v.resolution(ks) is None,
        !v.live(ks),
{
    assert forall|c: usize| !#[trigger] v.matches(c, ks) by {
        if v.matches(c, ks) {
            let i = choose|i: int|
                0 <= i < v.rules.len() && #[trigger] v.rules[i].command == c && rule_matches(v.rules[i].rule, ks);
            let seq = v.rules[i].rule->Keys_0@;
            assert(same_key(seq[0], ks[ks.len() - 1]));
        }
    }
    if exists|c: usize| v.resolves_to(c, ks) {
        let c = choose|c: usize| v.resolves_to(c, ks);
        assert(v.matches(c, ks));
    }
    if v.live(ks) {
        let i = choose|i: int| 0 <= i < v.rules.len() && #[trigger] rule_live(v.rules[i].rule, ks);
        assert(v.rules[i].rule->Keys_0@.len() == 1);
    }
}

/// A key that is none of the counter's chords resolves nothing in the counter's
/// table, whatever keys are pending, and leaves that key alone pending.
pub proof fn lemma_counter_dead_key(v: BindingsView<counter::CounterCommand>, e: KeyEvent)
    requires
        counter::counter_table(v),
        !same_key(e, counter::key(KeyCode::Char('+'))),
        !same_key(e, counter::key(KeyCode::Char('='))),
        !same_key(e, counter::key(KeyCode::Char('-'))),
        !same_key(e, counter::ctrl(KeyCode::Char('c'))),
        !same_key(e, counter::key(KeyCode::Esc)),
    ensures
        v.key_step(e) == (seq![e], None::<usize>),
{
    let keys = v.pending.push(e);
    let fresh = seq![e];
    lemma_counter_ends_dead(v, e, keys);
    lemma_counter_ends_dead(v, e, fresh);
    assert(keys[keys.len() - 1] == e);
    assert(fresh[fresh.len() - 1] == e);
    assert(v.resolution(keys) is None && !v.live(keys));
    assert(v.resolution(fresh) is None);
}

} // verus!
