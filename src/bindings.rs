use vstd::prelude::*;

use crate::key::{same_key, KeyCode, KeyEvent};

verus! {

/// A rule that decides whether a command fires on the pending keys.
#[derive(Debug)]
pub enum Rule {
    /// A fixed chord sequence; it fires when the pending keys end with exactly these chords.
    Keys(Vec<KeyEvent>),
    /// Fires when the pending keys are one printable character: a character key held
    /// with neither control nor alt.
    AnyCharacter,
}

/// Why a rule was not registered.
#[derive(Debug, Clone, Copy, PartialEq, Eq, Structural)]
pub enum BindingError {
    /// A chord sequence without chords.
    EmptySequence,
    /// The same rule is already bound, to this command or another.
    DuplicateRule,
}

/// A named command and the action it stands for.
#[derive(Debug)]
pub struct Command<A> {
    pub name: String,
    pub action: A,
}

/// One rule bound to the command at index `command`.
#[derive(Debug)]
pub struct Binding {
    pub rule: Rule,
    pub command: usize,
}

/// `keys` ends with the chords of the non-empty sequence `seq`.
pub open spec fn suffix_matches(seq: Seq<KeyEvent>, keys: Seq<KeyEvent>) -> bool {
    &&& 0 < seq.len() <= keys.len()
    &&& forall|k: int| 0 <= k < seq.len() ==> same_key(#[trigger] seq[k], keys[keys.len() - seq.len() + k])
}

/// `keys` is a strict prefix of `seq`: more chords may still complete it.
pub open spec fn strict_prefix_of(keys: Seq<KeyEvent>, seq: Seq<KeyEvent>) -> bool {
    &&& keys.len() < seq.len()
    &&& forall|k: int| 0 <= k < keys.len() ==> same_key(#[trigger] keys[k], seq[k])
}

/// A character key held with neither control nor alt.
pub open spec fn printable(e: KeyEvent) -> bool {
    e.code is Char && !e.modifiers.control && !e.modifiers.alt
}

pub open spec fn rule_matches(rule: Rule, keys: Seq<KeyEvent>) -> bool {
    match rule {
        Rule::Keys(seq) => suffix_matches(seq@, keys),
        Rule::AnyCharacter => keys.len() == 1 && printable(keys[0]),
    }
}

/// The rule could still fire once more keys arrive.
pub open spec fn rule_live(rule: Rule, keys: Seq<KeyEvent>) -> bool {
    match rule {
        Rule::Keys(seq) => strict_prefix_of(keys, seq@),
        Rule::AnyCharacter => keys.len() == 0,
    }
}

pub open spec fn same_sequence(a: Seq<KeyEvent>, b: Seq<KeyEvent>) -> bool {
    a.len() == b.len() && forall|k: int| 0 <= k < a.len() ==> same_key(#[trigger] a[k], b[k])
}

/// Two rules that accept the same keys.
pub open spec fn same_rule(a: Rule, b: Rule) -> bool {
    match (a, b) {
        (Rule::Keys(x), Rule::Keys(y)) => same_sequence(x@, y@),
        (Rule::AnyCharacter, Rule::AnyCharacter) => true,
        _ => false,
    }
}

/// `b` binds exactly the chord sequence `keys` to command `c`.
pub open spec fn binds_keys(b: Binding, c: usize, keys: Seq<KeyEvent>) -> bool {
    b.command == c && b.rule is Keys && b.rule->Keys_0@ == keys
}

/// A chord sequence of one chord.
pub fn chord(e: KeyEvent) -> (r: Vec<KeyEvent>)
    ensures
        r@ == seq![e],
{
    let mut v: Vec<KeyEvent> = Vec::new();
    v.push(e);
    v
}

/// What a binding table holds: its focus flag, its commands, its rules and the keys
/// pressed since the last resolution.
pub struct BindingsView<A> {
    pub focus: bool,
    pub commands: Seq<Command<A>>,
    pub rules: Seq<Binding>,
    pub pending: Seq<KeyEvent>,
}

impl<A> BindingsView<A> {
    /// Command `c` has a rule that fires on `keys`.
    pub open spec fn matches(self, c: usize, keys: Seq<KeyEvent>) -> bool {
        exists|i: int|
            0 <= i < self.rules.len() && #[trigger] self.rules[i].command == c && rule_matches(
                self.rules[i].rule,
                keys,
            )
    }

    /// Command `c` and no other fires on `keys`.
    pub open spec fn resolves_to(self, c: usize, keys: Seq<KeyEvent>) -> bool {
        &&& self.matches(c, keys)
        &&& forall|d: usize| d != c ==> !#[trigger] self.matches(d, keys)
    }

    /// The command that `keys` resolve to, if exactly one fires.
    pub open spec fn resolution(self, keys: Seq<KeyEvent>) -> Option<usize> {
        if exists|c: usize| self.resolves_to(c, keys) {
            Some(choose|c: usize| self.resolves_to(c, keys))
        } else {
            None
        }
    }

    /// Some rule could still fire once more keys follow `keys`.
    pub open spec fn live(self, keys: Seq<KeyEvent>) -> bool {
        exists|i: int| 0 <= i < self.rules.len() && #[trigger] rule_live(self.rules[i].rule, keys)
    }

    /// Command `c` fires on `keys`, or could fire once more keys follow.
    pub open spec fn reachable(self, c: usize, keys: Seq<KeyEvent>) -> bool {
        exists|i: int|
            0 <= i < self.rules.len() && #[trigger] self.rules[i].command == c && (rule_matches(
                self.rules[i].rule,
                keys,
            ) || rule_live(self.rules[i].rule, keys))
    }

    /// Some registered rule is the same as `rule`.
    pub open spec fn has_rule(self, rule: Rule) -> bool {
        exists|i: int| 0 <= i < self.rules.len() && same_rule(#[trigger] self.rules[i].rule, rule)
    }

    /// The index of the command named `name`, if there is one.
    pub open spec fn has_name(self, c: int, name: Seq<char>) -> bool {
        0 <= c < self.commands.len() && #[trigger] self.commands[c].name@ == name
    }

    /// Every rule names a command, no chord sequence is empty, no two rules are the
    /// same and no two commands share a name.
    pub open spec fn wf(self) -> bool {
        &&& forall|i: int| 0 <= i < self.rules.len() ==> #[trigger] self.rules[i].command < self.commands.len()
        &&& forall|i: int| 0 <= i < self.rules.len() ==> (#[trigger] self.rules[i].rule is Keys ==> self.rules[i].rule->Keys_0@.len() > 0)
        &&& forall|i: int, j: int|
            0 <= i < self.rules.len() && 0 <= j < self.rules.len() && i != j ==> !same_rule(
                #[trigger] self.rules[i].rule,
                #[trigger] self.rules[j].rule,
            )
        &&& forall|i: int, j: int|
            0 <= i < self.commands.len() && 0 <= j < self.commands.len() && i != j ==> (
            #[trigger] self.commands[i].name@) != (#[trigger] self.commands[j].name@)
    }

    /// Where a key event leaves the pending keys, and the command it resolves.
    ///
    /// Without focus nothing changes. Otherwise the event joins the pending keys; if
    /// exactly one command then fires, it is resolved and the pending keys are
    /// cleared. If none does and no rule can still complete, the keys start over from
    /// this event alone, which is resolved in the same way; else the keys wait for
    /// more.
    pub open spec fn key_step(self, e: KeyEvent) -> (Seq<KeyEvent>, Option<usize>) {
        if !self.focus {
            (self.pending, None)
        } else {
            let keys = self.pending.push(e);
            match self.resolution(keys) {
                Some(c) => (Seq::empty(), Some(c)),
                None => if self.live(keys) {
                    (keys, None)
                } else {
                    let fresh = seq![e];
                    match self.resolution(fresh) {
                        Some(c) => (Seq::empty(), Some(c)),
                        None => (fresh, None),
                    }
                },
            }
        }
    }
}

/// A component's table of commands and the key rules bound to them, with a focus flag
/// that decides whether the table takes key events at all.
pub struct Bindings<A> {
    focus: bool,
    commands: Vec<Command<A>>,
    rules: Vec<Binding>,
    pending: Vec<KeyEvent>,
}

impl<A> View for Bindings<A> {
    type V = BindingsView<A>;

    closed spec fn view(&self) -> BindingsView<A> {
        BindingsView {
            focus: self.focus,
            commands: self.commands@,
            rules: self.rules@,
            pending: self.pending@,
        }
    }
}

fn same_sequence_exec(a: &Vec<KeyEvent>, b: &Vec<KeyEvent>) -> (r: bool)
    ensures
        r == same_sequence(a@, b@),
{
    if a.len() != b.len() {
        return false;
    }
    let mut k: usize = 0;
    while k < a.len()
        invariant
            a@.len() == b@.len(),
            k <= a@.len(),
            forall|j: int| 0 <= j < k ==> same_key(#[trigger] a@[j], b@[j]),
        decreases a@.len() - k,
    {
        if a[k] != b[k] {
            return false;
        }
        k = k + 1;
    }
    true
}

fn same_rule_exec(a: &Rule, b: &Rule) -> (r: bool)
    ensures
        r == same_rule(*a, *b),
{
    match (a, b) {
        (Rule::Keys(x), Rule::Keys(y)) => same_sequence_exec(x, y),
        (Rule::AnyCharacter, Rule::AnyCharacter) => true,
        _ => false,
    }
}

fn suffix_matches_exec(seq: &Vec<KeyEvent>, keys: &Vec<KeyEvent>) -> (r: bool)
    ensures
        r == suffix_matches(seq@, keys@),
{
    if seq.len() == 0 || seq.len() > keys.len() {
        return false;
    }
    let off: usize = keys.len() - seq.len();
    let mut k: usize = 0;
    while k < seq.len()
        invariant
            0 < seq@.len() <= keys@.len(),
            keys@.len() <= usize::MAX,
            off == keys@.len() - seq@.len(),
            k <= seq@.len(),
            forall|j: int| 0 <= j < k ==> same_key(#[trigger] seq@[j], keys@[keys@.len() - seq@.len() + j]),
        decreases seq@.len() - k,
    {
        if seq[k] != keys[off + k] {
            return false;
        }
        k = k + 1;
    }
    true
}

fn strict_prefix_exec(keys: &Vec<KeyEvent>, seq: &Vec<KeyEvent>) -> (r: bool)
    ensures
        r == strict_prefix_of(keys@, seq@),
{
    if keys.len() >= seq.len() {
        return false;
    }
    let mut k: usize = 0;
    while k < keys.len()
        invariant
            keys@.len() < seq@.len(),
            k <= keys@.len(),
            forall|j: int| 0 <= j < k ==> same_key(#[trigger] keys@[j], seq@[j]),
        decreases keys@.len() - k,
    {
        if keys[k] != seq[k] {
            return false;
        }
        k = k + 1;
    }
    true
}

fn rule_matches_exec(rule: &Rule, keys: &Vec<KeyEvent>) -> (r: bool)
    ensures
        r == rule_matches(*rule, keys@),
{
    match rule {
        Rule::Keys(seq) => suffix_matches_exec(seq, keys),
        Rule::AnyCharacter => keys.len() == 1 && match keys[0].code {
            KeyCode::Char(_) => !keys[0].modifiers.control && !keys[0].modifiers.alt,
            _ => false,
        },
    }
}

fn rule_live_exec(rule: &Rule, keys: &Vec<KeyEvent>) -> (r: bool)
    ensures
        r == rule_live(*rule, keys@),
{
    match rule {
        Rule::Keys(seq) => strict_prefix_exec(keys, seq),
        Rule::AnyCharacter => keys.len() == 0,
    }
}

proof fn lemma_same_rule_symmetric(a: Rule, b: Rule)
    requires
        same_rule(a, b),
    ensures
        same_rule(b, a),
{
    if let (Rule::Keys(x), Rule::Keys(y)) = (a, b) {
        assert forall|k: int| 0 <= k < y@.len() implies same_key(#[trigger] y@[k], x@[k]) by {
            assert(same_key(x@[k], y@[k]));
        }
    }
}

/// Resolution and liveness depend on the rules alone.
proof fn lemma_same_rules<A>(a: BindingsView<A>, b: BindingsView<A>, keys: Seq<KeyEvent>)
    requires
        a.rules == b.rules,
    ensures
        a.resolution(keys) == b.resolution(keys),
        a.live(keys) == b.live(keys),
{
    assert forall|c: usize| a.matches(c, keys) == b.matches(c, keys) by {}
    assert forall|c: usize| a.resolves_to(c, keys) == b.resolves_to(c, keys) by {
        assert forall|d: usize| a.matches(d, keys) == b.matches(d, keys) by {}
    }
    if exists|c: usize| a.resolves_to(c, keys) {
        let x = choose|c: usize| a.resolves_to(c, keys);
        let y = choose|c: usize| b.resolves_to(c, keys);
        assert(a.resolves_to(y, keys));
        if x != y {
            assert(a.matches(y, keys));
        }
    }
}

/// A one-chord sequence is new to a table whose rules are one-chord sequences of
/// other keys.
pub proof fn lemma_fresh_chord<A>(v: BindingsView<A>, e: KeyEvent, keys: Vec<KeyEvent>)
    requires
        keys@ == seq![e],
        forall|i: int|
            0 <= i < v.rules.len() ==> #[trigger] v.rules[i].rule is Keys && v.rules[i].rule->Keys_0@.len() == 1
                && !same_key(v.rules[i].rule->Keys_0@[0], e),
    ensures
        !v.has_rule(Rule::Keys(keys)),
{
    assert forall|i: int| 0 <= i < v.rules.len() implies !same_rule(#[trigger] v.rules[i].rule, Rule::Keys(keys)) by {
        assert(keys@[0] == e);
    }
}

impl<A> Bindings<A> {
    /// An empty table without focus.
    pub fn new() -> (r: Bindings<A>)
        ensures
            !r@.focus,
            r@.commands.len() == 0,
            r@.rules.len() == 0,
            r@.pending.len() == 0,
            r@.wf(),
    {
        Bindings { focus: false, commands: Vec::new(), rules: Vec::new(), pending: Vec::new() }
    }

    /// Whether no command is registered yet.
    pub fn is_empty(&self) -> (r: bool)
        ensures
            r == (self@.commands.len() == 0),
    {
        self.commands.len() == 0
    }

    pub fn focus(&self) -> (r: bool)
        ensures
            r == self@.focus,
    {
        self.focus
    }

    /// Sets whether this table takes key events.
    pub fn set_focus(&mut self, focus: bool)
        ensures
            final(self)@.focus == focus,
            final(self)@.commands == old(self)@.commands,
            final(self)@.rules == old(self)@.rules,
            final(self)@.pending == old(self)@.pending,
    {
        self.focus = focus;
    }

    /// The keys pressed since the last resolution.
    pub fn pending(&self) -> (r: &Vec<KeyEvent>)
        ensures
            r@ == self@.pending,
    {
        &self.pending
    }

    /// The number of registered commands.
    pub fn len(&self) -> (r: usize)
        ensures
            r == self@.commands.len(),
    {
        self.commands.len()
    }

    /// The action of command `c`.
    pub fn action(&self, c: usize) -> (r: &A)
        requires
            c < self@.commands.len(),
        ensures
            *r == self@.commands[c as int].action,
    {
        &self.commands[c].action
    }

    /// The name of command `c`.
    pub fn name(&self, c: usize) -> (r: &String)
        requires
            c < self@.commands.len(),
        ensures
            r@ == self@.commands[c as int].name@,
    {
        &self.commands[c].name
    }

    /// The index of the command called `name`.
    pub fn find_command(&self, name: &str) -> (r: Option<usize>)
        ensures
            match r {
                Some(c) => self@.has_name(c as int, name@),
                None => forall|c: int| !self@.has_name(c, name@),
            },
    {
        let wanted = name.to_owned();
        let mut i: usize = 0;
        while i < self.commands.len()
            invariant
                wanted@ == name@,
                i <= self@.commands.len(),
                forall|c: int| 0 <= c < i ==> !self@.has_name(c, name@),
            decreases self@.commands.len() - i,
        {
            if self.commands[i].name == wanted {
                return Some(i);
            }
            i = i + 1;
        }
        None
    }

    /// Whether a rule that accepts the same keys as `rule` is registered.
    pub fn has_rule(&self, rule: &Rule) -> (r: bool)
        ensures
            r == self@.has_rule(*rule),
    {
        let mut i: usize = 0;
        while i < self.rules.len()
            invariant
                i <= self@.rules.len(),
                forall|j: int| 0 <= j < i ==> !same_rule(#[trigger] self@.rules[j].rule, *rule),
            decreases self@.rules.len() - i,
        {
            if same_rule_exec(&self.rules[i].rule, rule) {
                return true;
            }
            i = i + 1;
        }
        false
    }

    /// Registers the command `name` with `action`, unless a command of that name
    /// exists; returns its index either way.
    pub fn command(&mut self, name: &str, action: A) -> (r: usize)
        requires
            old(self)@.wf(),
        ensures
            final(self)@.wf(),
            final(self)@.has_name(r as int, name@),
            final(self)@.focus == old(self)@.focus,
            final(self)@.rules == old(self)@.rules,
            final(self)@.pending == old(self)@.pending,
            forall|c: int| old(self)@.has_name(c, name@) ==> r == c,
            old(self)@.has_name(r as int, name@) ==> final(self)@.commands == old(self)@.commands,
            !old(self)@.has_name(r as int, name@) ==> {
                &&& r == old(self)@.commands.len()
                &&& final(self)@.commands.len() == old(self)@.commands.len() + 1
                &&& final(self)@.commands.take(r as int) == old(self)@.commands
                &&& final(self)@.commands[r as int].action == action
            },
    {
        match self.find_command(name) {
            Some(c) => c,
            None => {
                let c = self.commands.len();
                self.commands.push(Command { name: name.to_owned(), action });
                assert(final(self)@.commands.take(c as int) =~= old(self)@.commands);
                proof {
                    let v = self@;
                    assert forall|i: int, j: int|
                        0 <= i < v.commands.len() && 0 <= j < v.commands.len() && i != j implies (
                        #[trigger] v.commands[i].name@) != (#[trigger] v.commands[j].name@) by {
                        if i == c as int {
                            assert(!old(self)@.has_name(j, name@));
                        }
                        if j == c as int {
                            assert(!old(self)@.has_name(i, name@));
                        }
                    }
                }
                c
            },
        }
    }

    /// Binds `rule` to the command `name`, registering the command with `action` if
    /// it is new. An empty chord sequence, or a rule already bound to any command,
    /// is refused and leaves the table unchanged.
    pub fn add(&mut self, name: &str, rule: Rule, action: A) -> (r: Result<usize, BindingError>)
        requires
            old(self)@.wf(),
        ensures
            final(self)@.wf(),
            final(self)@.focus == old(self)@.focus,
            final(self)@.pending == old(self)@.pending,
            r is Ok <==> !(rule is Keys && rule->Keys_0@.len() == 0) && !old(self)@.has_rule(rule),
            r is Err ==> r->Err_0 == (if rule is Keys && rule->Keys_0@.len() == 0 {
                BindingError::EmptySequence
            } else {
                BindingError::DuplicateRule
            }),
            r is Err ==> final(self)@ == old(self)@,
            r is Ok ==> {
                &&& final(self)@.has_name(r->Ok_0 as int, name@)
                &&& final(self)@.rules == old(self)@.rules.push(Binding { rule, command: r->Ok_0 })
                &&& forall|c: int| old(self)@.has_name(c, name@) ==> r->Ok_0 == c
                &&& old(self)@.has_name(r->Ok_0 as int, name@) ==> final(self)@.commands == old(self)@.commands
                &&& !old(self)@.has_name(r->Ok_0 as int, name@) ==> {
                    &&& r->Ok_0 == old(self)@.commands.len()
                    &&& final(self)@.commands.len() == old(self)@.commands.len() + 1
                    &&& final(self)@.commands.take(r->Ok_0 as int) == old(self)@.commands
                    &&& final(self)@.commands[r->Ok_0 as int].action == action
                }
            },
    {
        let empty = match &rule {
            Rule::Keys(seq) => seq.len() == 0,
            Rule::AnyCharacter => false,
        };
        if empty {
            return Err(BindingError::EmptySequence);
        }
        if self.has_rule(&rule) {
            return Err(BindingError::DuplicateRule);
        }
        let c = self.command(name, action);
        let ghost mid = self@;
        let ghost new_rule = rule;
        self.rules.push(Binding { rule, command: c });
        proof {
            let v = self@;
            assert forall|i: int, j: int|
                0 <= i < v.rules.len() && 0 <= j < v.rules.len() && i != j implies !same_rule(
                #[trigger] v.rules[i].rule,
                #[trigger] v.rules[j].rule,
            ) by {
                let n = mid.rules.len() as int;
                if i == n && same_rule(v.rules[i].rule, v.rules[j].rule) {
                    lemma_same_rule_symmetric(v.rules[i].rule, v.rules[j].rule);
                    assert(same_rule(mid.rules[j].rule, new_rule));
                }
                if j == n && same_rule(v.rules[i].rule, v.rules[j].rule) {
                    assert(same_rule(mid.rules[i].rule, new_rule));
                }
            }
        }
        Ok(c)
    }

    /// The command that `keys` resolve to: the one command with a rule that fires on
    /// them, or `None` when no command or more than one fires.
    pub fn resolve(&self, keys: &Vec<KeyEvent>) -> (r: Option<usize>)
        ensures
            r == self@.resolution(keys@),
    {
        let ghost v = self@;
        let mut found: Option<usize> = None;
        let mut ambiguous = false;
        let mut i: usize = 0;
        while i < self.rules.len()
            invariant
                v == self@,
                i <= v.rules.len(),
                found is None ==> !ambiguous,
                found is None ==> forall|j: int| 0 <= j < i ==> !rule_matches(#[trigger] v.rules[j].rule, keys@),
                found is Some ==> exists|j: int|
                    0 <= j < i && #[trigger] v.rules[j].command == found->0 && rule_matches(v.rules[j].rule, keys@),
                found is Some ==> (ambiguous <==> exists|j: int|
                    0 <= j < i && #[trigger] v.rules[j].command != found->0 && rule_matches(v.rules[j].rule, keys@)),
            decreases v.rules.len() - i,
        {
            if rule_matches_exec(&self.rules[i].rule, keys) {
                let c = self.rules[i].command;
                match found {
                    None => {
                        found = Some(c);
                    },
                    Some(f) => {
                        if f != c {
                            ambiguous = true;
                        }
                    },
                }
            }
            i = i + 1;
        }
        proof {
            match found {
                None => {
                    assert forall|c: usize| !v.resolves_to(c, keys@) by {
                        if v.matches(c, keys@) {
                            let j = choose|j: int|
                                0 <= j < v.rules.len() && #[trigger] v.rules[j].command == c
                                    && rule_matches(v.rules[j].rule, keys@);
                            assert(!rule_matches(v.rules[j].rule, keys@));
                        }
                    }
                },
                Some(f) => {
                    let j0 = choose|j: int|
                        0 <= j < v.rules.len() && #[trigger] v.rules[j].command == f && rule_matches(v.rules[j].rule, keys@);
                    assert(v.matches(f, keys@));
                    if ambiguous {
                        let j1 = choose|j: int|
                            0 <= j < v.rules.len() && #[trigger] v.rules[j].command != f && rule_matches(v.rules[j].rule, keys@);
                        let d = v.rules[j1].command;
                        assert(v.matches(d, keys@));
                        assert forall|c: usize| !v.resolves_to(c, keys@) by {
                            if c == f {
                                assert(v.matches(d, keys@));
                            } else {
                                assert(v.matches(f, keys@));
                            }
                        }
                    } else {
                        assert forall|d: usize| d != f implies !#[trigger] v.matches(d, keys@) by {
                            if v.matches(d, keys@) {
                                let j = choose|j: int|
                                    0 <= j < v.rules.len() && #[trigger] v.rules[j].command == d
                                        && rule_matches(v.rules[j].rule, keys@);
                                assert(v.rules[j].command != f);
                            }
                        }
                        assert(v.resolves_to(f, keys@));
                        let c = choose|c: usize| v.resolves_to(c, keys@);
                        assert(v.resolves_to(c, keys@));
                        assert(c == f);
                    }
                },
            }
        }
        if ambiguous {
            None
        } else {
            found
        }
    }

    /// Whether some rule could still fire once more keys follow `keys`.
    pub fn is_live(&self, keys: &Vec<KeyEvent>) -> (r: bool)
        ensures
            r == self@.live(keys@),
    {
        let mut i: usize = 0;
        while i < self.rules.len()
            invariant
                i <= self@.rules.len(),
                forall|j: int| 0 <= j < i ==> !#[trigger] rule_live(self@.rules[j].rule, keys@),
            decreases self@.rules.len() - i,
        {
            if rule_live_exec(&self.rules[i].rule, keys) {
                return true;
            }
            i = i + 1;
        }
        false
    }

    /// Feeds one key event to the table (see [`BindingsView::key_step`]) and returns
    /// the command it resolves, if any.
    pub fn handle_key(&mut self, event: KeyEvent) -> (r: Option<usize>)
        ensures
            final(self)@.focus == old(self)@.focus,
            final(self)@.commands == old(self)@.commands,
            final(self)@.rules == old(self)@.rules,
            final(self)@.pending == old(self)@.key_step(event).0,
            r == old(self)@.key_step(event).1,
    {
        if !self.focus {
            return None;
        }
        let ghost v0 = self@;
        self.pending.push(event);
        proof {
            lemma_same_rules(v0, self@, self@.pending);
            lemma_same_rules(v0, self@, seq![event]);
        }
        if let Some(c) = self.resolve(&self.pending) {
            self.pending.clear();
            return Some(c);
        }
        if self.is_live(&self.pending) {
            return None;
        }
        self.pending.clear();
        self.pending.push(event);
        assert(self@.pending =~= seq![event]);
        proof {
            lemma_same_rules(v0, self@, seq![event]);
        }
        if let Some(c) = self.resolve(&self.pending) {
            self.pending.clear();
            return Some(c);
        }
        None
    }

    /// Whether command `c` fires on `keys` or could fire once more keys follow.
    pub fn is_reachable(&self, c: usize, keys: &Vec<KeyEvent>) -> (r: bool)
        ensures
            r == self@.reachable(c, keys@),
    {
        let mut i: usize = 0;
        while i < self.rules.len()
            invariant
                i <= self@.rules.len(),
                forall|j: int|
                    0 <= j < i ==> !(#[trigger] self@.rules[j].command == c && (rule_matches(
                        self@.rules[j].rule,
                        keys@,
                    ) || rule_live(self@.rules[j].rule, keys@))),
            decreases self@.rules.len() - i,
        {
            if self.rules[i].command == c && (rule_matches_exec(&self.rules[i].rule, keys)
                || rule_live_exec(&self.rules[i].rule, keys)) {
                return true;
            }
            i = i + 1;
        }
        false
    }

    /// The commands, in order of registration, that fire on `keys` or could fire
    /// once more keys follow: what a hint display shows while a sequence is typed.
    pub fn queries(&self, keys: &Vec<KeyEvent>) -> (r: Vec<usize>)
        ensures
            forall|k: int| 0 <= k < r@.len() ==> #[trigger] r@[k] < self@.commands.len() && self@.reachable(r@[k], keys@),
            forall|c: usize| c < self@.commands.len() && self@.reachable(c, keys@) ==> r@.contains(c),
            forall|k: int, l: int| 0 <= k < l < r@.len() ==> r@[k] < r@[l],
    {
        let mut out: Vec<usize> = Vec::new();
        let mut c: usize = 0;
        while c < self.commands.len()
            invariant
                c <= self@.commands.len(),
                forall|k: int| 0 <= k < out@.len() ==> #[trigger] out@[k] < c && self@.reachable(out@[k], keys@),
                forall|d: usize| d < c && self@.reachable(d, keys@) ==> out@.contains(d),
                forall|k: int, l: int| 0 <= k < l < out@.len() ==> out@[k] < out@[l],
            decreases self@.commands.len() - c,
        {
            let ghost before = out@;
            if self.is_reachable(c, keys) {
                out.push(c);
                assert(out@[out@.len() - 1] == c);
                assert forall|d: usize| d < c && self@.reachable(d, keys@) implies out@.contains(d) by {
                    if d == c {
                        assert(out@[out@.len() - 1] == d);
                    } else {
                        assert(before.contains(d));
                        let k = choose|k: int| 0 <= k < before.len() && before[k] == d;
                        assert(out@[k] == d);
                    }
                }
            }
            c = c + 1;
        }
        out
    }
}

} // verus!
