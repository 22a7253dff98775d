//! Actions, modes, key bindings, and the modal dispatcher that maps raw input
//! events to binding targets.
use vstd::prelude::*;
use crate::text::{chars_of, same_text, string_of};

verus! {

/// A named input-handling context.
#[derive(Clone, Debug, Eq, Hash)]
pub enum TerminalMode {
    Insert,
    Normal,
    Visual,
    Custom(String),
}

pub open spec fn same_mode(a: TerminalMode, b: TerminalMode) -> bool {
    match (a, b) {
        (TerminalMode::Insert, TerminalMode::Insert) => true,
        (TerminalMode::Normal, TerminalMode::Normal) => true,
        (TerminalMode::Visual, TerminalMode::Visual) => true,
        (TerminalMode::Custom(x), TerminalMode::Custom(y)) => x@ == y@,
        _ => false,
    }
}

impl PartialEq for TerminalMode {
    fn eq(&self, other: &TerminalMode) -> (r: bool) {
        match self {
            TerminalMode::Insert => match other {
                TerminalMode::Insert => true,
                _ => false,
            },
            TerminalMode::Normal => match other {
                TerminalMode::Normal => true,
                _ => false,
            },
            TerminalMode::Visual => match other {
                TerminalMode::Visual => true,
                _ => false,
            },
            TerminalMode::Custom(x) => match other {
                TerminalMode::Custom(y) => same_text(x.as_str(), y.as_str()),
                _ => false,
            },
        }
    }
}

impl vstd::std_specs::cmp::PartialEqSpecImpl for TerminalMode {
    open spec fn obeys_eq_spec() -> bool {
        true
    }

    open spec fn eq_spec(&self, other: &TerminalMode) -> bool {
        same_mode(*self, *other)
    }
}

/// The name shown for a mode in the window title.
pub open spec fn mode_name(m: TerminalMode) -> Seq<char> {
    match m {
        TerminalMode::Insert => "INSERT"@,
        TerminalMode::Normal => "NORMAL"@,
        TerminalMode::Visual => "VISUAL"@,
        TerminalMode::Custom(s) => s@,
    }
}

/// Whether `m` is the mode that `s` names: the three built-in modes by their
/// capitalised or upper-case names, any other text as a custom mode.
pub open spec fn names_mode(s: Seq<char>, m: TerminalMode) -> bool {
    if s == "Insert"@ || s == "INSERT"@ {
        m is Insert
    } else if s == "Normal"@ || s == "NORMAL"@ {
        m is Normal
    } else if s == "Visual"@ || s == "VISUAL"@ {
        m is Visual
    } else {
        m matches TerminalMode::Custom(c) && c@ == s
    }
}

impl TerminalMode {
    pub fn name(&self) -> (r: &str)
        ensures
            r@ == mode_name(*self),
    {
        match self {
            TerminalMode::Insert => "INSERT",
            TerminalMode::Normal => "NORMAL",
            TerminalMode::Visual => "VISUAL",
            TerminalMode::Custom(s) => s.as_str(),
        }
    }

    pub fn from_str(s: &str) -> (r: Option<Self>)
        ensures
            r matches Some(m) && names_mode(s@, m),
    {
        if same_text(s, "Insert") || same_text(s, "INSERT") {
            Some(TerminalMode::Insert)
        } else if same_text(s, "Normal") || same_text(s, "NORMAL") {
            Some(TerminalMode::Normal)
        } else if same_text(s, "Visual") || same_text(s, "VISUAL") {
            Some(TerminalMode::Visual)
        } else {
            Some(TerminalMode::Custom(s.to_owned()))
        }
    }

    /// An equal mode.
    pub fn duplicate(&self) -> (r: Self)
        ensures
            r == *self,
    {
        match self {
            TerminalMode::Insert => TerminalMode::Insert,
            TerminalMode::Normal => TerminalMode::Normal,
            TerminalMode::Visual => TerminalMode::Visual,
            TerminalMode::Custom(s) => TerminalMode::Custom(s.clone()),
        }
    }
}

/// A request for worker-side work.
#[derive(Clone, Debug, PartialEq, Eq)]
pub enum Action {
    AppendChar(char),
    Backspace,
    Delete,
    Submit,
    Clear,
    MoveCursor(i32, i32),
    ChangeMode(TerminalMode),
    RunCommand(String),
    NoOp,
}

/// Whether `s` is `prefix`, then anything, then a closing parenthesis.
pub open spec fn wrapped_in(s: Seq<char>, prefix: Seq<char>) -> bool {
    &&& prefix.len() < s.len()
    &&& s.subrange(0, prefix.len() as int) == prefix
    &&& s.last() == ')'
}

/// What stands between `prefix` and the closing parenthesis.
pub open spec fn argument_of(s: Seq<char>, prefix: Seq<char>) -> Seq<char> {
    s.subrange(prefix.len() as int, s.len() - 1)
}

/// Whether `r` is what the action literal `s` denotes: a bare action name,
/// `ChangeMode(mode)`, `RunCommand(text)`, `InsertChar(c...)` (its first
/// character), or a single ASCII character to insert.
pub open spec fn parses_action(s: Seq<char>, r: Option<Action>) -> bool {
    if s == "Backspace"@ {
        r == Some(Action::Backspace)
    } else if s == "Delete"@ {
        r == Some(Action::Delete)
    } else if s == "Submit"@ || s == "Enter"@ {
        r == Some(Action::Submit)
    } else if s == "Clear"@ {
        r == Some(Action::Clear)
    } else if s == "NoOp"@ {
        r == Some(Action::NoOp)
    } else if wrapped_in(s, "ChangeMode("@) {
        r matches Some(Action::ChangeMode(m)) && names_mode(argument_of(s, "ChangeMode("@), m)
    } else if wrapped_in(s, "RunCommand("@) {
        r matches Some(Action::RunCommand(c)) && c@ == argument_of(s, "RunCommand("@)
    } else if wrapped_in(s, "InsertChar("@) {
        let a = argument_of(s, "InsertChar("@);
        if a.len() > 0 {
            r == Some(Action::AppendChar(a[0]))
        } else {
            r is None
        }
    } else if s.len() == 1 && (s[0] as u32) < 128 {
        r == Some(Action::AppendChar(s[0]))
    } else {
        r is None
    }
}

/// Whether `t` is an action literal.
pub open spec fn is_action_literal(t: Seq<char>) -> bool {
    !parses_action(t, None)
}

fn is_wrapped_in(cs: &Vec<char>, prefix: &str) -> (r: bool)
    ensures
        r == wrapped_in(cs@, prefix@),
{
    let p = chars_of(prefix);
    if p.len() >= cs.len() || cs[cs.len() - 1] != ')' {
        return false;
    }
    let mut i: usize = 0;
    while i < p.len()
        invariant
            p@ == prefix@,
            p@.len() < cs@.len(),
            i <= p@.len(),
            forall|j: int| 0 <= j < i ==> cs@[j] == p@[j],
        decreases p@.len() - i,
    {
        if cs[i] != p[i] {
            assert(cs@.subrange(0, p@.len() as int)[i as int] != p@[i as int]);
            return false;
        }
        i += 1;
    }
    assert(cs@.subrange(0, p@.len() as int) =~= p@);
    true
}

fn argument_chars(cs: &Vec<char>, prefix: &str) -> (r: Vec<char>)
    requires
        wrapped_in(cs@, prefix@),
    ensures
        r@ == argument_of(cs@, prefix@),
{
    let start = prefix.unicode_len();
    let end = cs.len() - 1;
    let mut r: Vec<char> = Vec::new();
    let mut i: usize = start;
    while i < end
        invariant
            start == prefix@.len(),
            end == cs@.len() - 1,
            start <= i <= end,
            r@ == cs@.subrange(start as int, i as int),
        decreases end - i,
    {
        r.push(cs[i]);
        i += 1;
        assert(r@ =~= cs@.subrange(start as int, i as int));
    }
    r
}

impl Action {
    /// Parses an action literal, as written in macros and key bindings.
    pub fn from_str(s: &str) -> (r: Option<Self>)
        ensures
            parses_action(s@, r),
    {
        let cs = chars_of(s);
        if same_text(s, "Backspace") {
            Some(Action::Backspace)
        } else if same_text(s, "Delete") {
            Some(Action::Delete)
        } else if same_text(s, "Submit") || same_text(s, "Enter") {
            Some(Action::Submit)
        } else if same_text(s, "Clear") {
            Some(Action::Clear)
        } else if same_text(s, "NoOp") {
            Some(Action::NoOp)
        } else if is_wrapped_in(&cs, "ChangeMode(") {
            let arg = string_of(&argument_chars(&cs, "ChangeMode("));
            match TerminalMode::from_str(arg.as_str()) {
                Some(m) => Some(Action::ChangeMode(m)),
                None => None,
            }
        } else if is_wrapped_in(&cs, "RunCommand(") {
            Some(Action::RunCommand(string_of(&argument_chars(&cs, "RunCommand("))))
        } else if is_wrapped_in(&cs, "InsertChar(") {
            let arg = argument_chars(&cs, "InsertChar(");
            if arg.len() > 0 {
                Some(Action::AppendChar(arg[0]))
            } else {
                None
            }
        } else if cs.len() == 1 && (cs[0] as u32) < 128 {
            Some(Action::AppendChar(cs[0]))
        } else {
            None
        }
    }

    /// An equal action.
    pub fn duplicate(&self) -> (r: Self)
        ensures
            r == *self,
    {
        match self {
            Action::AppendChar(c) => Action::AppendChar(*c),
            Action::Backspace => Action::Backspace,
            Action::Delete => Action::Delete,
            Action::Submit => Action::Submit,
            Action::Clear => Action::Clear,
            Action::MoveCursor(dr, dc) => Action::MoveCursor(*dr, *dc),
            Action::ChangeMode(m) => Action::ChangeMode(m.duplicate()),
            Action::RunCommand(c) => Action::RunCommand(c.clone()),
            Action::NoOp => Action::NoOp,
        }
    }
}

/// A raw input event: a key chord, or text that the platform inserted.
#[derive(Clone, Debug, Eq, Hash)]
pub enum InputEvent {
    Key { code: String, ctrl: bool, alt: bool, shift: bool },
    Text(String),
}

pub open spec fn same_event(a: InputEvent, b: InputEvent) -> bool {
    match (a, b) {
        (
            InputEvent::Key { code: c1, ctrl: k1, alt: a1, shift: s1 },
            InputEvent::Key { code: c2, ctrl: k2, alt: a2, shift: s2 },
        ) => c1@ == c2@ && k1 == k2 && a1 == a2 && s1 == s2,
        (InputEvent::Text(t1), InputEvent::Text(t2)) => t1@ == t2@,
        _ => false,
    }
}

impl PartialEq for InputEvent {
    fn eq(&self, other: &InputEvent) -> (r: bool) {
        match self {
            InputEvent::Key { code: c1, ctrl: k1, alt: a1, shift: s1 } => match other {
                InputEvent::Key { code: c2, ctrl: k2, alt: a2, shift: s2 } => {
                    same_text(c1.as_str(), c2.as_str()) && *k1 == *k2 && *a1 == *a2 && *s1
                        == *s2
                },
                _ => false,
            },
            InputEvent::Text(t1) => match other {
                InputEvent::Text(t2) => same_text(t1.as_str(), t2.as_str()),
                _ => false,
            },
        }
    }
}

impl vstd::std_specs::cmp::PartialEqSpecImpl for InputEvent {
    open spec fn obeys_eq_spec() -> bool {
        true
    }

    open spec fn eq_spec(&self, other: &InputEvent) -> bool {
        same_event(*self, *other)
    }
}

/// What a binding triggers: one action, or a macro by name.
#[derive(Clone, Debug, PartialEq, Eq)]
pub enum BindingTarget {
    Action(Action),
    Macro(String),
}

impl BindingTarget {
    /// An equal target.
    pub fn duplicate(&self) -> (r: Self)
        ensures
            r == *self,
    {
        match self {
            BindingTarget::Action(a) => BindingTarget::Action(a.duplicate()),
            BindingTarget::Macro(m) => BindingTarget::Macro(m.clone()),
        }
    }
}

#[derive(Clone, Debug, PartialEq, Eq)]
pub struct KeyBinding {
    pub event: InputEvent,
    pub target: BindingTarget,
}

/// A mode and its bindings, scanned in order.
#[derive(Clone, Debug, PartialEq, Eq)]
pub struct ModeDefinition {
    pub mode: TerminalMode,
    pub bindings: Vec<KeyBinding>,
}

/// The index of the first element of `s` that satisfies `p`.
pub open spec fn first_where<T>(s: Seq<T>, p: spec_fn(T) -> bool) -> Option<int>
    decreases s.len(),
{
    if s.len() == 0 {
        None
    } else {
        match first_where(s.drop_last(), p) {
            Some(i) => Some(i),
            None => if p(s.last()) {
                Some(s.len() - 1)
            } else {
                None
            },
        }
    }
}

/// `first_where` finds the first satisfying element, and only when there is one.
pub proof fn lemma_first_where<T>(s: Seq<T>, p: spec_fn(T) -> bool)
    ensures
        first_where(s, p) matches Some(i) ==> 0 <= i < s.len() && p(s[i]) && forall|j: int|
            0 <= j < i ==> !p(#[trigger] s[j]),
        first_where(s, p) is None ==> forall|j: int| 0 <= j < s.len() ==> !p(#[trigger] s[j]),
    decreases s.len(),
{
    if s.len() > 0 {
        lemma_first_where(s.drop_last(), p);
        assert forall|j: int| 0 <= j < s.len() - 1 implies s.drop_last()[j] == s[j] by {}
    }
}

/// The first satisfying element is the only candidate when `i` satisfies the
/// predicate and nothing before it does.
pub proof fn lemma_only_first<T>(s: Seq<T>, p: spec_fn(T) -> bool, i: int)
    requires
        0 <= i < s.len(),
        p(s[i]),
        forall|j: int| 0 <= j < i ==> !p(#[trigger] s[j]),
    ensures
        first_where(s, p) == Some(i),
{
    lemma_first_where(s, p);
    match first_where(s, p) {
        Some(k) => {
            if k < i {
                assert(!p(s[k]));
            } else if k > i {
                assert(!p(s[i]));
            }
        },
        None => {
            assert(!p(s[i]));
        },
    }
}

pub open spec fn mode_is(m: TerminalMode) -> spec_fn(ModeDefinition) -> bool {
    |d: ModeDefinition| same_mode(d.mode, m)
}

pub open spec fn event_is(e: InputEvent) -> spec_fn(KeyBinding) -> bool {
    |b: KeyBinding| same_event(b.event, e)
}

/// The binding that `event` selects in `mode`: the first binding that equals
/// it in the first definition of that mode.
pub open spec fn selected_binding(
    defs: Seq<ModeDefinition>,
    mode: TerminalMode,
    event: InputEvent,
) -> Option<KeyBinding> {
    match first_where(defs, mode_is(mode)) {
        Some(d) => match first_where(defs[d].bindings@, event_is(event)) {
            Some(b) => Some(defs[d].bindings@[b]),
            None => None,
        },
        None => None,
    }
}

/// Editing primitives that the platform's text field applies itself in
/// Insert mode.
pub open spec fn handled_natively(t: BindingTarget) -> bool {
    match t {
        BindingTarget::Action(a) => a is Backspace || a is Delete || a is MoveCursor,
        BindingTarget::Macro(_) => false,
    }
}

pub open spec fn append_target(c: char) -> BindingTarget {
    BindingTarget::Action(Action::AppendChar(c))
}

pub open spec fn append_targets(text: Seq<char>) -> Seq<BindingTarget> {
    text.map_values(|c: char| append_target(c))
}

/// The targets that `event` yields in `mode`: the selected binding's target
/// (none in Insert mode for an editing primitive), or without a binding, in
/// Insert mode, one character insertion per character of inserted text.
pub open spec fn dispatch(
    defs: Seq<ModeDefinition>,
    mode: TerminalMode,
    event: InputEvent,
) -> Seq<BindingTarget> {
    match selected_binding(defs, mode, event) {
        Some(b) => if mode is Insert && handled_natively(b.target) {
            seq![]
        } else {
            seq![b.target]
        },
        None => match event {
            InputEvent::Text(t) => if mode is Insert {
                append_targets(t@)
            } else {
                seq![]
            },
            InputEvent::Key { .. } => seq![],
        },
    }
}

/// The binding that an event selects is the first binding, in declaration
/// order, whose event equals it, within the first definition of the active
/// mode; nothing is selected when that definition has no such binding.
pub proof fn lemma_selected_is_first_match(defs: Seq<ModeDefinition>, mode: TerminalMode, event: InputEvent)
    ensures
        selected_binding(defs, mode, event) matches Some(b) ==> exists|d: int, i: int|
            {
                &&& 0 <= d < defs.len() && same_mode(defs[d].mode, mode)
                &&& forall|k: int| 0 <= k < d ==> !same_mode(#[trigger] defs[k].mode, mode)
                &&& 0 <= i < defs[d].bindings@.len() && same_event(defs[d].bindings@[i].event, event)
                &&& forall|k: int| 0 <= k < i ==> !same_event(#[trigger] defs[d].bindings@[k].event, event)
                &&& b == defs[d].bindings@[i]
            },
        selected_binding(defs, mode, event) is None ==> forall|d: int|
            0 <= d < defs.len() && same_mode(defs[d].mode, mode) && (forall|k: int|
                0 <= k < d ==> !same_mode(#[trigger] defs[k].mode, mode)) ==> forall|i: int|
                0 <= i < defs[d].bindings@.len() ==> !same_event(#[trigger] defs[d].bindings@[i].event, event),
{
    lemma_first_where(defs, mode_is(mode));
    match first_where(defs, mode_is(mode)) {
        Some(d) => {
            lemma_first_where(defs[d].bindings@, event_is(event));
            assert forall|k: int| 0 <= k < d implies !same_mode(#[trigger] defs[k].mode, mode) by {
                assert(!mode_is(mode)(defs[k]));
            }
            match first_where(defs[d].bindings@, event_is(event)) {
                Some(i) => {
                    assert forall|k: int| 0 <= k < i implies !same_event(
                        #[trigger] defs[d].bindings@[k].event,
                        event,
                    ) by {
                        assert(!event_is(event)(defs[d].bindings@[k]));
                    }
                },
                None => {
                    assert forall|d2: int|
                        0 <= d2 < defs.len() && same_mode(defs[d2].mode, mode) && (forall|k: int|
                            0 <= k < d2 ==> !same_mode(#[trigger] defs[k].mode, mode)) implies forall|i: int|
                        0 <= i < defs[d2].bindings@.len() ==> !same_event(
                            #[trigger] defs[d2].bindings@[i].event,
                            event,
                        ) by {
                        if d2 < d {
                            assert(same_mode(defs[d2].mode, mode));
                        } else if d2 > d {
                            assert(!same_mode(defs[d].mode, mode));
                        }
                        assert forall|i: int| 0 <= i < defs[d2].bindings@.len() implies !same_event(
                            #[trigger] defs[d2].bindings@[i].event,
                            event,
                        ) by {
                            assert(!event_is(event)(defs[d].bindings@[i]));
                        }
                    }
                },
            }
        },
        None => {
            assert forall|d2: int|
                0 <= d2 < defs.len() && same_mode(defs[d2].mode, mode) && (forall|k: int|
                    0 <= k < d2 ==> !same_mode(#[trigger] defs[k].mode, mode)) implies forall|i: int|
                0 <= i < defs[d2].bindings@.len() ==> !same_event(
                    #[trigger] defs[d2].bindings@[i].event,
                    event,
                ) by {
                assert(!mode_is(mode)(defs[d2]));
            }
        },
    }
}

/// In Insert mode, text that no binding takes yields one character
/// insertion per character, in order.
pub proof fn lemma_insert_fallback(defs: Seq<ModeDefinition>, text: String)
    requires
        selected_binding(defs, TerminalMode::Insert, InputEvent::Text(text)) is None,
    ensures
        dispatch(defs, TerminalMode::Insert, InputEvent::Text(text)).len() == text@.len(),
        forall|i: int|
            0 <= i < text@.len() ==> #[trigger] dispatch(defs, TerminalMode::Insert, InputEvent::Text(text))[i]
                == BindingTarget::Action(Action::AppendChar(text@[i])),
{
}

proof fn lemma_first_where_extends<T>(s: Seq<T>, k: int, p: spec_fn(T) -> bool)
    requires
        0 <= k <= s.len(),
        first_where(s.subrange(0, k), p) is Some,
    ensures
        first_where(s, p) == first_where(s.subrange(0, k), p),
    decreases s.len() - k,
{
    if k < s.len() {
        let t = s.subrange(0, k + 1);
        assert(t.drop_last() =~= s.subrange(0, k));
        lemma_first_where_extends(s, k + 1, p);
    } else {
        assert(s.subrange(0, k) =~= s);
    }
}

proof fn lemma_first_where_step<T>(s: Seq<T>, k: int, p: spec_fn(T) -> bool)
    requires
        0 <= k < s.len(),
        first_where(s.subrange(0, k), p) is None,
    ensures
        first_where(s.subrange(0, k + 1), p) == (if p(s[k]) {
            Some(k)
        } else {
            None::<int>
        }),
{
    assert(s.subrange(0, k + 1).drop_last() =~= s.subrange(0, k));
}

fn find_definition(defs: &Vec<ModeDefinition>, mode: &TerminalMode) -> (r: Option<usize>)
    ensures
        r matches Some(i) ==> first_where(defs@, mode_is(*mode)) == Some(i as int),
        r is None ==> first_where(defs@, mode_is(*mode)) is None,
{
    let mut i: usize = 0;
    while i < defs.len()
        invariant
            i <= defs@.len(),
            first_where(defs@.subrange(0, i as int), mode_is(*mode)) is None,
        decreases defs@.len() - i,
    {
        proof {
            lemma_first_where_step(defs@, i as int, mode_is(*mode));
        }
        if defs[i].mode == *mode {
            proof {
                lemma_first_where_extends(defs@, i + 1, mode_is(*mode));
            }
            return Some(i);
        }
        i += 1;
    }
    assert(defs@.subrange(0, i as int) =~= defs@);
    None
}

fn find_binding(bindings: &Vec<KeyBinding>, event: &InputEvent) -> (r: Option<usize>)
    ensures
        r matches Some(i) ==> first_where(bindings@, event_is(*event)) == Some(i as int),
        r is None ==> first_where(bindings@, event_is(*event)) is None,
{
    let mut i: usize = 0;
    while i < bindings.len()
        invariant
            i <= bindings@.len(),
            first_where(bindings@.subrange(0, i as int), event_is(*event)) is None,
        decreases bindings@.len() - i,
    {
        proof {
            lemma_first_where_step(bindings@, i as int, event_is(*event));
        }
        if bindings[i].event == *event {
            proof {
                lemma_first_where_extends(bindings@, i + 1, event_is(*event));
            }
            return Some(i);
        }
        i += 1;
    }
    assert(bindings@.subrange(0, i as int) =~= bindings@);
    None
}

/// Maps one input event to the targets it triggers in `mode`.
pub fn map_input(event: &InputEvent, mode: &TerminalMode, definitions: &Vec<ModeDefinition>) -> (r:
    Vec<BindingTarget>)
    ensures
        r@ == dispatch(definitions@, *mode, *event),
{
    let mut out: Vec<BindingTarget> = Vec::new();
    let insert = match mode {
        TerminalMode::Insert => true,
        _ => false,
    };
    if let Some(d) = find_definition(definitions, mode) {
        proof {
            lemma_first_where(definitions@, mode_is(*mode));
        }
        let bindings = &definitions[d].bindings;
        if let Some(b) = find_binding(bindings, event) {
            proof {
                lemma_first_where(bindings@, event_is(*event));
            }
            let target = &bindings[b].target;
            let native = match target {
                BindingTarget::Action(Action::Backspace) => true,
                BindingTarget::Action(Action::Delete) => true,
                BindingTarget::Action(Action::MoveCursor(_, _)) => true,
                _ => false,
            };
            if !(insert && native) {
                out.push(target.duplicate());
            }
            assert(out@ =~= dispatch(definitions@, *mode, *event));
            return out;
        }
    }
    if insert {
        if let InputEvent::Text(t) = event {
            let cs = chars_of(t.as_str());
            let mut i: usize = 0;
            assert(out@ =~= append_targets(cs@.subrange(0, 0)));
            while i < cs.len()
                invariant
                    i <= cs@.len(),
                    out@ == append_targets(cs@.subrange(0, i as int)),
                decreases cs@.len() - i,
            {
                out.push(BindingTarget::Action(Action::AppendChar(cs[i])));
                proof {
                    let p = cs@.subrange(0, i as int);
                    assert(cs@.subrange(0, i as int + 1) =~= p.push(cs@[i as int]));
                    assert(append_targets(p.push(cs@[i as int])) =~= append_targets(p).push(
                        append_target(cs@[i as int]),
                    ));
                }
                i += 1;
                assert(out@ =~= append_targets(cs@.subrange(0, i as int)));
            }
            assert(cs@.subrange(0, cs@.len() as int) =~= t@);
        }
    }
    assert(out@ =~= dispatch(definitions@, *mode, *event));
    out
}

} // verus!
