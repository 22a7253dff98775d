//! The user configuration: a Lua file whose top-level assignments set the
//! prompt, colours, window title, working directory, shortcuts and modes.
//! The Lua syntax tree is read elsewhere into the plain form below; this
//! module decides what each assignment means.
use vstd::prelude::*;
use vstd::string::*;
use crate::command::{trim_chars, trimmed};
use crate::input::{
    first_where, lemma_first_where, is_action_literal, parses_action, names_mode, Action,
    BindingTarget, InputEvent, KeyBinding, ModeDefinition, TerminalMode,
};
use crate::shell::ConfigUpdate;
use crate::text::{chars_of, same_text, string_of};
use crate::types::{Shortcut, TerminalColor};
use crate::utils::{hex_color, parse_hex_color};

verus! {

/// A Lua expression as the configuration reader sees it.
pub enum LuaExpr {
    /// A string literal, as written, with its delimiters.
    Str(String),
    /// A number literal, as written.
    Number(String),
    /// A table constructor's fields, in order.
    Table(Vec<LuaField>),
    /// Any other expression.
    Other,
}

/// How a table field is keyed.
pub enum FieldKey {
    /// `value`
    Positional,
    /// `name = value`, with the name as written.
    Name(String),
    /// `[expression] = value`
    Computed,
}

/// One field of a table constructor.
pub struct LuaField {
    /// The field's source text.
    pub source: String,
    pub key: FieldKey,
    pub value: LuaExpr,
}

/// One variable of an assignment statement and the expression given to it.
pub struct LuaAssignment {
    /// The variable as written, such as `config.prompt`.
    pub target: String,
    pub value: LuaExpr,
}

/// What follows the last `.` of `s`, or all of `s` without one.
pub open spec fn after_last_dot(s: Seq<char>) -> Seq<char>
    decreases s.len(),
{
    if s.len() == 0 {
        s
    } else if s.last() == '.' {
        seq![]
    } else {
        after_last_dot(s.drop_last()).push(s.last())
    }
}

/// The setting that an assignment to `target` names: its last component,
/// trimmed.
pub open spec fn setting_name(target: Seq<char>) -> Seq<char> {
    trimmed(after_last_dot(target))
}

/// The text of a string literal without its first and last characters.
pub open spec fn literal_text(e: LuaExpr) -> Option<Seq<char>> {
    match e {
        LuaExpr::Str(t) => if t@.len() >= 2 {
            Some(t@.subrange(1, t@.len() - 1))
        } else {
            None
        },
        _ => None,
    }
}

/// The last string given to a setting named `a` or `b`.
pub open spec fn last_string(assigns: Seq<LuaAssignment>, a: Seq<char>, b: Seq<char>) -> Option<Seq<char>>
    decreases assigns.len(),
{
    if assigns.len() == 0 {
        None
    } else {
        let n = setting_name(assigns.last().target@);
        if (n == a || n == b) && literal_text(assigns.last().value) is Some {
            literal_text(assigns.last().value)
        } else {
            last_string(assigns.drop_last(), a, b)
        }
    }
}

/// The colour of the last string given to a setting named `a` or `b`; a
/// string that is no colour clears it.
pub open spec fn last_color(assigns: Seq<LuaAssignment>, a: Seq<char>, b: Seq<char>) -> Option<TerminalColor> {
    match last_string(assigns, a, b) {
        Some(t) => hex_color(t),
        None => None,
    }
}

/// The fields of the last table given to a setting named `a` or `b`.
pub open spec fn last_table(assigns: Seq<LuaAssignment>, a: Seq<char>, b: Seq<char>) -> Option<Seq<LuaField>>
    decreases assigns.len(),
{
    if assigns.len() == 0 {
        None
    } else {
        let n = setting_name(assigns.last().target@);
        if (n == a || n == b) && assigns.last().value is Table {
            Some(assigns.last().value->Table_0@)
        } else {
            last_table(assigns.drop_last(), a, b)
        }
    }
}

/// `s` without leading and trailing characters of `set`.
pub open spec fn strip_set(s: Seq<char>, set: Seq<char>) -> Seq<char>
    decreases s.len(),
{
    if s.len() > 0 && set.contains(s[0]) {
        strip_set(s.drop_first(), set)
    } else if s.len() > 0 && set.contains(s.last()) {
        strip_set(s.drop_last(), set)
    } else {
        s
    }
}

pub open spec fn is_equals(c: char) -> bool {
    c == '='
}

/// A field written `name = value`: the trimmed text before the first `=`
/// and after it.
pub open spec fn field_parts(t: Seq<char>) -> Option<(Seq<char>, Seq<char>)> {
    match first_where(t, |c: char| is_equals(c)) {
        Some(i) => Some((trimmed(t.subrange(0, i)), trimmed(t.subrange(i + 1, t.len() as int)))),
        None => None,
    }
}

/// The value of the last field written `a = value` or `b = value`, with
/// the characters of `set` stripped; empty when there is none.
pub open spec fn last_field_value(fields: Seq<LuaField>, a: Seq<char>, b: Seq<char>, set: Seq<char>) -> Seq<char>
    decreases fields.len(),
{
    if fields.len() == 0 {
        seq![]
    } else {
        match field_parts(fields.last().source@) {
            Some((n, v)) => if n == a || n == b {
                strip_set(v, set)
            } else {
                last_field_value(fields.drop_last(), a, b, set)
            },
            None => last_field_value(fields.drop_last(), a, b, set),
        }
    }
}

pub open spec fn quotes() -> Seq<char> {
    seq!['"', '\'']
}

pub open spec fn quotes_and_separators() -> Seq<char> {
    seq!['"', '\'', ',', ' ']
}

/// The key and command of each positional table among `fields` that gives
/// both, in order.
pub open spec fn shortcut_texts(fields: Seq<LuaField>) -> Seq<(Seq<char>, Seq<char>)>
    decreases fields.len(),
{
    if fields.len() == 0 {
        seq![]
    } else {
        let rest = shortcut_texts(fields.drop_last());
        let f = fields.last();
        match f.value {
            LuaExpr::Table(inner) => if f.key is Positional {
                let key = last_field_value(inner@, "key"@, "key"@, quotes());
                let cmd = last_field_value(inner@, "cmd"@, "action"@, quotes());
                if key.len() > 0 && cmd.len() > 0 {
                    rest.push((key, cmd))
                } else {
                    rest
                }
            } else {
                rest
            },
            _ => rest,
        }
    }
}

/// The key and action text of each positional table among `fields` that
/// gives a key and an action literal, in order.
pub open spec fn binding_texts(fields: Seq<LuaField>) -> Seq<(Seq<char>, Seq<char>)>
    decreases fields.len(),
{
    if fields.len() == 0 {
        seq![]
    } else {
        let rest = binding_texts(fields.drop_last());
        let f = fields.last();
        match f.value {
            LuaExpr::Table(inner) => if f.key is Positional {
                let key = last_field_value(inner@, "key"@, "key"@, quotes_and_separators());
                let action = last_field_value(inner@, "action"@, "action"@, quotes_and_separators());
                if key.len() > 0 && action.len() > 0 && is_action_literal(action) {
                    rest.push((key, action))
                } else {
                    rest
                }
            } else {
                rest
            },
            _ => rest,
        }
    }
}

/// The bindings that the fields of one mode's table give: those of each
/// `bindings = {...}` or `keys = {...}` field, in order.
pub open spec fn mode_binding_texts(fields: Seq<LuaField>) -> Seq<(Seq<char>, Seq<char>)>
    decreases fields.len(),
{
    if fields.len() == 0 {
        seq![]
    } else {
        let rest = mode_binding_texts(fields.drop_last());
        let f = fields.last();
        match (f.key, f.value) {
            (FieldKey::Name(k), LuaExpr::Table(b)) => if trimmed(k@) == "bindings"@ || trimmed(k@)
                == "keys"@ {
                rest + binding_texts(b@)
            } else {
                rest
            },
            _ => rest,
        }
    }
}

/// The name and bindings of each positional table among `fields` that
/// names a mode, in order.
pub open spec fn mode_texts(fields: Seq<LuaField>) -> Seq<(Seq<char>, Seq<(Seq<char>, Seq<char>)>)>
    decreases fields.len(),
{
    if fields.len() == 0 {
        seq![]
    } else {
        let rest = mode_texts(fields.drop_last());
        let f = fields.last();
        match f.value {
            LuaExpr::Table(inner) => if f.key is Positional {
                let name = last_field_value(inner@, "name"@, "mode"@, quotes_and_separators());
                if name.len() > 0 {
                    rest.push((name, mode_binding_texts(inner@)))
                } else {
                    rest
                }
            } else {
                rest
            },
            _ => rest,
        }
    }
}

/// Whether binding `b` is the key binding that `t` describes: the key with
/// no modifier, bound to the action its text denotes.
pub open spec fn binding_is(t: (Seq<char>, Seq<char>), b: KeyBinding) -> bool {
    &&& b.event matches InputEvent::Key { code, ctrl, alt, shift } && code@ == t.0 && !ctrl && !alt
        && !shift
    &&& b.target matches BindingTarget::Action(a) && parses_action(t.1, Some(a))
}

pub open spec fn bindings_are(texts: Seq<(Seq<char>, Seq<char>)>, bs: Seq<KeyBinding>) -> bool {
    &&& bs.len() == texts.len()
    &&& forall|j: int| 0 <= j < bs.len() ==> binding_is(texts[j], #[trigger] bs[j])
}

/// Whether `defs` are the mode definitions that `texts` describe.
pub open spec fn modes_are(texts: Seq<(Seq<char>, Seq<(Seq<char>, Seq<char>)>)>, defs: Seq<ModeDefinition>) -> bool {
    &&& defs.len() == texts.len()
    &&& forall|i: int|
        0 <= i < defs.len() ==> names_mode(texts[i].0, #[trigger] defs[i].mode) && bindings_are(
            texts[i].1,
            defs[i].bindings@,
        )
}

pub open spec fn shortcuts_are(texts: Seq<(Seq<char>, Seq<char>)>, s: Seq<Shortcut>) -> bool {
    &&& s.len() == texts.len()
    &&& forall|i: int| 0 <= i < s.len() ==> #[trigger] s[i].key@ == texts[i].0 && s[i].cmd@ == texts[i].1
}

/// The setting that an assignment to `target` names.
pub fn setting_name_of(target: &str) -> (r: String)
    ensures
        r@ == setting_name(target@),
{
    let cs = chars_of(target);
    let mut i: usize = cs.len();
    assert(cs@.subrange(0, cs@.len() as int) =~= cs@);
    assert(cs@.subrange(cs@.len() as int, cs@.len() as int) =~= Seq::<char>::empty());
    while i > 0 && cs[i - 1] != '.'
        invariant
            i <= cs@.len(),
            cs@ == target@,
            after_last_dot(cs@) == after_last_dot(cs@.subrange(0, i as int)) + cs@.subrange(
                i as int,
                cs@.len() as int,
            ),
        decreases i,
    {
        let ghost p = cs@.subrange(0, i as int);
        assert(p.drop_last() =~= cs@.subrange(0, i as int - 1));
        assert(cs@.subrange(i as int - 1, cs@.len() as int) =~= seq![p.last()] + cs@.subrange(
            i as int,
            cs@.len() as int,
        ));
        assert(after_last_dot(p) == after_last_dot(p.drop_last()).push(p.last()));
        assert(after_last_dot(p.drop_last()).push(p.last()) + cs@.subrange(i as int, cs@.len() as int)
            =~= after_last_dot(p.drop_last()) + cs@.subrange(i as int - 1, cs@.len() as int));
        i -= 1;
    }
    proof {
        if i == 0 {
            assert(cs@.subrange(0, 0) =~= Seq::<char>::empty());
        }
        assert(after_last_dot(cs@.subrange(0, i as int)) =~= Seq::<char>::empty());
        assert(after_last_dot(cs@) =~= cs@.subrange(i as int, cs@.len() as int));
    }
    let mut suffix: Vec<char> = Vec::new();
    let mut j: usize = i;
    while j < cs.len()
        invariant
            i <= j <= cs@.len(),
            suffix@ == cs@.subrange(i as int, j as int),
        decreases cs@.len() - j,
    {
        suffix.push(cs[j]);
        j += 1;
        assert(suffix@ =~= cs@.subrange(i as int, j as int));
    }
    let text = string_of(&suffix);
    string_of(&trim_chars(text.as_str()))
}

/// The text of a string literal without its delimiters.
pub fn literal_text_of(e: &LuaExpr) -> (r: Option<String>)
    ensures
        match literal_text(*e) {
            Some(t) => r matches Some(s) && s@ == t,
            None => r is None,
        },
{
    match e {
        LuaExpr::Str(t) => {
            let cs = chars_of(t.as_str());
            if cs.len() < 2 {
                return None;
            }
            let mut inner: Vec<char> = Vec::new();
            let mut i: usize = 1;
            while i < cs.len() - 1
                invariant
                    1 <= i <= cs@.len() - 1,
                    cs@.len() >= 2,
                    inner@ == cs@.subrange(1, i as int),
                decreases cs@.len() - 1 - i,
            {
                inner.push(cs[i]);
                i += 1;
                assert(inner@ =~= cs@.subrange(1, i as int));
            }
            Some(string_of(&inner))
        },
        _ => None,
    }
}

fn contains_char(set: &Vec<char>, c: char) -> (r: bool)
    ensures
        r == set@.contains(c),
{
    let mut i: usize = 0;
    while i < set.len()
        invariant
            i <= set@.len(),
            forall|j: int| 0 <= j < i ==> set@[j] != c,
        decreases set@.len() - i,
    {
        if set[i] == c {
            assert(set@[i as int] == c);
            return true;
        }
        i += 1;
    }
    false
}

/// `cs` without leading and trailing characters of `set`.
pub fn strip_set_of(cs: &Vec<char>, set: &Vec<char>) -> (r: Vec<char>)
    ensures
        r@ == strip_set(cs@, set@),
{
    let mut lo: usize = 0;
    let mut hi: usize = cs.len();
    assert(cs@.subrange(0, cs@.len() as int) =~= cs@);
    while lo < hi && (contains_char(set, cs[lo]) || contains_char(set, cs[hi - 1]))
        invariant
            lo <= hi <= cs@.len(),
            strip_set(cs@, set@) == strip_set(cs@.subrange(lo as int, hi as int), set@),
        decreases hi - lo,
    {
        let ghost w = cs@.subrange(lo as int, hi as int);
        if contains_char(set, cs[lo]) {
            assert(w.drop_first() =~= cs@.subrange(lo as int + 1, hi as int));
            lo += 1;
        } else {
            assert(w.drop_last() =~= cs@.subrange(lo as int, hi as int - 1));
            hi -= 1;
        }
    }
    let mut r: Vec<char> = Vec::new();
    let mut i: usize = lo;
    while i < hi
        invariant
            lo <= i <= hi,
            hi <= cs@.len(),
            r@ == cs@.subrange(lo as int, i as int),
        decreases hi - i,
    {
        r.push(cs[i]);
        i += 1;
        assert(r@ =~= cs@.subrange(lo as int, i as int));
    }
    r
}

fn sub_string(cs: &Vec<char>, from: usize, to: usize) -> (r: String)
    requires
        from <= to <= cs@.len(),
    ensures
        r@ == cs@.subrange(from as int, to as int),
{
    let mut v: Vec<char> = Vec::new();
    let mut i: usize = from;
    while i < to
        invariant
            from <= i <= to,
            to <= cs@.len(),
            v@ == cs@.subrange(from as int, i as int),
        decreases to - i,
    {
        v.push(cs[i]);
        i += 1;
        assert(v@ =~= cs@.subrange(from as int, i as int));
    }
    string_of(&v)
}

/// The two sides of a field written `name = value`, trimmed.
pub fn field_parts_of(source: &String) -> (r: Option<(Vec<char>, Vec<char>)>)
    ensures
        match field_parts(source@) {
            Some((n, v)) => r matches Some((a, b)) && a@ == n && b@ == v,
            None => r is None,
        },
{
    let cs = chars_of(source.as_str());
    let mut i: usize = 0;
    while i < cs.len() && cs[i] != '='
        invariant
            i <= cs@.len(),
            cs@ == source@,
            forall|j: int| 0 <= j < i ==> cs@[j] != '=',
        decreases cs@.len() - i,
    {
        i += 1;
    }
    proof {
        lemma_first_where(cs@, |c: char| is_equals(c));
        if i < cs@.len() {
            crate::input::lemma_only_first(cs@, |c: char| is_equals(c), i as int);
        } else {
            if let Some(k) = first_where(cs@, |c: char| is_equals(c)) {
                assert(cs@[k] != '=');
            }
        }
    }
    if i == cs.len() {
        return None;
    }
    let name = trim_chars(sub_string(&cs, 0, i).as_str());
    let value = trim_chars(sub_string(&cs, i + 1, cs.len()).as_str());
    Some((name, value))
}

fn chars_are(cs: &Vec<char>, t: &str) -> (r: bool)
    ensures
        r == (cs@ == t@),
{
    let s = string_of(cs);
    same_text(s.as_str(), t)
}

/// The value of the last field written `a = value` or `b = value`.
pub fn last_field_value_of(fields: &Vec<LuaField>, a: &str, b: &str, set: &Vec<char>) -> (r: Vec<char>)
    ensures
        r@ == last_field_value(fields@, a@, b@, set@),
{
    let mut r: Vec<char> = Vec::new();
    let mut i: usize = 0;
    while i < fields.len()
        invariant
            i <= fields@.len(),
            r@ == last_field_value(fields@.subrange(0, i as int), a@, b@, set@),
        decreases fields@.len() - i,
    {
        proof {
            let p = fields@.subrange(0, i as int + 1);
            assert(p.drop_last() =~= fields@.subrange(0, i as int));
        }
        if let Some((n, v)) = field_parts_of(&fields[i].source) {
            if chars_are(&n, a) || chars_are(&n, b) {
                r = strip_set_of(&v, set);
            }
        }
        i += 1;
    }
    assert(fields@.subrange(0, fields@.len() as int) =~= fields@);
    r
}

/// The shortcuts that the fields of a `keys` table give.
pub fn shortcuts_from(fields: &Vec<LuaField>) -> (r: Vec<Shortcut>)
    ensures
        shortcuts_are(shortcut_texts(fields@), r@),
{
    let qs = vec!['"', '\''];
    assert(qs@ =~= quotes());
    let mut r: Vec<Shortcut> = Vec::new();
    let mut i: usize = 0;
    while i < fields.len()
        invariant
            i <= fields@.len(),
            qs@ == quotes(),
            shortcuts_are(shortcut_texts(fields@.subrange(0, i as int)), r@),
        decreases fields@.len() - i,
    {
        proof {
            assert(fields@.subrange(0, i as int + 1).drop_last() =~= fields@.subrange(0, i as int));
        }
        let f = &fields[i];
        if let (FieldKey::Positional, LuaExpr::Table(inner)) = (&f.key, &f.value) {
            let key = last_field_value_of(inner, "key", "key", &qs);
            let cmd = last_field_value_of(inner, "cmd", "action", &qs);
            if key.len() > 0 && cmd.len() > 0 {
                r.push(Shortcut { key: string_of(&key), cmd: string_of(&cmd) });
            }
        }
        i += 1;
    }
    assert(fields@.subrange(0, fields@.len() as int) =~= fields@);
    r
}

/// The key bindings that the fields of a `bindings` table give.
pub fn bindings_from(fields: &Vec<LuaField>) -> (r: Vec<KeyBinding>)
    ensures
        bindings_are(binding_texts(fields@), r@),
{
    let qs = vec!['"', '\'', ',', ' '];
    assert(qs@ =~= quotes_and_separators());
    let mut r: Vec<KeyBinding> = Vec::new();
    let mut i: usize = 0;
    while i < fields.len()
        invariant
            i <= fields@.len(),
            qs@ == quotes_and_separators(),
            bindings_are(binding_texts(fields@.subrange(0, i as int)), r@),
        decreases fields@.len() - i,
    {
        proof {
            assert(fields@.subrange(0, i as int + 1).drop_last() =~= fields@.subrange(0, i as int));
        }
        let f = &fields[i];
        if let (FieldKey::Positional, LuaExpr::Table(inner)) = (&f.key, &f.value) {
            let key = last_field_value_of(inner, "key", "key", &qs);
            let action = last_field_value_of(inner, "action", "action", &qs);
            if key.len() > 0 && action.len() > 0 {
                let action_text = string_of(&action);
                match Action::from_str(action_text.as_str()) {
                    Some(a) => {
                        r.push(
                            KeyBinding {
                                event: InputEvent::Key {
                                    code: string_of(&key),
                                    ctrl: false,
                                    alt: false,
                                    shift: false,
                                },
                                target: BindingTarget::Action(a),
                            },
                        );
                    },
                    None => {},
                }
            }
        }
        i += 1;
    }
    assert(fields@.subrange(0, fields@.len() as int) =~= fields@);
    r
}

proof fn lemma_bindings_concat(
    t1: Seq<(Seq<char>, Seq<char>)>,
    b1: Seq<KeyBinding>,
    t2: Seq<(Seq<char>, Seq<char>)>,
    b2: Seq<KeyBinding>,
)
    requires
        bindings_are(t1, b1),
        bindings_are(t2, b2),
    ensures
        bindings_are(t1 + t2, b1 + b2),
{
    assert forall|j: int| 0 <= j < (b1 + b2).len() implies binding_is((t1 + t2)[j], #[trigger] (b1
        + b2)[j]) by {
        if j < b1.len() {
            assert(binding_is(t1[j], b1[j]));
        } else {
            assert(binding_is(t2[j - b1.len()], b2[j - b1.len()]));
        }
    }
}

/// The bindings of one mode's table.
fn mode_bindings_from(fields: &Vec<LuaField>) -> (r: Vec<KeyBinding>)
    ensures
        bindings_are(mode_binding_texts(fields@), r@),
{
    let mut r: Vec<KeyBinding> = Vec::new();
    let mut i: usize = 0;
    while i < fields.len()
        invariant
            i <= fields@.len(),
            bindings_are(mode_binding_texts(fields@.subrange(0, i as int)), r@),
        decreases fields@.len() - i,
    {
        proof {
            assert(fields@.subrange(0, i as int + 1).drop_last() =~= fields@.subrange(0, i as int));
        }
        let f = &fields[i];
        if let (FieldKey::Name(k), LuaExpr::Table(b)) = (&f.key, &f.value) {
            let key = trim_chars(k.as_str());
            if chars_are(&key, "bindings") || chars_are(&key, "keys") {
                let mut more = bindings_from(b);
                let ghost before = r@;
                let ghost added = more@;
                r.append(&mut more);
                proof {
                    lemma_bindings_concat(
                        mode_binding_texts(fields@.subrange(0, i as int)),
                        before,
                        binding_texts(b@),
                        added,
                    );
                }
            }
        }
        i += 1;
    }
    assert(fields@.subrange(0, fields@.len() as int) =~= fields@);
    r
}

/// The mode definitions that the fields of a `modes` table give.
pub fn modes_from(fields: &Vec<LuaField>) -> (r: Vec<ModeDefinition>)
    ensures
        modes_are(mode_texts(fields@), r@),
{
    let qs = vec!['"', '\'', ',', ' '];
    assert(qs@ =~= quotes_and_separators());
    let mut r: Vec<ModeDefinition> = Vec::new();
    let mut i: usize = 0;
    while i < fields.len()
        invariant
            i <= fields@.len(),
            qs@ == quotes_and_separators(),
            modes_are(mode_texts(fields@.subrange(0, i as int)), r@),
        decreases fields@.len() - i,
    {
        proof {
            assert(fields@.subrange(0, i as int + 1).drop_last() =~= fields@.subrange(0, i as int));
        }
        let f = &fields[i];
        if let (FieldKey::Positional, LuaExpr::Table(inner)) = (&f.key, &f.value) {
            let name = last_field_value_of(inner, "name", "mode", &qs);
            if name.len() > 0 {
                let bindings = mode_bindings_from(inner);
                let name_text = string_of(&name);
                match TerminalMode::from_str(name_text.as_str()) {
                    Some(mode) => {
                        r.push(ModeDefinition { mode, bindings });
                    },
                    None => {},
                }
            }
        }
        i += 1;
    }
    assert(fields@.subrange(0, fields@.len() as int) =~= fields@);
    r
}

/// Whether `u` is what the assignments say, later ones overriding earlier
/// ones: each text setting takes the last string literal given to it under
/// either of its names, each colour that string read as `#RRGGBB`, and
/// the shortcuts and modes the last table given to them.
pub open spec fn update_describes(assigns: Seq<LuaAssignment>, u: ConfigUpdate) -> bool {
    &&& option_text(u.prompt) == last_string(assigns, "axiomterm_prompt"@, "prompt"@)
    &&& u.prompt_color == last_color(assigns, "axiomterm_prompt_color"@, "prompt_color"@)
    &&& u.text_color == last_color(assigns, "axiomterm_text_color"@, "text_color"@)
    &&& option_text(u.window_title) == last_string(assigns, "axiomterm_window_title"@, "window_title"@)
    &&& option_text(u.default_cwd) == last_string(assigns, "default_cwd"@, "default_cwd"@)
    &&& u.directory_color == last_color(assigns, "directory_color"@, "directory_color"@)
    &&& match last_table(assigns, "axiomterm_shortcuts"@, "keys"@) {
        Some(fs) => u.shortcuts matches Some(v) && shortcuts_are(shortcut_texts(fs), v@),
        None => u.shortcuts is None,
    }
    &&& match last_table(assigns, "axiomterm_modes"@, "modes"@) {
        Some(fs) => u.mode_definitions matches Some(v) && modes_are(mode_texts(fs), v@),
        None => u.mode_definitions is None,
    }
}

pub open spec fn option_text(o: Option<String>) -> Option<Seq<char>> {
    match o {
        Some(s) => Some(s@),
        None => None,
    }
}

fn names_either(name: &String, a: &str, b: &str) -> (r: bool)
    ensures
        r == (name@ == a@ || name@ == b@),
{
    same_text(name.as_str(), a) || same_text(name.as_str(), b)
}

/// The settings that a configuration's assignments give. Numbers are left
/// to the caller.
pub fn config_update_from(assigns: &Vec<LuaAssignment>) -> (u: ConfigUpdate)
    ensures
        update_describes(assigns@, u),
{
    let mut u = ConfigUpdate::default();
    let mut i: usize = 0;
    while i < assigns.len()
        invariant
            i <= assigns@.len(),
            update_describes(assigns@.subrange(0, i as int), u),
        decreases assigns@.len() - i,
    {
        proof {
            assert(assigns@.subrange(0, i as int + 1).drop_last() =~= assigns@.subrange(0, i as int));
        }
        let a = &assigns[i];
        let name = setting_name_of(a.target.as_str());
        let text = literal_text_of(&a.value);
        if let Some(t) = &text {
            if names_either(&name, "axiomterm_prompt", "prompt") {
                u.prompt = Some(t.clone());
            }
            if names_either(&name, "axiomterm_prompt_color", "prompt_color") {
                u.prompt_color = parse_hex_color(t.as_str());
            }
            if names_either(&name, "axiomterm_text_color", "text_color") {
                u.text_color = parse_hex_color(t.as_str());
            }
            if names_either(&name, "axiomterm_window_title", "window_title") {
                u.window_title = Some(t.clone());
            }
            if names_either(&name, "default_cwd", "default_cwd") {
                u.default_cwd = Some(t.clone());
            }
            if names_either(&name, "directory_color", "directory_color") {
                u.directory_color = parse_hex_color(t.as_str());
            }
        }
        if let LuaExpr::Table(fields) = &a.value {
            if names_either(&name, "axiomterm_shortcuts", "keys") {
                u.shortcuts = Some(shortcuts_from(fields));
            }
            if names_either(&name, "axiomterm_modes", "modes") {
                u.mode_definitions = Some(modes_from(fields));
            }
        }
        i += 1;
    }
    assert(assigns@.subrange(0, assigns@.len() as int) =~= assigns@);
    u
}

} // verus!
