//! Macro resolution through an embedded Lua state, and the metrics kept on
//! each macro's invocations.
use vstd::prelude::*;
use crate::input::{
    first_where, is_action_literal, lemma_first_where, lemma_only_first, Action, parses_action,
};
use crate::text::{decimal, decimal_string, same_text};
use vstd::string::*;
use mlua::{Function, Lua, Table, Value};

verus! {

/// The most actions that one macro invocation may emit.
pub const MAX_MACRO_ACTIONS: usize = 100;

/// Why a macro produced no actions.
#[derive(Clone, Debug)]
pub enum MacroError {
    NotFound(String),
    InvalidReturnType(String),
    ActionParseError { macro_name: String, value: String },
    ActionLimitExceeded { macro_name: String, limit: usize },
}

/// The text that describes an error.
pub open spec fn error_message(e: MacroError) -> Seq<char> {
    match e {
        MacroError::NotFound(n) => "Macro '"@ + n@ + "' is not defined"@,
        MacroError::InvalidReturnType(n) => "Macro '"@ + n@ + "' must return a list of Actions"@,
        MacroError::ActionParseError { macro_name, value } => "Invalid action '"@ + value@
            + "' in macro '"@ + macro_name@ + "'"@,
        MacroError::ActionLimitExceeded { macro_name, limit } => "Macro '"@ + macro_name@
            + "' exceeded max actions ("@ + decimal(limit as nat) + ")"@,
    }
}

impl MacroError {
    /// The text that describes this error.
    pub fn message(&self) -> (r: String)
        ensures
            r@ == error_message(*self),
    {
        match self {
            MacroError::NotFound(n) => {
                let mut r = "Macro '".to_owned();
                r.append(n.as_str());
                r.append("' is not defined");
                r
            },
            MacroError::InvalidReturnType(n) => {
                let mut r = "Macro '".to_owned();
                r.append(n.as_str());
                r.append("' must return a list of Actions");
                r
            },
            MacroError::ActionParseError { macro_name, value } => {
                let mut r = "Invalid action '".to_owned();
                r.append(value.as_str());
                r.append("' in macro '");
                r.append(macro_name.as_str());
                r.append("'");
                r
            },
            MacroError::ActionLimitExceeded { macro_name, limit } => {
                let mut r = "Macro '".to_owned();
                r.append(macro_name.as_str());
                r.append("' exceeded max actions (");
                r.append(decimal_string(*limit as u64).as_str());
                r.append(")");
                r
            },
        }
    }

    /// An equal error.
    pub fn duplicate(&self) -> (r: Self)
        ensures
            r == *self,
    {
        match self {
            MacroError::NotFound(n) => MacroError::NotFound(n.clone()),
            MacroError::InvalidReturnType(n) => MacroError::InvalidReturnType(n.clone()),
            MacroError::ActionParseError { macro_name, value } => MacroError::ActionParseError {
                macro_name: macro_name.clone(),
                value: value.clone(),
            },
            MacroError::ActionLimitExceeded { macro_name, limit } => {
                MacroError::ActionLimitExceeded { macro_name: macro_name.clone(), limit: *limit }
            },
        }
    }
}

/// What has been observed of one macro's invocations.
#[derive(Clone, Debug)]
pub struct MacroInvocation {
    pub macro_name: String,
    pub total_invocations: usize,
    pub total_actions_emitted: usize,
    pub max_actions_emitted: usize,
    pub last_error: Option<MacroError>,
}

impl MacroInvocation {
    /// An equal record.
    pub fn duplicate(&self) -> (r: Self)
        ensures
            r == *self,
    {
        MacroInvocation {
            macro_name: self.macro_name.clone(),
            total_invocations: self.total_invocations,
            total_actions_emitted: self.total_actions_emitted,
            max_actions_emitted: self.max_actions_emitted,
            last_error: match &self.last_error {
                Some(e) => Some(e.duplicate()),
                None => None,
            },
        }
    }
}

pub open spec fn saturating_add(a: usize, b: usize) -> usize {
    if a + b > usize::MAX {
        usize::MAX
    } else {
        (a + b) as usize
    }
}

pub open spec fn named(name: Seq<char>) -> spec_fn(MacroInvocation) -> bool {
    |m: MacroInvocation| m.macro_name@ == name
}

/// The position of the record kept for `name`.
pub open spec fn record_index(s: Seq<MacroInvocation>, name: Seq<char>) -> Option<int> {
    first_where(s, named(name))
}

/// `e` holds the counters `invocations`, `actions` and `max` after one more
/// invocation that emitted `count` actions, and no error.
pub open spec fn counts_success(
    invocations: usize,
    actions: usize,
    max: usize,
    e: MacroInvocation,
    count: usize,
) -> bool {
    &&& e.total_invocations == saturating_add(invocations, 1)
    &&& e.total_actions_emitted == saturating_add(actions, count)
    &&& e.max_actions_emitted == if max >= count { max } else { count }
    &&& e.last_error is None
}

/// `new` is `old` with the record of `name` changed by `step` from the
/// counters it had, or from zero counters in a record appended for it.
pub open spec fn records_step(
    old: Seq<MacroInvocation>,
    new: Seq<MacroInvocation>,
    name: Seq<char>,
    step: spec_fn(MacroInvocation, MacroInvocation) -> bool,
) -> bool {
    match record_index(old, name) {
        Some(i) => {
            &&& new.len() == old.len()
            &&& forall|j: int| 0 <= j < old.len() && j != i ==> new[j] == old[j]
            &&& new[i].macro_name == old[i].macro_name
            &&& step(old[i], new[i])
        },
        None => {
            &&& new.len() == old.len() + 1
            &&& forall|j: int| 0 <= j < old.len() ==> new[j] == old[j]
            &&& new.last().macro_name@ == name
            &&& step(
                MacroInvocation {
                    macro_name: new.last().macro_name,
                    total_invocations: 0,
                    total_actions_emitted: 0,
                    max_actions_emitted: 0,
                    last_error: None,
                },
                new.last(),
            )
        },
    }
}

pub open spec fn success_step(count: usize) -> spec_fn(MacroInvocation, MacroInvocation) -> bool {
    |a: MacroInvocation, b: MacroInvocation|
        counts_success(a.total_invocations, a.total_actions_emitted, a.max_actions_emitted, b, count)
}

pub open spec fn error_step(error: MacroError) -> spec_fn(MacroInvocation, MacroInvocation) -> bool {
    |a: MacroInvocation, b: MacroInvocation|
        {
            &&& b.total_invocations == saturating_add(a.total_invocations, 1)
            &&& b.total_actions_emitted == a.total_actions_emitted
            &&& b.max_actions_emitted == a.max_actions_emitted
            &&& b.last_error == Some(error)
        }
}

/// One record per macro name, in the order the names were first seen.
pub struct MacroMetrics {
    invocations: Vec<MacroInvocation>,
}

impl View for MacroMetrics {
    type V = Seq<MacroInvocation>;

    closed spec fn view(&self) -> Seq<MacroInvocation> {
        self.invocations@
    }
}

impl MacroMetrics {
    /// No two records share a name.
    pub open spec fn well_formed(&self) -> bool {
        forall|i: int, j: int|
            0 <= i < j < self@.len() ==> self@[i].macro_name@ != self@[j].macro_name@
    }

    pub fn new() -> (m: Self)
        ensures
            m@.len() == 0,
            m.well_formed(),
    {
        MacroMetrics { invocations: Vec::new() }
    }

    fn position(&self, macro_name: &str) -> (r: Option<usize>)
        ensures
            r matches Some(i) ==> record_index(self@, macro_name@) == Some(i as int),
            r is None ==> record_index(self@, macro_name@) is None,
    {
        let mut i: usize = 0;
        while i < self.invocations.len()
            invariant
                i <= self@.len(),
                forall|j: int| 0 <= j < i ==> self@[j].macro_name@ != macro_name@,
            decreases self@.len() - i,
        {
            if same_text(self.invocations[i].macro_name.as_str(), macro_name) {
                proof {
                    lemma_first_where(self@, named(macro_name@));
                    lemma_only_first(self@, named(macro_name@), i as int);
                }
                return Some(i);
            }
            i += 1;
        }
        proof {
            lemma_first_where(self@, named(macro_name@));
        }
        None
    }

    /// Makes sure `macro_name` has a record and returns its position.
    fn entry(&mut self, macro_name: &str) -> (r: usize)
        requires
            old(self).well_formed(),
        ensures
            final(self).well_formed(),
            r < final(self)@.len(),
            final(self)@[r as int].macro_name@ == macro_name@,
            record_index(final(self)@, macro_name@) == Some(r as int),
            match record_index(old(self)@, macro_name@) {
                Some(i) => i == r && final(self)@ == old(self)@,
                None => {
                    &&& final(self)@ == old(self)@.push(final(self)@.last())
                    &&& r == old(self)@.len()
                    &&& final(self)@.last().total_invocations == 0
                    &&& final(self)@.last().total_actions_emitted == 0
                    &&& final(self)@.last().max_actions_emitted == 0
                    &&& final(self)@.last().last_error is None
                },
            },
    {
        match self.position(macro_name) {
            Some(i) => {
                proof {
                    lemma_first_where(self@, named(macro_name@));
                }
                i
            },
            None => {
                proof {
                    lemma_first_where(self@, named(macro_name@));
                }
                self.invocations.push(
                    MacroInvocation {
                        macro_name: macro_name.to_owned(),
                        total_invocations: 0,
                        total_actions_emitted: 0,
                        max_actions_emitted: 0,
                        last_error: None,
                    },
                );
                let r = self.invocations.len() - 1;
                proof {
                    lemma_first_where(self@, named(macro_name@));
                    lemma_only_first(self@, named(macro_name@), r as int);
                }
                r
            },
        }
    }

    fn add_saturating(a: usize, b: usize) -> (r: usize)
        ensures
            r == saturating_add(a, b),
    {
        if a <= usize::MAX - b {
            a + b
        } else {
            usize::MAX
        }
    }

    /// Records an invocation that emitted `action_count` actions.
    pub fn record_success(&mut self, macro_name: &str, action_count: usize)
        requires
            old(self).well_formed(),
        ensures
            final(self).well_formed(),
            records_step(old(self)@, final(self)@, macro_name@, success_step(action_count)),
    {
        let i = self.entry(macro_name);
        let ghost mid = self@;
        let old_entry = self.invocations[i].duplicate();
        let max = if old_entry.max_actions_emitted >= action_count {
            old_entry.max_actions_emitted
        } else {
            action_count
        };
        let updated = MacroInvocation {
            macro_name: old_entry.macro_name,
            total_invocations: Self::add_saturating(old_entry.total_invocations, 1),
            total_actions_emitted: Self::add_saturating(old_entry.total_actions_emitted, action_count),
            max_actions_emitted: max,
            last_error: None,
        };
        self.invocations.set(i, updated);
        proof {
            assert forall|a: int, b: int| 0 <= a < b < self@.len() implies self@[a].macro_name@
                != self@[b].macro_name@ by {
                assert(mid[a].macro_name@ != mid[b].macro_name@);
            }
            lemma_first_where(self@, named(macro_name@));
            lemma_only_first(self@, named(macro_name@), i as int);
        }
    }

    /// Records an invocation that failed with `error`.
    pub fn record_error(&mut self, macro_name: &str, error: MacroError)
        requires
            old(self).well_formed(),
        ensures
            final(self).well_formed(),
            records_step(old(self)@, final(self)@, macro_name@, error_step(error)),
    {
        let i = self.entry(macro_name);
        let ghost mid = self@;
        let old_entry = self.invocations[i].duplicate();
        let updated = MacroInvocation {
            macro_name: old_entry.macro_name,
            total_invocations: Self::add_saturating(old_entry.total_invocations, 1),
            total_actions_emitted: old_entry.total_actions_emitted,
            max_actions_emitted: old_entry.max_actions_emitted,
            last_error: Some(error),
        };
        self.invocations.set(i, updated);
        proof {
            assert forall|a: int, b: int| 0 <= a < b < self@.len() implies self@[a].macro_name@
                != self@[b].macro_name@ by {
                assert(mid[a].macro_name@ != mid[b].macro_name@);
            }
            lemma_first_where(self@, named(macro_name@));
            lemma_only_first(self@, named(macro_name@), i as int);
        }
    }

    /// Every record, in the order the names were first seen.
    pub fn snapshot(&self) -> (r: Vec<MacroInvocation>)
        ensures
            r@ == self@,
    {
        let mut r: Vec<MacroInvocation> = Vec::new();
        let mut i: usize = 0;
        while i < self.invocations.len()
            invariant
                i <= self@.len(),
                r@ == self@.subrange(0, i as int),
            decreases self@.len() - i,
        {
            r.push(self.invocations[i].duplicate());
            i += 1;
            assert(r@ =~= self@.subrange(0, i as int));
        }
        assert(r@ =~= self@);
        r
    }

    /// The record of `macro_name`, if it was ever invoked.
    pub fn get(&self, macro_name: &str) -> (r: Option<MacroInvocation>)
        ensures
            match record_index(self@, macro_name@) {
                Some(i) => r == Some(self@[i]),
                None => r is None,
            },
    {
        match self.position(macro_name) {
            Some(i) => {
                proof {
                    lemma_first_where(self@, named(macro_name@));
                }
                Some(self.invocations[i].duplicate())
            },
            None => None,
        }
    }
}

/// The texts among `entries`, in order.
pub open spec fn present_texts(entries: Seq<Option<String>>) -> Seq<Seq<char>>
    decreases entries.len(),
{
    if entries.len() == 0 {
        seq![]
    } else {
        let rest = present_texts(entries.drop_last());
        match entries.last() {
            Some(t) => rest.push(t@),
            None => rest,
        }
    }
}

/// Whether the entry at position `j` of a macro's result stops it: past the
/// action limit, or not an action literal.
pub open spec fn stops_macro(texts: Seq<Seq<char>>, j: int) -> bool {
    j >= MAX_MACRO_ACTIONS || !is_action_literal(texts[j])
}

/// Whether `e` is the error that position `j` of `texts` raises for macro
/// `name`.
pub open spec fn stop_error(texts: Seq<Seq<char>>, j: int, name: Seq<char>, e: MacroError) -> bool {
    if j >= MAX_MACRO_ACTIONS {
        e matches MacroError::ActionLimitExceeded { macro_name, limit } && macro_name@ == name
            && limit == MAX_MACRO_ACTIONS
    } else {
        e matches MacroError::ActionParseError { macro_name, value } && macro_name@ == name
            && value@ == texts[j]
    }
}

/// Whether `r` is what the texts a macro returned give: their actions in
/// order when all are action literals and within the limit, else the error
/// of the first that stops it.
pub open spec fn macro_outcome(
    texts: Seq<Seq<char>>,
    name: Seq<char>,
    r: Result<Vec<Action>, MacroError>,
) -> bool {
    match r {
        Ok(actions) => {
            &&& forall|j: int| 0 <= j < texts.len() ==> !stops_macro(texts, j)
            &&& actions@.len() == texts.len()
            &&& forall|j: int| 0 <= j < texts.len() ==> parses_action(texts[j], Some(actions@[j]))
        },
        Err(e) => exists|j: int|
            0 <= j < texts.len() && stops_macro(texts, j) && stop_error(texts, j, name, e) && (
            forall|i: int| 0 <= i < j ==> !stops_macro(texts, i)),
    }
}

/// Turns the values a macro returned into actions; entries that are not
/// strings are skipped.
pub fn parse_action_table(macro_name: &str, entries: &Vec<Option<String>>) -> (r: Result<
    Vec<Action>,
    MacroError,
>)
    ensures
        macro_outcome(present_texts(entries@), macro_name@, r),
{
    let mut actions: Vec<Action> = Vec::new();
    let mut i: usize = 0;
    while i < entries.len()
        invariant
            i <= entries@.len(),
            ({
                let texts = present_texts(entries@.subrange(0, i as int));
                &&& actions@.len() == texts.len()
                &&& forall|j: int| 0 <= j < texts.len() ==> !stops_macro(texts, j)
                &&& forall|j: int| 0 <= j < texts.len() ==> parses_action(texts[j], Some(actions@[j]))
            }),
        decreases entries@.len() - i,
    {
        let ghost before = present_texts(entries@.subrange(0, i as int));
        proof {
            assert(entries@.subrange(0, i as int + 1).drop_last() =~= entries@.subrange(0, i as int));
        }
        if let Some(s) = &entries[i] {
            let ghost texts = before.push(s@);
            assert(present_texts(entries@.subrange(0, i as int + 1)) == texts);
            assert forall|j: int| 0 <= j < before.len() implies !stops_macro(texts, j) by {
                assert(texts[j] == before[j]);
                assert(!stops_macro(before, j));
            }
            if actions.len() >= MAX_MACRO_ACTIONS {
                let r: Result<Vec<Action>, MacroError> = Err(
                    MacroError::ActionLimitExceeded {
                        macro_name: macro_name.to_owned(),
                        limit: MAX_MACRO_ACTIONS,
                    },
                );
                proof {
                    lemma_outcome_settled(entries@, i as int + 1, texts.len() - 1, macro_name@, r);
                }
                return r;
            }
            match Action::from_str(s.as_str()) {
                Some(action) => {
                    actions.push(action);
                },
                None => {
                    let r: Result<Vec<Action>, MacroError> = Err(
                        MacroError::ActionParseError {
                            macro_name: macro_name.to_owned(),
                            value: s.clone(),
                        },
                    );
                    proof {
                        lemma_outcome_settled(entries@, i as int + 1, texts.len() - 1, macro_name@, r);
                    }
                    return r;
                },
            }
        }
        i += 1;
    }
    assert(entries@.subrange(0, entries@.len() as int) =~= entries@);
    Ok(actions)
}

/// The texts of a prefix of `entries` are a prefix of its texts.
proof fn lemma_texts_prefix(entries: Seq<Option<String>>, k: int)
    requires
        0 <= k <= entries.len(),
    ensures
        present_texts(entries.subrange(0, k)).len() <= present_texts(entries).len(),
        forall|j: int| 0 <= j < present_texts(entries.subrange(0, k)).len() ==> #[trigger] present_texts(entries)[j]
            == present_texts(entries.subrange(0, k))[j],
    decreases entries.len() - k,
{
    if k < entries.len() {
        lemma_texts_prefix(entries, k + 1);
        assert(entries.subrange(0, k + 1).drop_last() =~= entries.subrange(0, k));
    } else {
        assert(entries.subrange(0, k) =~= entries);
    }
}

/// An error met at the last text of a prefix is the outcome of the whole.
proof fn lemma_outcome_settled(
    entries: Seq<Option<String>>,
    k: int,
    j: int,
    name: Seq<char>,
    r: Result<Vec<Action>, MacroError>,
)
    requires
        0 <= k <= entries.len(),
        ({
            let texts = present_texts(entries.subrange(0, k));
            &&& j == texts.len() - 1
            &&& 0 <= j
            &&& forall|i: int| 0 <= i < j ==> !stops_macro(texts, i)
            &&& stops_macro(texts, j)
            &&& r matches Err(e) && stop_error(texts, j, name, e)
        }),
    ensures
        macro_outcome(present_texts(entries), name, r),
{
    lemma_texts_prefix(entries, k);
    let all = present_texts(entries);
    let texts = present_texts(entries.subrange(0, k));
    assert(all[j] == texts[j]);
    assert forall|i: int| 0 <= i < j implies !stops_macro(all, i) by {
        assert(all[i] == texts[i]);
        assert(!stops_macro(texts, i));
    }
    assert(stops_macro(all, j));
}

/// The texts among `entries`, as strings.
pub fn collect_texts(entries: &Vec<Option<String>>) -> (r: Vec<String>)
    ensures
        r@.map_values(|t: String| t@) == present_texts(entries@),
{
    let mut r: Vec<String> = Vec::new();
    let mut i: usize = 0;
    while i < entries.len()
        invariant
            i <= entries@.len(),
            r@.map_values(|t: String| t@) == present_texts(entries@.subrange(0, i as int)),
        decreases entries@.len() - i,
    {
        proof {
            assert(entries@.subrange(0, i as int + 1).drop_last() =~= entries@.subrange(0, i as int));
        }
        if let Some(t) = &entries[i] {
            let ghost before = r@;
            r.push(t.clone());
            assert(r@.map_values(|t: String| t@) =~= before.map_values(|t: String| t@).push(t@));
        }
        i += 1;
    }
    assert(entries@.subrange(0, entries@.len() as int) =~= entries@);
    r
}

#[verifier::external_type_specification]
#[verifier::external_body]
pub struct ExLua(Lua);

#[verifier::external_type_specification]
#[verifier::external_body]
pub struct ExTable(Table);

#[verifier::external_type_specification]
#[verifier::external_body]
pub struct ExFunction(Function);

/// Relies on `mlua::Lua::new`: a fresh Lua state with the safe standard libraries.
#[verifier::external_body]
fn new_lua() -> Lua {
    Lua::new()
}

/// Relies on `mlua::Lua::globals`: the table of global variables.
#[verifier::external_body]
fn globals_of(lua: &Lua) -> Table {
    lua.globals()
}

/// Relies on `mlua::Lua::create_table`: a new empty table, or `None` when
/// Lua fails to allocate one.
#[verifier::external_body]
fn new_table(lua: &Lua) -> Option<Table> {
    lua.create_table().ok()
}

/// Relies on `mlua::Table::set`: stores `value` under `key`; false when Lua
/// raised an error.
#[verifier::external_body]
fn set_field(table: &Table, key: &str, value: Table) -> bool {
    table.set(key, value).is_ok()
}

/// Relies on `mlua::Table::get` into a `Table`: the table stored under
/// `key`, or `None` when the value there is not a table.
#[verifier::external_body]
fn table_field(table: &Table, key: &str) -> Option<Table> {
    table.get::<Table>(key).ok()
}

/// Relies on `mlua::Table::get` into a `Value`: the function stored under
/// `key`, or `None` when there is none or lookup failed.
#[verifier::external_body]
fn function_field(table: &Table, key: &str) -> Option<Function> {
    match table.get::<Value>(key) {
        Ok(Value::Function(f)) => Some(f),
        _ => None,
    }
}

/// Relies on `mlua::Function::call` with no arguments: the table it
/// returned, or `None` when it raised an error or returned something else.
#[verifier::external_body]
fn call_for_table(f: &Function) -> Option<Table> {
    match f.call::<Value>(()) {
        Ok(Value::Table(t)) => Some(t),
        _ => None,
    }
}

/// Relies on `mlua::Table::pairs`: for each pair, in Lua's traversal order,
/// the value if it is a UTF-8 string, else `None`.
#[verifier::external_body]
fn string_values(table: &Table) -> Vec<Option<String>> {
    let mut out = Vec::new();
    for pair in table.pairs::<Value, Value>() {
        out.push(match pair {
            Ok((_, Value::String(s))) => s.to_str().ok().map(|v| v.to_string()),
            _ => None,
        });
    }
    out
}

/// Relies on `mlua::Table::pairs`: for each pair, in Lua's traversal order,
/// the key if it is a UTF-8 string, else `None`.
#[verifier::external_body]
fn string_keys(table: &Table) -> Vec<Option<String>> {
    let mut out = Vec::new();
    for pair in table.pairs::<Value, Value>() {
        out.push(match pair {
            Ok((Value::String(s), _)) => s.to_str().ok().map(|v| v.to_string()),
            _ => None,
        });
    }
    out
}

/// Relies on `mlua::Lua::load` and `mlua::Chunk::exec`: runs `code` as a
/// chunk, and gives Lua's error message when it fails.
#[verifier::external_body]
fn exec_chunk(lua: &Lua, code: &str) -> Result<(), String> {
    lua.load(code).exec().map_err(|e| e.to_string())
}

/// A Lua state whose global table `axiom.macros` maps macro names to
/// functions that return lists of action literals.
pub struct LuaEngine {
    lua: Lua,
    pub metrics: MacroMetrics,
}

/// The engine's macro metrics.
impl View for LuaEngine {
    type V = Seq<MacroInvocation>;

    closed spec fn view(&self) -> Seq<MacroInvocation> {
        self.metrics@
    }
}

impl LuaEngine {
    pub closed spec fn well_formed(&self) -> bool {
        self.metrics.well_formed()
    }

    pub fn new() -> (e: Self)
        ensures
            e.well_formed(),
            e@.len() == 0,
    {
        let lua = new_lua();
        let globals = globals_of(&lua);
        if let Some(ns) = new_table(&lua) {
            if let Some(macros) = new_table(&lua) {
                let _ = set_field(&ns, "macros", macros);
                let _ = set_field(&globals, "axiom", ns);
            }
        }
        LuaEngine { lua, metrics: MacroMetrics::new() }
    }

    /// Runs configuration code, which may define macros.
    pub fn load_config(&self, code: &str) -> (r: Result<(), String>) {
        exec_chunk(&self.lua, code)
    }

    fn macro_function(&self, name: &str) -> Option<Function> {
        let globals = globals_of(&self.lua);
        match table_field(&globals, "axiom") {
            Some(ns) => match table_field(&ns, "macros") {
                Some(macros) => function_field(&macros, name),
                None => None,
            },
            None => None,
        }
    }

    fn resolve_macro_internal(&self, name: &str) -> (r: Result<Vec<Action>, MacroError>)
        ensures
            resolution_outcome(name@, r),
    {
        let f = match self.macro_function(name) {
            Some(f) => f,
            None => return Err(MacroError::NotFound(name.to_owned())),
        };
        let table = match call_for_table(&f) {
            Some(t) => t,
            None => return Err(MacroError::InvalidReturnType(name.to_owned())),
        };
        let entries = string_values(&table);
        let r = parse_action_table(name, &entries);
        proof {
            lemma_outcome_bounded(present_texts(entries@), name@, r);
        }
        r
    }

    /// Expands macro `name` into its actions, and records the outcome in
    /// the metrics. On any error no action is returned.
    pub fn resolve_macro(&mut self, name: &str) -> (r: Result<Vec<Action>, MacroError>)
        requires
            old(self).well_formed(),
        ensures
            final(self).well_formed(),
            resolution_outcome(name@, r),
            match r {
                Ok(actions) => records_step(
                    old(self)@,
                    final(self)@,
                    name@,
                    success_step(actions@.len() as usize),
                ),
                Err(e) => records_step(old(self)@, final(self)@, name@, error_step(e)),
            },
    {
        let result = self.resolve_macro_internal(name);
        match &result {
            Ok(actions) => self.metrics.record_success(name, actions.len()),
            Err(e) => self.metrics.record_error(name, e.duplicate()),
        }
        result
    }

    /// The names of the defined macros, in Lua's traversal order.
    pub fn list_macros(&self) -> Vec<String> {
        let globals = globals_of(&self.lua);
        match table_field(&globals, "axiom") {
            Some(ns) => match table_field(&ns, "macros") {
                Some(macros) => collect_texts(&string_keys(&macros)),
                None => Vec::new(),
            },
            None => Vec::new(),
        }
    }

    /// Checks that macro `name` is defined, without running it.
    pub fn validate_macro(&self, name: &str) -> (r: Result<(), MacroError>)
        ensures
            r matches Err(e) ==> e matches MacroError::NotFound(n) && n@ == name@,
    {
        match self.macro_function(name) {
            Some(_) => Ok(()),
            None => Err(MacroError::NotFound(name.to_owned())),
        }
    }
}

/// What holds of a macro's resolution whatever its Lua code does: every
/// error names the macro, and a success stays within the action limit.
pub open spec fn resolution_outcome(name: Seq<char>, r: Result<Vec<Action>, MacroError>) -> bool {
    match r {
        Ok(actions) => actions@.len() <= MAX_MACRO_ACTIONS,
        Err(MacroError::NotFound(n)) => n@ == name,
        Err(MacroError::InvalidReturnType(n)) => n@ == name,
        Err(MacroError::ActionParseError { macro_name, .. }) => macro_name@ == name,
        Err(MacroError::ActionLimitExceeded { macro_name, limit }) => macro_name@ == name && limit
            == MAX_MACRO_ACTIONS,
    }
}

proof fn lemma_outcome_bounded(
    texts: Seq<Seq<char>>,
    name: Seq<char>,
    r: Result<Vec<Action>, MacroError>,
)
    requires
        macro_outcome(texts, name, r),
    ensures
        resolution_outcome(name, r),
{
    match r {
        Ok(actions) => {
            if texts.len() > MAX_MACRO_ACTIONS {
                assert(stops_macro(texts, MAX_MACRO_ACTIONS as int));
            }
        },
        Err(e) => {
            let j = choose|j: int|
                0 <= j < texts.len() && stops_macro(texts, j) && stop_error(texts, j, name, e) && (
                forall|i: int| 0 <= i < j ==> !stops_macro(texts, i));
        },
    }
}

/// A macro that emits the same number of actions on each of two
/// successful invocations, and had no record before, has a record of two
/// invocations, twice that many actions, and no error.
pub proof fn lemma_two_successes(
    m0: Seq<MacroInvocation>,
    m1: Seq<MacroInvocation>,
    m2: Seq<MacroInvocation>,
    name: Seq<char>,
    count: usize,
)
    requires
        record_index(m0, name) is None,
        records_step(m0, m1, name, success_step(count)),
        records_step(m1, m2, name, success_step(count)),
        2 * count <= usize::MAX,
    ensures
        record_index(m2, name) == Some(m0.len() as int),
        m2[m0.len() as int].total_invocations == 2,
        m2[m0.len() as int].total_actions_emitted == 2 * count,
        m2[m0.len() as int].max_actions_emitted == count,
        m2[m0.len() as int].last_error is None,
{
    let i = m0.len() as int;
    lemma_first_where(m0, named(name));
    assert forall|j: int| 0 <= j < i implies !named(name)(#[trigger] m1[j]) by {
        assert(m1[j] == m0[j]);
    }
    lemma_only_first(m1, named(name), i);
    assert forall|j: int| 0 <= j < i implies !named(name)(#[trigger] m2[j]) by {
        assert(m2[j] == m1[j]);
    }
    lemma_only_first(m2, named(name), i);
}

} // verus!
