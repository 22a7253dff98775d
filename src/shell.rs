//! The worker's side of the console: the shared shell state, what each
//! action does to it, the built-in commands that need no outside work, and
//! the merge of a configuration update.
use vstd::prelude::*;
use vstd::string::*;
use crate::command::{lemma_echo_hi_command, parse_command, parses_command, Command};
use crate::input::{mode_name, Action, BindingTarget, InputEvent, KeyBinding, ModeDefinition, TerminalMode};
use crate::types::{apply_operation, line_of, Line, Screen, ScreenOperation, Shortcut, TerminalColor};

verus! {

/// What the worker and the presentation side share.
pub struct ShellState {
    pub prompt: String,
    pub prompt_color: TerminalColor,
    pub text_color: TerminalColor,
    pub window_title_base: String,
    pub window_title_full: String,
    pub title_updated: bool,
    pub mode: TerminalMode,
    pub shortcuts: Vec<Shortcut>,
    pub current_dir: String,
    pub directory_color: TerminalColor,
    pub screen: Screen,
    pub input_buffer: String,
    pub mode_definitions: Vec<ModeDefinition>,
}

/// A field-wise update of the shell's settings: only the fields present
/// are applied.
pub struct ConfigUpdate {
    pub prompt: Option<String>,
    pub prompt_color: Option<TerminalColor>,
    pub text_color: Option<TerminalColor>,
    pub window_title: Option<String>,
    pub shortcuts: Option<Vec<Shortcut>>,
    pub default_cwd: Option<String>,
    pub directory_color: Option<TerminalColor>,
    pub mode_definitions: Option<Vec<ModeDefinition>>,
}

impl Default for ConfigUpdate {
    fn default() -> (u: Self)
        ensures
            u.prompt is None && u.prompt_color is None && u.text_color is None
                && u.window_title is None && u.shortcuts is None && u.default_cwd is None
                && u.directory_color is None && u.mode_definitions is None,
    {
        ConfigUpdate {
            prompt: None,
            prompt_color: None,
            text_color: None,
            window_title: None,
            shortcuts: None,
            default_cwd: None,
            directory_color: None,
            mode_definitions: None,
        }
    }
}

/// The window title: the mode's name in brackets, then the base title.
pub open spec fn window_title(mode: TerminalMode, base: Seq<char>) -> Seq<char> {
    "["@ + mode_name(mode) + "] "@ + base
}

/// What an action left for the caller: the screen operations it performed,
/// in order, and a command line to run.
pub struct WorkerStep {
    pub operations: Vec<ScreenOperation>,
    pub command: Option<String>,
}

/// What running a command line left: the screen operations performed, and
/// a command that needs outside work (files, processes, the environment).
pub struct CommandOutcome {
    pub operations: Vec<ScreenOperation>,
    pub pending: Option<Command>,
}

/// `ops` is one new line showing `text` in colour `color`.
pub open spec fn shows_line(ops: Seq<ScreenOperation>, text: Seq<char>, color: TerminalColor) -> bool {
    &&& ops.len() == 1
    &&& ops[0] matches ScreenOperation::PushLine(l) && l@ == line_of(text, color)
}

/// Whether `ops` and `pending` are what running `line` leaves, in a shell
/// whose directory is `dir` and text colour `color`: nothing for a blank
/// line; `pwd`, `clear`, `echo` and a usage line done on the screen; any
/// other command handed back untouched.
pub open spec fn command_outcome(
    line: Seq<char>,
    ops: Seq<ScreenOperation>,
    pending: Option<Command>,
    dir: Seq<char>,
    color: TerminalColor,
) -> bool {
    exists|c: Option<Command>| #[trigger] parses_command(line, c) && match c {
        None => ops.len() == 0 && pending is None,
        Some(Command::PrintDir) => pending is None && shows_line(ops, dir, color),
        Some(Command::ClearScreen) => pending is None && ops == seq![ScreenOperation::Clear],
        Some(Command::Echo(t)) => pending is None && shows_line(ops, t@, color),
        Some(Command::Usage(u)) => pending is None && shows_line(ops, u@, color),
        Some(other) => ops.len() == 0 && pending == Some(other),
    }
}

/// Typing `echo hi` and submitting it: the submit step echoes the prompt
/// and `echo hi` on a new line and hands back `echo hi`; running that line
/// then shows `hi` on one more line and leaves nothing pending.
pub proof fn lemma_echo_hi_session(
    before: ShellState,
    after: ShellState,
    step: WorkerStep,
    ops: Seq<ScreenOperation>,
    pending: Option<Command>,
)
    requires
        before.input_buffer@ == "echo hi"@,
        submit_step(before, after, step),
        command_outcome(step.command->Some_0@, ops, pending, after.current_dir@, after.text_color),
    ensures
        step.operations@.len() == 1,
        step.operations@[0] matches ScreenOperation::PushLine(l) && l@ == line_of(
            before.prompt@ + "echo hi"@,
            before.prompt_color,
        ),
        pending is None,
        shows_line(ops, "hi"@, after.text_color),
{
    let c = choose|c: Option<Command>| #[trigger] parses_command("echo hi"@, c) && match c {
        None => ops.len() == 0 && pending is None,
        Some(Command::PrintDir) => pending is None && shows_line(ops, after.current_dir@, after.text_color),
        Some(Command::ClearScreen) => pending is None && ops == seq![ScreenOperation::Clear],
        Some(Command::Echo(t)) => pending is None && shows_line(ops, t@, after.text_color),
        Some(Command::Usage(u)) => pending is None && shows_line(ops, u@, after.text_color),
        Some(other) => ops.len() == 0 && pending == Some(other),
    };
    lemma_echo_hi_command(c);
}

/// What `apply_action(Submit)` promises, from `old` to `new`, returning `r`.
pub open spec fn submit_step(old: ShellState, new: ShellState, r: WorkerStep) -> bool {
    &&& settings_kept(old, new)
    &&& new.mode == old.mode
    &&& new.window_title_full == old.window_title_full
    &&& new.title_updated == old.title_updated
    &&& new.input_buffer@.len() == 0
    &&& r.operations@.len() == 1
    &&& r.operations@[0] matches ScreenOperation::PushLine(l) && l@ == line_of(
        old.prompt@ + old.input_buffer@,
        old.prompt_color,
    )
    &&& new.screen@ == apply_operation(old.screen@, r.operations@[0])
    &&& r.command matches Some(c) && c@ == old.input_buffer@
}

/// The settings that actions and commands leave alone.
pub open spec fn settings_kept(a: ShellState, b: ShellState) -> bool {
    &&& b.prompt == a.prompt
    &&& b.prompt_color == a.prompt_color
    &&& b.text_color == a.text_color
    &&& b.window_title_base == a.window_title_base
    &&& b.shortcuts == a.shortcuts
    &&& b.current_dir == a.current_dir
    &&& b.directory_color == a.directory_color
    &&& b.mode_definitions == a.mode_definitions
}

/// `b` is `a` with nothing changed but the input buffer.
pub open spec fn only_buffer_changed(a: ShellState, b: ShellState) -> bool {
    &&& settings_kept(a, b)
    &&& b.mode == a.mode
    &&& b.window_title_full == a.window_title_full
    &&& b.title_updated == a.title_updated
    &&& b.screen@ == a.screen@
}

/// `b` is `a` with only the screen changed, by `ops` in order.
pub open spec fn only_screen_changed(a: ShellState, b: ShellState, ops: Seq<ScreenOperation>) -> bool {
    &&& settings_kept(a, b)
    &&& b.mode == a.mode
    &&& b.window_title_full == a.window_title_full
    &&& b.title_updated == a.title_updated
    &&& b.input_buffer@ == a.input_buffer@
    &&& b.screen@ == crate::types::replay(a.screen@, ops)
}

pub open spec fn single_binding(code: Seq<char>, target: BindingTarget, b: KeyBinding) -> bool {
    &&& b.event matches InputEvent::Key { code: c, ctrl, alt, shift } && c@ == code && !ctrl
        && !alt && !shift
    &&& b.target == target
}

fn key_binding(code: &str, action: Action) -> (b: KeyBinding)
    ensures
        single_binding(code@, BindingTarget::Action(action), b),
{
    KeyBinding {
        event: InputEvent::Key { code: code.to_owned(), ctrl: false, alt: false, shift: false },
        target: BindingTarget::Action(action),
    }
}

impl ShellState {
    /// The state at start-up: an empty screen in Insert mode, the prompt
    /// `> `, and bindings for Enter, Backspace and Escape in Insert mode and
    /// for I and Escape in Normal mode.
    pub fn new(current_dir: String) -> (s: Self)
        ensures
            s.prompt@ == "> "@,
            s.prompt_color == (TerminalColor { r: 0, g: 255, b: 0 }),
            s.text_color == (TerminalColor { r: 211, g: 211, b: 211 }),
            s.window_title_base@ == "axiomterm"@,
            s.window_title_full@ == window_title(TerminalMode::Insert, "axiomterm"@),
            !s.title_updated,
            s.mode is Insert,
            s.shortcuts@.len() == 0,
            s.current_dir == current_dir,
            s.directory_color == (TerminalColor { r: 100, g: 150, b: 255 }),
            s.screen@ == crate::types::empty_screen(),
            s.input_buffer@.len() == 0,
            s.mode_definitions@.len() == 2,
            s.mode_definitions@[0].mode is Insert,
            s.mode_definitions@[0].bindings@.len() == 3,
            single_binding("Enter"@, BindingTarget::Action(Action::Submit), s.mode_definitions@[0].bindings@[0]),
            single_binding("Backspace"@, BindingTarget::Action(Action::Backspace), s.mode_definitions@[0].bindings@[1]),
            single_binding("Escape"@, BindingTarget::Action(Action::ChangeMode(TerminalMode::Normal)), s.mode_definitions@[0].bindings@[2]),
            s.mode_definitions@[1].mode is Normal,
            s.mode_definitions@[1].bindings@.len() == 2,
            single_binding("I"@, BindingTarget::Action(Action::ChangeMode(TerminalMode::Insert)), s.mode_definitions@[1].bindings@[0]),
            single_binding("Escape"@, BindingTarget::Action(Action::Clear), s.mode_definitions@[1].bindings@[1]),
    {
        let mut insert_bindings: Vec<KeyBinding> = Vec::new();
        insert_bindings.push(key_binding("Enter", Action::Submit));
        insert_bindings.push(key_binding("Backspace", Action::Backspace));
        insert_bindings.push(key_binding("Escape", Action::ChangeMode(TerminalMode::Normal)));
        let mut normal_bindings: Vec<KeyBinding> = Vec::new();
        normal_bindings.push(key_binding("I", Action::ChangeMode(TerminalMode::Insert)));
        normal_bindings.push(key_binding("Escape", Action::Clear));
        let mut mode_definitions: Vec<ModeDefinition> = Vec::new();
        mode_definitions.push(ModeDefinition { mode: TerminalMode::Insert, bindings: insert_bindings });
        mode_definitions.push(ModeDefinition { mode: TerminalMode::Normal, bindings: normal_bindings });
        let base = "axiomterm".to_owned();
        let full = title_for(&TerminalMode::Insert, &base);
        ShellState {
            prompt: "> ".to_owned(),
            prompt_color: TerminalColor::green(),
            text_color: TerminalColor::light_gray(),
            window_title_base: base,
            window_title_full: full,
            title_updated: false,
            mode: TerminalMode::Insert,
            shortcuts: Vec::new(),
            current_dir,
            directory_color: TerminalColor::blue(),
            screen: Screen::new(),
            input_buffer: String::new(),
            mode_definitions,
        }
    }

    /// Shows `text` in colour `color` on a new line.
    pub fn push_text(&mut self, text: &str, color: TerminalColor) -> (op: ScreenOperation)
        ensures
            op matches ScreenOperation::PushLine(l) && l@ == line_of(text@, color),
            only_screen_changed(*old(self), *final(self), seq![op]),
    {
        let op = self.screen.push_line(Line::from_string(text, color));
        assert(crate::types::replay(old(self).screen@, seq![op]) == apply_operation(
            crate::types::replay(old(self).screen@, seq![op].drop_last()),
            op,
        ));
        assert(seq![op].drop_last() =~= Seq::<ScreenOperation>::empty());
        op
    }

    /// Carries out one action. Text editing changes the input buffer;
    /// `Submit` empties it, echoes the prompt and the line, and hands the
    /// line back to be run; `Clear` clears the screen; `ChangeMode` sets
    /// the mode and the window title; `RunCommand` hands its text back to be
    /// run. The other actions do nothing here.
    pub fn apply_action(&mut self, action: Action) -> (r: WorkerStep)
        ensures
            match action {
                Action::AppendChar(c) => {
                    &&& only_buffer_changed(*old(self), *final(self))
                    &&& final(self).input_buffer@ == old(self).input_buffer@.push(c)
                    &&& r.operations@.len() == 0 && r.command is None
                },
                Action::Backspace => {
                    &&& only_buffer_changed(*old(self), *final(self))
                    &&& final(self).input_buffer@ == if old(self).input_buffer@.len() > 0 {
                        old(self).input_buffer@.drop_last()
                    } else {
                        old(self).input_buffer@
                    }
                    &&& r.operations@.len() == 0 && r.command is None
                },
                Action::Submit => submit_step(*old(self), *final(self), r),
                Action::Clear => {
                    &&& settings_kept(*old(self), *final(self))
                    &&& final(self).mode == old(self).mode
                    &&& final(self).input_buffer@ == old(self).input_buffer@
                    &&& r.operations@ == seq![ScreenOperation::Clear]
                    &&& final(self).screen@ == apply_operation(old(self).screen@, ScreenOperation::Clear)
                    &&& r.command is None
                },
                Action::ChangeMode(m) => {
                    &&& settings_kept(*old(self), *final(self))
                    &&& final(self).mode == m
                    &&& final(self).window_title_full@ == window_title(m, old(self).window_title_base@)
                    &&& final(self).title_updated
                    &&& final(self).input_buffer@ == old(self).input_buffer@
                    &&& final(self).screen@ == old(self).screen@
                    &&& r.operations@.len() == 0 && r.command is None
                },
                Action::RunCommand(cmd) => {
                    &&& only_buffer_changed(*old(self), *final(self))
                    &&& final(self).input_buffer@ == old(self).input_buffer@
                    &&& r.operations@.len() == 0
                    &&& r.command == Some(cmd)
                },
                _ => {
                    &&& only_buffer_changed(*old(self), *final(self))
                    &&& final(self).input_buffer@ == old(self).input_buffer@
                    &&& r.operations@.len() == 0 && r.command is None
                },
            },
    {
        let mut operations: Vec<ScreenOperation> = Vec::new();
        match action {
            Action::AppendChar(c) => {
                self.input_buffer.push(c);
                WorkerStep { operations, command: None }
            },
            Action::Backspace => {
                let _ = self.input_buffer.pop();
                WorkerStep { operations, command: None }
            },
            Action::Submit => {
                let line = self.input_buffer.clone();
                self.input_buffer = String::new();
                let mut echo = self.prompt.clone();
                echo.append(line.as_str());
                let op = self.screen.push_line(Line::from_string(echo.as_str(), self.prompt_color));
                operations.push(op);
                WorkerStep { operations, command: Some(line) }
            },
            Action::Clear => {
                let op = self.screen.clear();
                operations.push(op);
                assert(operations@ =~= seq![ScreenOperation::Clear]);
                WorkerStep { operations, command: None }
            },
            Action::ChangeMode(m) => {
                self.window_title_full = title_for(&m, &self.window_title_base);
                self.mode = m;
                self.title_updated = true;
                WorkerStep { operations, command: None }
            },
            Action::RunCommand(cmd) => WorkerStep { operations, command: Some(cmd) },
            _ => WorkerStep { operations, command: None },
        }
    }

    /// Runs a command line: the built-ins that only touch the screen are
    /// carried out here; any other command is handed back to be performed.
    pub fn execute_command(&mut self, cmd_line: &str) -> (r: CommandOutcome)
        ensures
            only_screen_changed(*old(self), *final(self), r.operations@),
            command_outcome(
                cmd_line@,
                r.operations@,
                r.pending,
                old(self).current_dir@,
                old(self).text_color,
            ),
    {
        let mut operations: Vec<ScreenOperation> = Vec::new();
        let parsed = parse_command(cmd_line);
        let color = self.text_color;
        let pending = match parsed {
            None => None,
            Some(Command::PrintDir) => {
                let dir = self.current_dir.clone();
                operations.push(self.push_text(dir.as_str(), color));
                None
            },
            Some(Command::ClearScreen) => {
                operations.push(self.screen.clear());
                None
            },
            Some(Command::Echo(t)) => {
                operations.push(self.push_text(t.as_str(), color));
                None
            },
            Some(Command::Usage(u)) => {
                operations.push(self.push_text(u.as_str(), color));
                None
            },
            Some(other) => Some(other),
        };
        CommandOutcome { operations, pending }
    }

    /// Merges a configuration update: each field present replaces the
    /// current one, `current_dir` becomes `actual_cwd` when given, and the
    /// window title is rebuilt.
    pub fn apply_config(&mut self, update: ConfigUpdate, actual_cwd: Option<String>)
        ensures
            final(self).prompt == (match update.prompt { Some(p) => p, None => old(self).prompt }),
            final(self).prompt_color == (match update.prompt_color { Some(c) => c, None => old(self).prompt_color }),
            final(self).text_color == (match update.text_color { Some(c) => c, None => old(self).text_color }),
            final(self).window_title_base == (match update.window_title { Some(t) => t, None => old(self).window_title_base }),
            final(self).shortcuts == (match update.shortcuts { Some(v) => v, None => old(self).shortcuts }),
            final(self).directory_color == (match update.directory_color { Some(c) => c, None => old(self).directory_color }),
            final(self).mode_definitions == (match update.mode_definitions { Some(d) => d, None => old(self).mode_definitions }),
            final(self).current_dir == (match actual_cwd { Some(d) => d, None => old(self).current_dir }),
            final(self).window_title_full@ == window_title(final(self).mode, final(self).window_title_base@),
            final(self).title_updated,
            final(self).mode == old(self).mode,
            final(self).screen@ == old(self).screen@,
            final(self).input_buffer@ == old(self).input_buffer@,
    {
        if let Some(p) = update.prompt {
            self.prompt = p;
        }
        if let Some(c) = update.prompt_color {
            self.prompt_color = c;
        }
        if let Some(c) = update.text_color {
            self.text_color = c;
        }
        if let Some(t) = update.window_title {
            self.window_title_base = t;
        }
        if let Some(v) = update.shortcuts {
            self.shortcuts = v;
        }
        if let Some(c) = update.directory_color {
            self.directory_color = c;
        }
        if let Some(d) = update.mode_definitions {
            self.mode_definitions = d;
        }
        if let Some(d) = actual_cwd {
            self.current_dir = d;
        }
        self.window_title_full = title_for(&self.mode, &self.window_title_base);
        self.title_updated = true;
    }
}

/// How long after one configuration reload another may start.
pub const RELOAD_INTERVAL_MS: u64 = 500;

/// Whether a change to the configuration file, `elapsed_ms` after the last
/// reload, triggers a new one; signals in quicker succession collapse into
/// the reload already made.
pub fn reload_due(elapsed_ms: u64) -> (r: bool)
    ensures
        r == (elapsed_ms > RELOAD_INTERVAL_MS),
{
    elapsed_ms > RELOAD_INTERVAL_MS
}

/// The window title for `mode` over the base title `base`.
pub fn title_for(mode: &TerminalMode, base: &String) -> (r: String)
    ensures
        r@ == window_title(*mode, base@),
{
    let mut r = "[".to_owned();
    r.append(mode.name());
    r.append("] ");
    r.append(base.as_str());
    r
}

} // verus!
