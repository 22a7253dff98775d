//! Start-up settings that are fixed for a session: which backend and renderer
//! to use, the initial mode, scripting permissions and the window size.
use vstd::prelude::*;
use vstd::string::*;
use crate::text::same_text;
use crate::input::{first_where, lemma_first_where, lemma_only_first};

verus! {

#[derive(Debug, Clone)]
pub struct CoreConfig {
    pub backend: String,
    pub renderer: String,
    pub initial_mode: String,
}

#[derive(Debug, Clone, Copy, PartialEq, Eq, Structural)]
pub struct SecurityConfig {
    pub lua_allow_io: bool,
    pub lua_allow_network: bool,
}

#[derive(Debug, Clone, Copy, PartialEq, Eq, Structural)]
pub struct WindowConfig {
    pub initial_width: u32,
    pub initial_height: u32,
    pub transparent: bool,
}

#[derive(Debug, Clone)]
pub struct FixedConfig {
    pub core: CoreConfig,
    pub security: SecurityConfig,
    pub window: WindowConfig,
}

fn default_backend() -> (s: String)
    ensures
        s@ == "std"@,
{
    "std".to_owned()
}

fn default_renderer() -> (s: String)
    ensures
        s@ == "egui"@,
{
    "egui".to_owned()
}

fn default_initial_mode() -> (s: String)
    ensures
        s@ == "insert"@,
{
    "insert".to_owned()
}

fn default_false() -> (b: bool)
    ensures
        !b,
{
    false
}

fn default_true() -> (b: bool)
    ensures
        b,
{
    true
}

fn default_width() -> (w: u32)
    ensures
        w == 800,
{
    800
}

fn default_height() -> (h: u32)
    ensures
        h == 600,
{
    600
}

pub open spec fn is_default_core(c: CoreConfig) -> bool {
    &&& c.backend@ == "std"@
    &&& c.renderer@ == "egui"@
    &&& c.initial_mode@ == "insert"@
}

pub open spec fn default_security() -> SecurityConfig {
    SecurityConfig { lua_allow_io: false, lua_allow_network: false }
}

pub open spec fn default_window() -> WindowConfig {
    WindowConfig { initial_width: 800, initial_height: 600, transparent: true }
}

/// The `std` backend and `egui` renderer, starting in insert mode, with
/// scripting kept from I/O and the network, in a transparent 800 by 600
/// window.
pub open spec fn is_default_config(c: FixedConfig) -> bool {
    &&& is_default_core(c.core)
    &&& c.security == default_security()
    &&& c.window == default_window()
}

impl Default for CoreConfig {
    fn default() -> (c: Self)
        ensures
            is_default_core(c),
    {
        CoreConfig {
            backend: default_backend(),
            renderer: default_renderer(),
            initial_mode: default_initial_mode(),
        }
    }
}

impl Default for SecurityConfig {
    fn default() -> (c: Self)
        ensures
            c == default_security(),
    {
        SecurityConfig { lua_allow_io: default_false(), lua_allow_network: default_false() }
    }
}

impl Default for WindowConfig {
    fn default() -> (c: Self)
        ensures
            c == default_window(),
    {
        WindowConfig {
            initial_width: default_width(),
            initial_height: default_height(),
            transparent: default_true(),
        }
    }
}

impl Default for FixedConfig {
    fn default() -> (c: Self)
        ensures
            is_default_config(c),
    {
        FixedConfig {
            core: CoreConfig::default(),
            security: SecurityConfig::default(),
            window: WindowConfig::default(),
        }
    }
}

/// What one place where a configuration file may stand held.
pub enum ConfigFile {
    /// No file there.
    Missing,
    /// A file that was read and parsed.
    Loaded(FixedConfig),
    /// A file that could not be read or parsed, with the reason.
    Invalid(String),
}

impl ConfigFile {
    pub fn is_missing(&self) -> (r: bool)
        ensures
            r == self is Missing,
    {
        match self {
            ConfigFile::Missing => true,
            _ => false,
        }
    }
}

pub open spec fn holds_file() -> spec_fn(ConfigFile) -> bool {
    |f: ConfigFile| !(f is Missing)
}

/// The problem with a configuration, checked in order: the backend must be
/// `std`, the renderer `egui`, and the initial mode `insert`, `normal` or
/// `visual`.
pub open spec fn config_problem(c: FixedConfig) -> Option<Seq<char>> {
    let backend = c.core.backend@;
    let renderer = c.core.renderer@;
    let mode = c.core.initial_mode@;
    if backend == "wasm"@ {
        Some("WASM backend not yet implemented"@)
    } else if backend == "remote"@ {
        Some("Remote backend not yet implemented"@)
    } else if backend != "std"@ {
        Some("Unknown backend: "@ + backend)
    } else if renderer == "headless"@ {
        Some("Headless renderer not yet implemented"@)
    } else if renderer != "egui"@ {
        Some("Unknown renderer: "@ + renderer)
    } else if mode != "insert"@ && mode != "normal"@ && mode != "visual"@ {
        Some("Unknown initial mode: "@ + mode)
    } else {
        None
    }
}

fn message_with(prefix: &str, value: &String) -> (r: String)
    ensures
        r@ == prefix@ + value@,
{
    let mut r = prefix.to_owned();
    r.append(value.as_str());
    r
}

impl FixedConfig {
    /// The configuration of the first place that holds a file, in the order
    /// given, or the default one when none does.
    pub fn load(candidates: Vec<ConfigFile>) -> (r: Result<Self, String>)
        ensures
            match first_where(candidates@, holds_file()) {
                Some(i) => match candidates@[i] {
                    ConfigFile::Loaded(c) => r == Ok::<FixedConfig, String>(c),
                    ConfigFile::Invalid(e) => r == Err::<FixedConfig, String>(e),
                    ConfigFile::Missing => false,
                },
                None => r matches Ok(c) && is_default_config(c),
            },
    {
        let mut i: usize = 0;
        while i < candidates.len() && candidates[i].is_missing()
            invariant
                i <= candidates@.len(),
                forall|j: int| 0 <= j < i ==> candidates@[j] is Missing,
            decreases candidates@.len() - i,
        {
            i += 1;
        }
        if i == candidates.len() {
            proof {
                lemma_first_where(candidates@, holds_file());
                if let Some(k) = first_where(candidates@, holds_file()) {
                    assert(candidates@[k] is Missing);
                }
            }
            return Ok(Self::default());
        }
        proof {
            lemma_only_first(candidates@, holds_file(), i as int);
        }
        let mut owned = candidates;
        match owned.remove(i) {
            ConfigFile::Loaded(c) => Ok(c),
            ConfigFile::Invalid(e) => Err(e),
            // Not reached: position `i` holds a file.
            ConfigFile::Missing => Ok(Self::default()),
        }
    }

    /// Checks that the configuration names what this build provides.
    pub fn validate(&self) -> (r: Result<(), String>)
        ensures
            match config_problem(*self) {
                None => r is Ok,
                Some(m) => r matches Err(e) && e@ == m,
            },
    {
        let backend = self.core.backend.as_str();
        if same_text(backend, "wasm") {
            return Err("WASM backend not yet implemented".to_owned());
        } else if same_text(backend, "remote") {
            return Err("Remote backend not yet implemented".to_owned());
        } else if !same_text(backend, "std") {
            return Err(message_with("Unknown backend: ", &self.core.backend));
        }
        let renderer = self.core.renderer.as_str();
        if same_text(renderer, "headless") {
            return Err("Headless renderer not yet implemented".to_owned());
        } else if !same_text(renderer, "egui") {
            return Err(message_with("Unknown renderer: ", &self.core.renderer));
        }
        let mode = self.core.initial_mode.as_str();
        if !same_text(mode, "insert") && !same_text(mode, "normal") && !same_text(mode, "visual") {
            return Err(message_with("Unknown initial mode: ", &self.core.initial_mode));
        }
        Ok(())
    }
}

} // verus!
