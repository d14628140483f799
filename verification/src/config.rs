//! Configuration data for games, mod sets and commands, as plain values.
//!
//! The surrounding program parses its configuration files and hands the
//! result over in these types; every type has a spec-level image (its view)
//! that the contracts of the resolution engine are stated over.

use crate::env_map::EnvMap;
use crate::strutil::clone_strings;
use vstd::prelude::*;

verus! {

/// Spec-level image of a list of strings.
pub open spec fn strs_view(s: Seq<String>) -> Seq<Seq<char>> {
    s.map_values(|x: String| x@)
}

/// Spec-level image of an optional string.
pub open spec fn opt_str_view(s: Option<String>) -> Option<Seq<char>> {
    match s {
        Some(x) => Some(x@),
        None => None,
    }
}

/// One external command as configured: the argument vector (first element is
/// the executable), extra environment variables, whether to wait for it, and
/// an optional delay after starting it.
pub struct CommandConfig {
    /// Wait for the command to exit before continuing.
    pub wait_for_exit: Option<bool>,
    /// Delay following work for this many seconds.
    pub delay_after: Option<u64>,
    /// Command argument vector.
    pub command: Vec<String>,
    /// Additional environment variables for the command.
    pub environment: EnvMap,
}

/// Spec-level image of a command configuration.
pub struct CommandView {
    pub wait_for_exit: Option<bool>,
    pub delay_after: Option<u64>,
    pub command: Seq<Seq<char>>,
    pub environment: Map<Seq<char>, Seq<char>>,
}

impl View for CommandConfig {
    type V = CommandView;

    open spec fn view(&self) -> CommandView {
        CommandView {
            wait_for_exit: self.wait_for_exit,
            delay_after: self.delay_after,
            command: strs_view(self.command@),
            environment: self.environment@,
        }
    }
}

impl Clone for CommandConfig {
    /// An exact copy: the clone denotes the same command.
    fn clone(&self) -> (res: Self)
        ensures
            res@ == self@,
    {
        CommandConfig {
            wait_for_exit: self.wait_for_exit,
            delay_after: self.delay_after,
            command: clone_strings(&self.command),
            environment: self.environment.clone(),
        }
    }
}

/// One named mod set as configured: an ordered member list (each entry names
/// either a leaf mod folder or another set), an optional named command, the
/// writability and pre-command flags, and environment variables.
pub struct ModSetConfig {
    /// Run pre-commands after mounting.
    pub run_pre_command: Option<bool>,
    /// Name of a shared command to run after mounting.
    pub command: Option<String>,
    /// Names of mods and sets to include, in order.
    pub mods: Vec<String>,
    /// Mount the overlay with an upper directory.
    pub writable: Option<bool>,
    /// Environment to set for a wrapped command.
    pub environment: EnvMap,
}

/// Spec-level image of a mod-set configuration.
pub struct ModSetConfigView {
    pub run_pre_command: Option<bool>,
    pub command: Option<Seq<char>>,
    pub mods: Seq<Seq<char>>,
    pub writable: Option<bool>,
    pub environment: Map<Seq<char>, Seq<char>>,
}

impl View for ModSetConfig {
    type V = ModSetConfigView;

    open spec fn view(&self) -> ModSetConfigView {
        ModSetConfigView {
            run_pre_command: self.run_pre_command,
            command: opt_str_view(self.command),
            mods: strs_view(self.mods@),
            writable: self.writable,
            environment: self.environment@,
        }
    }
}

impl Clone for ModSetConfig {
    /// An exact copy: the clone denotes the same set configuration.
    fn clone(&self) -> (res: Self)
        ensures
            res@ == self@,
    {
        let command = match &self.command {
            Some(c) => Some(c.clone()),
            None => None,
        };
        ModSetConfig {
            run_pre_command: self.run_pre_command,
            command,
            mods: clone_strings(&self.mods),
            writable: self.writable,
            environment: self.environment.clone(),
        }
    }
}

/// One game's configuration: paths, flags, generic pre-commands, the shared
/// named-command table, and the named mod sets.
pub struct GameConfig {
    /// Name of the set to activate; absent or empty means none.
    pub active: Option<String>,
    /// Path to the game folder.
    pub path: Option<String>,
    /// Path to the folder containing the mod folders.
    pub mod_root_path: Option<String>,
    /// Mount the overlay with an upper directory.
    pub writable: Option<bool>,
    /// Run pre-commands after mounting.
    pub run_pre_command: Option<bool>,
    /// Generic pre-commands, in order.
    pub pre_command: Vec<CommandConfig>,
    /// Shared named commands, by name.
    pub commands: Vec<(String, CommandConfig)>,
    /// All available mod sets, by name.
    pub sets: Vec<(String, ModSetConfig)>,
}

/// Spec-level image of a game configuration.
pub struct GameConfigView {
    pub active: Option<Seq<char>>,
    pub path: Option<Seq<char>>,
    pub mod_root_path: Option<Seq<char>>,
    pub writable: Option<bool>,
    pub run_pre_command: Option<bool>,
    pub pre_command: Seq<CommandView>,
    pub commands: Seq<(Seq<char>, CommandView)>,
    pub sets: Seq<(Seq<char>, ModSetConfigView)>,
}

impl View for GameConfig {
    type V = GameConfigView;

    open spec fn view(&self) -> GameConfigView {
        GameConfigView {
            active: opt_str_view(self.active),
            path: opt_str_view(self.path),
            mod_root_path: opt_str_view(self.mod_root_path),
            writable: self.writable,
            run_pre_command: self.run_pre_command,
            pre_command: self.pre_command@.map_values(|c: CommandConfig| c@),
            commands: self.commands@.map_values(|p: (String, CommandConfig)| (p.0@, p.1@)),
            sets: self.sets@.map_values(|p: (String, ModSetConfig)| (p.0@, p.1@)),
        }
    }
}

/// The first entry of `s` named `name`, if any.
pub open spec fn spec_find<T>(s: Seq<(Seq<char>, T)>, name: Seq<char>) -> Option<T>
    decreases s.len(),
{
    if s.len() == 0 {
        None
    } else if s[0].0 == name {
        Some(s[0].1)
    } else {
        spec_find(s.skip(1), name)
    }
}

/// `spec_find` restated over positions: a hit at `i` with no hit before it
/// pins the result, and no hit at all pins `None`.
pub proof fn lemma_spec_find_at<T>(s: Seq<(Seq<char>, T)>, name: Seq<char>, i: int)
    requires
        0 <= i < s.len(),
        s[i].0 == name,
        forall|j: int| 0 <= j < i ==> s[j].0 != name,
    ensures
        spec_find(s, name) == Some(s[i].1),
    decreases i,
{
    if i == 0 {
    } else {
        assert(s.skip(1)[i - 1] == s[i]);
        assert(forall|j: int| 0 <= j < i - 1 ==> s.skip(1)[j] == s[j + 1]);
        lemma_spec_find_at(s.skip(1), name, i - 1);
    }
}

/// When no entry is named `name`, `spec_find` gives `None`.
pub proof fn lemma_spec_find_none<T>(s: Seq<(Seq<char>, T)>, name: Seq<char>)
    requires
        forall|j: int| 0 <= j < s.len() ==> s[j].0 != name,
    ensures
        spec_find(s, name) is None,
    decreases s.len(),
{
    if s.len() > 0 {
        assert(forall|j: int| 0 <= j < s.len() - 1 ==> s.skip(1)[j] == s[j + 1]);
        lemma_spec_find_none(s.skip(1), name);
    }
}

impl GameConfig {
    /// Look a set up by name in the set table.
    pub fn find_set(&self, name: &String) -> (r: Option<&ModSetConfig>)
        ensures
            match r {
                Some(sc) => spec_find(self@.sets, name@) == Some(sc@),
                None => spec_find(self@.sets, name@) is None,
            },
    {
        let len = self.sets.len();
        let mut i: usize = 0;
        while i < len
            invariant
                len == self.sets@.len(),
                i <= len,
                forall|j: int| 0 <= j < i ==> self@.sets[j].0 != name@,
            decreases len - i,
        {
            if self.sets[i].0 == *name {
                proof {
                    lemma_spec_find_at(self@.sets, name@, i as int);
                }
                return Some(&self.sets[i].1);
            }
            i = i + 1;
        }
        proof {
            lemma_spec_find_none(self@.sets, name@);
        }
        None
    }

    /// Look a shared command up by name in the command table.
    pub fn find_command(&self, name: &String) -> (r: Option<&CommandConfig>)
        ensures
            match r {
                Some(cc) => spec_find(self@.commands, name@) == Some(cc@),
                None => spec_find(self@.commands, name@) is None,
            },
    {
        let len = self.commands.len();
        let mut i: usize = 0;
        while i < len
            invariant
                len == self.commands@.len(),
                i <= len,
                forall|j: int| 0 <= j < i ==> self@.commands[j].0 != name@,
            decreases len - i,
        {
            if self.commands[i].0 == *name {
                proof {
                    lemma_spec_find_at(self@.commands, name@, i as int);
                }
                return Some(&self.commands[i].1);
            }
            i = i + 1;
        }
        proof {
            lemma_spec_find_none(self@.commands, name@);
        }
        None
    }
}

} // verus!
