//! One external process to run: argument vector, environment overrides,
//! wait/no-wait flag and post-run delay. The spawning itself is left to the
//! surrounding program, which reads the fields through the accessors here.

use crate::config::{CommandConfig, CommandView};
use crate::env_map::EnvMap;
use vstd::prelude::*;

verus! {

/// A runnable external command built from a validated configuration.
pub struct ExternalCommand {
    config: CommandConfig,
}

impl View for ExternalCommand {
    type V = CommandView;

    closed spec fn view(&self) -> CommandView {
        self.config@
    }
}

impl ExternalCommand {
    /// A command is valid when its argument vector is non-empty: the first
    /// element is the executable and doubles as the command's identity.
    pub open spec fn wf(&self) -> bool {
        self@.command.len() > 0
    }

    /// Validate a command configuration: an empty argument vector is
    /// rejected, anything else is taken over as it stands.
    pub fn from_config(config: &CommandConfig) -> (r: Result<Self, String>)
        ensures
            r is Err <==> config@.command.len() == 0,
            match r {
                Ok(c) => c@ == config@ && c.wf(),
                Err(_) => true,
            },
    {
        if config.command.len() == 0 {
            return Err("'command' array is empty".to_owned());
        }
        Ok(ExternalCommand { config: config.clone() })
    }

    /// The command's identity: its executable, the first argument.
    pub fn get_id(&self) -> (r: &String)
        requires
            self.wf(),
        ensures
            r@ == self@.command[0],
    {
        &self.config.command[0]
    }

    /// The configured post-run delay in seconds, zero when absent.
    pub fn get_delay(&self) -> (r: u64)
        ensures
            r == match self@.delay_after {
                Some(d) => d,
                None => 0u64,
            },
    {
        match self.config.delay_after {
            Some(delay) => delay,
            None => 0,
        }
    }

    /// Whether the caller must wait for the command to exit: only an explicit
    /// `true` asks for it.
    pub fn get_wait_for_exit(&self) -> (r: bool)
        ensures
            r == (self@.wait_for_exit == Some(true)),
    {
        match self.config.wait_for_exit {
            Some(b) => b,
            None => false,
        }
    }

    /// Whether a post-run delay was configured at all.
    pub fn has_delay(&self) -> (r: bool)
        ensures
            r == (self@.delay_after is Some),
    {
        match self.config.delay_after {
            Some(_) => true,
            None => false,
        }
    }

    /// The full argument vector; the first element is the executable.
    pub fn command_args(&self) -> (r: &Vec<String>)
        ensures
            r@.map_values(|s: String| s@) == self@.command,
    {
        &self.config.command
    }

    /// The environment overrides for this command.
    pub fn environment(&self) -> (r: &EnvMap)
        ensures
            r@ == self@.environment,
    {
        &self.config.environment
    }

    /// Copy every variable of `variables` into this command's environment;
    /// on a key collision the incoming value wins.
    pub fn add_environment_variables(&mut self, variables: &EnvMap)
        ensures
            final(self)@.environment == old(self)@.environment.union_prefer_right(variables@),
            final(self)@.command == old(self)@.command,
            final(self)@.wait_for_exit == old(self)@.wait_for_exit,
            final(self)@.delay_after == old(self)@.delay_after,
    {
        self.config.environment.merge_from(variables);
    }
}

impl Clone for ExternalCommand {
    /// An exact copy: the clone denotes the same command.
    fn clone(&self) -> (res: Self)
        ensures
            res@ == self@,
    {
        ExternalCommand { config: self.config.clone() }
    }
}

} // verus!
