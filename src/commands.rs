//! What the daemon holds to answer its clients: the configuration, where it
//! was read from, the compositor handle and the scratchpad slots.

use vstd::prelude::*;
use crate::config::Config;
use crate::niri::NiriIpc;
use crate::scratchpads::ScratchpadManager;

verus! {

pub struct CommandHandler {
    config: Config,
    config_path: String,
    niri: NiriIpc,
    scratchpad_manager: ScratchpadManager,
}

impl CommandHandler {
    pub closed spec fn config_spec(&self) -> Config {
        self.config
    }

    pub closed spec fn config_path_spec(&self) -> Seq<char> {
        self.config_path@
    }

    pub closed spec fn manager_spec(&self) -> ScratchpadManager {
        self.scratchpad_manager
    }

    pub closed spec fn niri_spec(&self) -> NiriIpc {
        self.niri
    }

    /// A handler for `config` read from nowhere in particular.
    pub fn new(config: Config) -> (r: CommandHandler)
        ensures
            r.config_spec() == config,
            r.config_path_spec().len() == 0,
            r.manager_spec()@.len() == 0,
    {
        Self::with_config_path(config, String::new())
    }

    /// A handler for `config` read from `config_path`, talking to the
    /// compositor socket that the configuration names.
    pub fn with_config_path(config: Config, config_path: String) -> (r: CommandHandler)
        ensures
            r.config_spec() == config,
            r.config_path_spec() == config_path@,
            r.manager_spec()@.len() == 0,
            r.niri_spec().socket_path() == config.niri.socket_path,
    {
        let niri = NiriIpc::new(config.niri.socket_path.clone());
        let scratchpad_manager = ScratchpadManager::new(niri.clone());
        CommandHandler { config, config_path, niri, scratchpad_manager }
    }

    pub fn niri(&self) -> (r: &NiriIpc)
        ensures
            *r == self.niri_spec(),
    {
        &self.niri
    }

    pub fn scratchpad_manager(&mut self) -> (r: &mut ScratchpadManager)
        ensures
            *r == old(self).manager_spec(),
            final(self).manager_spec() == *final(r),
            final(self).config_spec() == old(self).config_spec(),
    {
        &mut self.scratchpad_manager
    }

    pub fn config(&self) -> (r: &Config)
        ensures
            *r == self.config_spec(),
    {
        &self.config
    }

    pub fn config_path(&self) -> (r: &String)
        ensures
            r@ == self.config_path_spec(),
    {
        &self.config_path
    }

    /// Takes a configuration read anew; the scratchpad slots keep.
    pub fn set_config(&mut self, config: Config)
        ensures
            final(self).config_spec() == config,
            final(self).manager_spec() == old(self).manager_spec(),
            final(self).config_path_spec() == old(self).config_path_spec(),
    {
        self.config = config;
    }
}

} // verus!
