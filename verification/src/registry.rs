//! The slot that holds the configuration of the current compilation run.
//!
//! A run writes the slot once, before any stylesheet is compiled. While the
//! compiler evaluates a stylesheet it may ask for the configuration any number
//! of times; each time it gets the bridged value of what the slot holds.

use vstd::prelude::*;
use crate::value::{bridge, map_value, BridgedValue, ConfigModel, ConfigurationValue};

verus! {

/// The configuration that stylesheets can ask for.
#[derive(Debug)]
pub struct ConfigRegistry {
    current: ConfigurationValue,
}

impl View for ConfigRegistry {
    type V = ConfigModel;

    closed spec fn view(&self) -> ConfigModel {
        self.current@
    }
}

impl ConfigRegistry {
    /// A slot that no run has written yet: it holds null.
    pub fn new() -> (registry: ConfigRegistry)
        ensures
            registry@ == ConfigModel::Null,
    {
        ConfigRegistry { current: ConfigurationValue::Null }
    }

    /// Replaces what the slot holds. Nothing of the earlier value remains.
    pub fn set_current_config(&mut self, config: ConfigurationValue)
        ensures
            final(self)@ == config@,
    {
        self.current = config;
    }

    /// What the custom function returns to a stylesheet: the bridged value of
    /// the configuration in the slot. It never fails; a slot that was never
    /// written gives null.
    pub fn sass_get_config(&self) -> (value: BridgedValue)
        ensures
            value@ == bridge(self@),
    {
        map_value(&self.current)
    }
}

} // verus!
