//! Edits the settings overlay makes to the configuration file.
use vstd::prelude::*;

use crate::status::StatusIndicatorStyle;

verus! {

/// Where notifications are delivered.
#[derive(Clone, Copy, Debug, PartialEq, Eq, Structural)]
pub enum ToastDelivery {
    Off,
    Herdr,
    Terminal,
    System,
}

/// How the agent panel orders its rows.
#[derive(Clone, Copy, Debug, PartialEq, Eq, Structural)]
pub enum AgentPanelSortConfig {
    Spaces,
    Priority,
}

/// One setting changed from the client shell.
#[derive(Clone, Copy, Debug)]
pub enum ConfigEdit<'a> {
    Theme(&'a str),
    StatusIndicators(StatusIndicatorStyle),
    Sound(bool),
    ToastDelivery(ToastDelivery),
    AgentBorderLabels(bool),
    AgentPanelSort(AgentPanelSortConfig),
}

/// What an edit changes, as error messages name it.
pub open spec fn spec_description(edit: ConfigEdit) -> Seq<char> {
    match edit {
        ConfigEdit::Theme(_) => "theme"@,
        ConfigEdit::StatusIndicators(_) => "status indicators"@,
        ConfigEdit::Sound(_) => "sound setting"@,
        ConfigEdit::ToastDelivery(_) => "toast setting"@,
        ConfigEdit::AgentBorderLabels(_) => "agent border labels"@,
        ConfigEdit::AgentPanelSort(_) => "agent panel sort"@,
    }
}

impl ConfigEdit<'_> {
    /// What the edit changes, as error messages name it.
    pub fn description(self) -> (r: &'static str)
        ensures
            r@ == spec_description(self),
    {
        match self {
            ConfigEdit::Theme(_) => "theme",
            ConfigEdit::StatusIndicators(_) => "status indicators",
            ConfigEdit::Sound(_) => "sound setting",
            ConfigEdit::ToastDelivery(_) => "toast setting",
            ConfigEdit::AgentBorderLabels(_) => "agent border labels",
            ConfigEdit::AgentPanelSort(_) => "agent panel sort",
        }
    }
}

} // verus!
