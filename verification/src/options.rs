//! Inbound interaction payloads: option lists and the two registered
//! interaction kinds.

use vstd::prelude::*;

verus! {

/// A terminal argument value carried by a command option.
pub enum ArgValue {
    Text(String),
    Integer(i64),
    Boolean(bool),
    User(u64),
    Channel(u64),
    Role(u64),
}

/// The payload of one option node: either a nested option list tagged as a
/// subcommand or a subcommand group, or a terminal argument.
pub enum OptionValue {
    SubCommand(Vec<CommandDataOption>),
    SubCommandGroup(Vec<CommandDataOption>),
    Arg(ArgValue),
}

/// One node of an invocation's option list: a name and a value.
pub struct CommandDataOption {
    pub name: String,
    pub value: OptionValue,
}

impl CommandDataOption {
    /// True when this option is tagged as a subcommand or a subcommand group.
    pub open spec fn is_nested(&self) -> bool {
        self.value is SubCommand || self.value is SubCommandGroup
    }

    /// Runtime test for the tag that `is_nested` describes.
    pub fn has_nested_tag(&self) -> (b: bool)
        ensures
            b == self.is_nested(),
    {
        match &self.value {
            OptionValue::SubCommand(_) => true,
            OptionValue::SubCommandGroup(_) => true,
            OptionValue::Arg(_) => false,
        }
    }
}

/// A command invocation: the top-level command name and its option list.
pub struct CommandInvocation {
    pub name: String,
    pub options: Vec<CommandDataOption>,
}

/// An inbound event. The service registers for exactly these two kinds; any
/// other kind never reaches the library.
pub enum Interaction {
    Ping,
    ApplicationCommand(CommandInvocation),
}

} // verus!
