//! The commands that a line of input can mean.

use vstd::prelude::*;
use vstd::string::*;
use crate::text::{same_text, starts_with, tail_from};

verus! {

/// What one line of a player's input asks for.
#[derive(Debug, Clone, PartialEq, Eq)]
pub enum Command {
    /// Take this name.
    SetName(String),
    /// List the commands.
    Help,
    /// Say these words to the room.
    Say(String),
    /// Describe the room.
    Look,
    /// Leave by the exit of this name.
    Go(String),
    /// Attack the first player whose name begins so.
    Attack(String),
    /// Nothing that the server knows: the line as it came.
    Unknown(String),
}

/// A command as contracts see it.
pub enum CommandView {
    SetName(Seq<char>),
    Help,
    Say(Seq<char>),
    Look,
    Go(Seq<char>),
    Attack(Seq<char>),
    Unknown(Seq<char>),
}

impl View for Command {
    type V = CommandView;

    open spec fn view(&self) -> CommandView {
        match self {
            Command::SetName(s) => CommandView::SetName(s@),
            Command::Help => CommandView::Help,
            Command::Say(s) => CommandView::Say(s@),
            Command::Look => CommandView::Look,
            Command::Go(s) => CommandView::Go(s@),
            Command::Attack(s) => CommandView::Attack(s@),
            Command::Unknown(s) => CommandView::Unknown(s@),
        }
    }
}

/// What `line` means when it comes from a player that has a name
/// (`named`) or has none yet. From a nameless player every line but the
/// empty one is the name it takes, and the empty one means nothing. From a
/// named player a line is a command word alone, a command word with one
/// blank and its argument, or unknown.
pub open spec fn parsed(line: Seq<char>, named: bool) -> Option<CommandView> {
    if !named {
        if line.len() == 0 {
            None
        } else {
            Some(CommandView::SetName(line))
        }
    } else if line == "help"@ {
        Some(CommandView::Help)
    } else if "say "@.is_prefix_of(line) {
        Some(CommandView::Say(line.skip("say "@.len() as int)))
    } else if line == "look"@ {
        Some(CommandView::Look)
    } else if "go "@.is_prefix_of(line) {
        Some(CommandView::Go(line.skip("go "@.len() as int)))
    } else if "attack "@.is_prefix_of(line) {
        Some(CommandView::Attack(line.skip("attack "@.len() as int)))
    } else {
        Some(CommandView::Unknown(line))
    }
}

impl Command {
    /// Reads `line` as the input of a player that has a name (`named`) or
    /// has none yet.
    pub fn parse(line: &str, named: bool) -> (r: Option<Command>)
        ensures
            match r {
                Some(c) => parsed(line@, named) == Some(c@),
                None => parsed(line@, named) is None,
            },
    {
        proof {
            reveal_strlit("say ");
            reveal_strlit("go ");
            reveal_strlit("attack ");
        }
        if !named {
            if line.unicode_len() == 0 {
                None
            } else {
                Some(Command::SetName(String::from_str(line)))
            }
        } else if same_text(line, "help") {
            Some(Command::Help)
        } else if starts_with(line, "say ") {
            Some(Command::Say(tail_from(line, 4)))
        } else if same_text(line, "look") {
            Some(Command::Look)
        } else if starts_with(line, "go ") {
            Some(Command::Go(tail_from(line, 3)))
        } else if starts_with(line, "attack ") {
            Some(Command::Attack(tail_from(line, 7)))
        } else {
            Some(Command::Unknown(String::from_str(line)))
        }
    }
}

} // verus!
