//! What the Terminal front end does with its arguments and input lines.
use crate::commands::{expand_terminal, spec_expand, views, TERMINAL_COMMANDS, TERMINAL_FULL_ONLY};
use crate::text::{spec_trim, starts_with, str_eq, trim};
use vstd::prelude::*;

verus! {

/// The privacy level chosen on the command line.
#[derive(Debug, Clone, Copy, PartialEq, Eq, Structural)]
pub enum PrivacyArg {
    /// May be sent, redacted, to a model.
    Normal,
    /// Never sent to a model.
    NoUpload,
}

impl PrivacyArg {
    /// The privacy level stored with a log.
    pub fn as_str(self) -> (r: &'static str)
        ensures
            r@ == match self {
                PrivacyArg::Normal => "normal"@,
                PrivacyArg::NoUpload => "no_upload"@,
            },
    {
        match self {
            PrivacyArg::Normal => "normal",
            PrivacyArg::NoUpload => "no_upload",
        }
    }
}

/// What a line typed in interactive mode asks for.
#[derive(Debug, PartialEq, Eq)]
pub enum InteractiveAction {
    /// An empty line: ask again.
    Skip,
    /// `/exit` or `/quit`.
    Exit,
    /// `x` or `/x`: undo the last storage decision.
    Reverse,
    /// `/recent`.
    Recent,
    /// `/connections`.
    Connections,
    /// `/delete REFERENCE` or `delete REFERENCE`.
    Delete { reference: String },
    /// Anything else is an input for the storage classifier.
    Ingest { text: String },
}

/// The kind of an action and its argument, for specifications.
pub open spec fn action_view(a: InteractiveAction) -> (int, Seq<char>) {
    match a {
        InteractiveAction::Skip => (0, Seq::empty()),
        InteractiveAction::Exit => (1, Seq::empty()),
        InteractiveAction::Reverse => (2, Seq::empty()),
        InteractiveAction::Recent => (3, Seq::empty()),
        InteractiveAction::Connections => (4, Seq::empty()),
        InteractiveAction::Delete { reference } => (5, reference@),
        InteractiveAction::Ingest { text } => (6, text@),
    }
}

/// The action of an input line: trimmed, then expanded as a Terminal command.
pub open spec fn spec_interactive(line: Seq<char>) -> (int, Seq<char>) {
    let t = spec_expand(spec_trim(line), views(TERMINAL_COMMANDS@), views(TERMINAL_FULL_ONLY@));
    if t.len() == 0 {
        (0, Seq::empty())
    } else if t == "/exit"@ || t == "/quit"@ {
        (1, Seq::empty())
    } else if t == "x"@ || t == "/x"@ {
        (2, Seq::empty())
    } else if t == "/recent"@ {
        (3, Seq::empty())
    } else if t == "/connections"@ {
        (4, Seq::empty())
    } else if "/delete "@.is_prefix_of(t) {
        (5, spec_trim(t.skip(8)))
    } else if "delete "@.is_prefix_of(t) {
        (5, spec_trim(t.skip(7)))
    } else {
        (6, t)
    }
}

/// Decides what an interactive input line asks for.
pub fn interactive_action(line: &str) -> (r: InteractiveAction)
    ensures
        action_view(r) == spec_interactive(line@),
{
    let expanded = expand_terminal(trim(line));
    let t = expanded.as_str();
    let n = t.unicode_len();
    if n == 0 {
        return InteractiveAction::Skip;
    }
    if str_eq(t, "/exit") || str_eq(t, "/quit") {
        return InteractiveAction::Exit;
    }
    if str_eq(t, "x") || str_eq(t, "/x") {
        return InteractiveAction::Reverse;
    }
    if str_eq(t, "/recent") {
        return InteractiveAction::Recent;
    }
    if str_eq(t, "/connections") {
        return InteractiveAction::Connections;
    }
    if starts_with(t, "/delete ") {
        proof {
            reveal_strlit("/delete ");
        }
        let tail = t.substring_char(8, n);
        assert(tail@ =~= t@.skip(8));
        return InteractiveAction::Delete { reference: trim(tail).to_owned() };
    }
    if starts_with(t, "delete ") {
        proof {
            reveal_strlit("delete ");
        }
        let tail = t.substring_char(7, n);
        assert(tail@ =~= t@.skip(7));
        return InteractiveAction::Delete { reference: trim(tail).to_owned() };
    }
    InteractiveAction::Ingest { text: expanded }
}

/// How many characters of a log id the interactive undo messages show.
pub const UNDO_ID_CHARS: usize = 4;

} // verus!
