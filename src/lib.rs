//! A store of project-scaffolding templates keyed by tool, platform and
//! language, with name resolution through a registry of aliases and
//! rendering of a fixed set of project placeholders.
use vstd::prelude::*;

pub mod config;
pub mod create;
pub mod files;
pub mod generate;
pub mod template;

pub use config::{Category, Configuration, Element, Tool, UnknownEntity};
pub use files::{DevFile, FetchStep, StoreError};
pub use template::{render, RenderError, Template};

use template::{lower_of, to_lowercase};

verus! {

/// What the `config` command does.
#[derive(Debug, Clone, Copy, PartialEq, Eq)]
pub enum Action {
    /// Write the built-in registry over the stored one.
    Regenerate,
    /// Print the stored registry.
    Show,
    /// Print where the registry is stored.
    Path,
}

/// The action that a lower-case word names.
pub open spec fn action_named(word: Seq<char>) -> Option<Action> {
    if word == "regenerate"@ {
        Some(Action::Regenerate)
    } else if word == "show"@ {
        Some(Action::Show)
    } else if word == "path"@ {
        Some(Action::Path)
    } else {
        None
    }
}

impl Action {
    /// The action that `s` names, in any case.
    pub fn from_name(s: &str) -> (r: Option<Action>)
        ensures
            r == action_named(lower_of(s@)),
    {
        let word = to_lowercase(s);
        if word == "regenerate".to_owned() {
            Some(Action::Regenerate)
        } else if word == "show".to_owned() {
            Some(Action::Show)
        } else if word == "path".to_owned() {
            Some(Action::Path)
        } else {
            None
        }
    }
}

} // verus!
