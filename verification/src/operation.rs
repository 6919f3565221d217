//! An operation on the persistent environment, one step at a time.
//!
//! The library decides and the caller acts. An [`Operation`] always has one
//! pending [`Action`]; the caller performs it on the machine and hands the
//! outcome to [`Operation::step`] as an [`Event`], until the pending action
//! is [`Action::Finish`].

use vstd::prelude::*;
use vstd::string::StringExecFns;

use crate::error::EnvError;
use crate::profile::{profile_for, profile_name};
use crate::text::{
    declares, export_line, mentions, missing_assignment, strip_assignments, without,
};

verus! {

/// Where variables are kept beyond the life of the process.
#[derive(Debug, PartialEq, Eq, Clone, Copy, Structural)]
pub enum Backend {
    /// The `Environment` key of the current user in the Windows registry.
    Registry,
    /// The startup file of the user's shell.
    Profile,
}

/// What the caller is to do next.
#[derive(Debug, PartialEq, Eq)]
pub enum Action {
    /// Read `HOME` and `SHELL` from the environment of the process.
    ReadVariables,
    /// Read the whole of the file `file` in the directory `home`.
    ReadProfile { home: String, file: String },
    /// Append `text` to the file `file` in the directory `home`.
    AppendProfile { home: String, file: String, text: String },
    /// Replace the content of the file `file` in the directory `home` by `text`.
    WriteProfile { home: String, file: String, text: String },
    /// Store the string `value` under the name `var` in the registry key.
    SetValue { var: String, value: String },
    /// Delete the value named `var` from the registry key.
    DeleteValue { var: String },
    /// Set `var` to `value` in the environment of the process.
    SetLocal { var: String, value: String },
    /// Remove `var` from the environment of the process.
    RemoveLocal { var: String },
    /// Nothing is left to do: the operation ended with this result.
    Finish(Result<(), EnvError>),
}

/// What came of the action that the caller performed.
#[derive(Debug, PartialEq, Eq)]
pub enum Event {
    /// The values of `HOME` and `SHELL`, `None` for one that could not be read.
    Variables { home: Option<String>, shell: Option<String> },
    /// The text of the startup file, `None` if it could not be read.
    Profile(Option<String>),
    /// Whether the write to the file or to the registry succeeded.
    Stored(bool),
    /// The environment of the process was changed as asked.
    Mirrored,
}

/// An [`Action`] with its texts as sequences of characters.
pub enum ActionView {
    ReadVariables,
    ReadProfile { home: Seq<char>, file: Seq<char> },
    AppendProfile { home: Seq<char>, file: Seq<char>, text: Seq<char> },
    WriteProfile { home: Seq<char>, file: Seq<char>, text: Seq<char> },
    SetValue { var: Seq<char>, value: Seq<char> },
    DeleteValue { var: Seq<char> },
    SetLocal { var: Seq<char>, value: Seq<char> },
    RemoveLocal { var: Seq<char> },
    Finish(Result<(), EnvError>),
}

/// An [`Event`] with its texts as sequences of characters.
pub enum EventView {
    Variables { home: Option<Seq<char>>, shell: Option<Seq<char>> },
    Profile(Option<Seq<char>>),
    Stored(bool),
    Mirrored,
}

/// The characters of an optional text.
pub open spec fn text_of(s: Option<String>) -> Option<Seq<char>> {
    match s {
        Some(t) => Some(t@),
        None => None,
    }
}

impl View for Action {
    type V = ActionView;

    open spec fn view(&self) -> ActionView {
        match *self {
            Action::ReadVariables => ActionView::ReadVariables,
            Action::ReadProfile { home, file } => ActionView::ReadProfile {
                home: home@,
                file: file@,
            },
            Action::AppendProfile { home, file, text } => ActionView::AppendProfile {
                home: home@,
                file: file@,
                text: text@,
            },
            Action::WriteProfile { home, file, text } => ActionView::WriteProfile {
                home: home@,
                file: file@,
                text: text@,
            },
            Action::SetValue { var, value } => ActionView::SetValue { var: var@, value: value@ },
            Action::DeleteValue { var } => ActionView::DeleteValue { var: var@ },
            Action::SetLocal { var, value } => ActionView::SetLocal { var: var@, value: value@ },
            Action::RemoveLocal { var } => ActionView::RemoveLocal { var: var@ },
            Action::Finish(result) => ActionView::Finish(result),
        }
    }
}

impl View for Event {
    type V = EventView;

    open spec fn view(&self) -> EventView {
        match *self {
            Event::Variables { home, shell } => EventView::Variables {
                home: text_of(home),
                shell: text_of(shell),
            },
            Event::Profile(text) => EventView::Profile(text_of(text)),
            Event::Stored(done) => EventView::Stored(done),
            Event::Mirrored => EventView::Mirrored,
        }
    }
}

/// One call of `set_var` or `unset_var` on its way.
///
/// The fields are open to read and to build: every combination of them is a
/// state that [`Operation::step`] takes.
#[derive(Debug, PartialEq, Eq)]
pub struct Operation {
    /// The name of the variable.
    pub var: String,
    /// The value to give it, or `None` to remove it.
    pub value: Option<String>,
    /// What the caller is to do now.
    pub pending: Action,
}

/// An [`Operation`] with its texts as sequences of characters.
pub struct OperationView {
    pub var: Seq<char>,
    pub value: Option<Seq<char>>,
    pub pending: ActionView,
}

impl View for Operation {
    type V = OperationView;

    open spec fn view(&self) -> OperationView {
        OperationView { var: self.var@, value: text_of(self.value), pending: self.pending@ }
    }
}

/// The first action of an operation on `var`: with the registry the write
/// itself, with a startup file the look at `HOME` and `SHELL`.
pub open spec fn opening(backend: Backend, var: Seq<char>, value: Option<Seq<char>>) -> ActionView {
    match backend {
        Backend::Profile => ActionView::ReadVariables,
        Backend::Registry => match value {
            Some(v) => ActionView::SetValue { var, value: v },
            None => ActionView::DeleteValue { var },
        },
    }
}

/// The action once `HOME` and `SHELL` were looked up: read the startup file of
/// the shell in the home directory. Without `HOME`, and then without `SHELL`,
/// the operation ends with `VarError`; with a shell other than zsh and bash it
/// ends with `UnsupportedShell`.
pub open spec fn located(home: Option<Seq<char>>, shell: Option<Seq<char>>) -> ActionView {
    match (home, shell) {
        (Some(h), Some(s)) => match profile_name(s) {
            Some(f) => ActionView::ReadProfile { home: h, file: f },
            None => ActionView::Finish(Err(EnvError::UnsupportedShell)),
        },
        _ => ActionView::Finish(Err(EnvError::VarError)),
    }
}

/// The change to the environment of the process that completes an operation.
pub open spec fn mirrored(var: Seq<char>, value: Option<Seq<char>>) -> ActionView {
    match value {
        Some(v) => ActionView::SetLocal { var, value: v },
        None => ActionView::RemoveLocal { var },
    }
}

/// The action once the startup file was read as `text`.
///
/// To set: where `text` holds the characters of the line `export NAME=VALUE`
/// with its line feed already, wherever they stand, the file is left alone;
/// else that line is appended. To unset: where no line of
/// `text` begins with `export NAME=`, the file is left alone; else it is
/// written anew without those lines. A file left alone leaves only the
/// environment of the process to change.
pub open spec fn decided(
    home: Seq<char>,
    file: Seq<char>,
    text: Seq<char>,
    var: Seq<char>,
    value: Option<Seq<char>>,
) -> ActionView {
    match value {
        Some(v) => if declares(text, var, v) {
            mirrored(var, value)
        } else {
            ActionView::AppendProfile { home, file, text: export_line(var, v) }
        },
        None => if mentions(text, var) {
            ActionView::WriteProfile { home, file, text: without(text, var) }
        } else {
            mirrored(var, value)
        },
    }
}

/// The action after `event`, for an operation on `var` whose pending action
/// was `pending`.
///
/// A failed read or write ends the operation with `IOError`, and the
/// environment of the process is then not touched. An event that does not
/// answer the pending action changes nothing, and nothing follows a `Finish`.
pub open spec fn advance(op: OperationView, event: EventView) -> ActionView {
    match (op.pending, event) {
        (ActionView::ReadVariables, EventView::Variables { home, shell }) => located(home, shell),
        (ActionView::ReadProfile { home, file }, EventView::Profile(Some(text))) => decided(
            home,
            file,
            text,
            op.var,
            op.value,
        ),
        (ActionView::ReadProfile { .. }, EventView::Profile(None)) => ActionView::Finish(
            Err(EnvError::IOError),
        ),
        (ActionView::AppendProfile { .. }, EventView::Stored(done))
        | (ActionView::WriteProfile { .. }, EventView::Stored(done))
        | (ActionView::SetValue { .. }, EventView::Stored(done))
        | (ActionView::DeleteValue { .. }, EventView::Stored(done)) => if done {
            mirrored(op.var, op.value)
        } else {
            ActionView::Finish(Err(EnvError::IOError))
        },
        (ActionView::SetLocal { .. }, EventView::Mirrored)
        | (ActionView::RemoveLocal { .. }, EventView::Mirrored) => ActionView::Finish(Ok(())),
        _ => op.pending,
    }
}

/// Chooses the startup file from what `HOME` and `SHELL` hold.
pub fn locate(home: Option<String>, shell: Option<String>) -> (action: Action)
    ensures
        action@ == located(text_of(home), text_of(shell)),
{
    match (home, shell) {
        (Some(h), Some(s)) => match profile_for(s.as_str()) {
            Some(f) => Action::ReadProfile { home: h, file: f },
            None => Action::Finish(Err(EnvError::UnsupportedShell)),
        },
        _ => Action::Finish(Err(EnvError::VarError)),
    }
}

/// The change to the environment of the process that completes an operation
/// on `var`.
pub fn mirror(var: &String, value: &Option<String>) -> (action: Action)
    ensures
        action@ == mirrored(var@, text_of(*value)),
{
    match value {
        Some(v) => Action::SetLocal { var: var.clone(), value: v.clone() },
        None => Action::RemoveLocal { var: var.clone() },
    }
}

/// Decides what to do to the startup file `file` in `home`, whose content is
/// `text`, for an operation on `var`.
pub fn decide(
    home: String,
    file: String,
    text: &str,
    var: &String,
    value: &Option<String>,
) -> (action: Action)
    ensures
        action@ == decided(home@, file@, text@, var@, text_of(*value)),
{
    match value {
        Some(v) => match missing_assignment(text, var.as_str(), v.as_str()) {
            Some(line) => Action::AppendProfile { home, file, text: line },
            None => mirror(var, value),
        },
        None => match strip_assignments(text, var.as_str()) {
            Some(rest) => Action::WriteProfile { home, file, text: rest },
            None => mirror(var, value),
        },
    }
}

/// Begins to set `var` to `value`, for this process and for those to come.
///
/// Nothing is changed yet: the operation that comes back names the first
/// action, and [`Operation::step`] each one after it. Every text is taken as
/// a name and as a value, an empty one and one with a line feed too.
pub fn set_var(backend: Backend, var: &str, value: &str) -> (op: Operation)
    ensures
        op@.var == var@,
        op@.value == Some(value@),
        op@.pending == opening(backend, var@, Some(value@)),
{
    let pending = match backend {
        Backend::Profile => Action::ReadVariables,
        Backend::Registry => Action::SetValue {
            var: String::from_str(var),
            value: String::from_str(value),
        },
    };
    Operation { var: String::from_str(var), value: Some(String::from_str(value)), pending }
}

/// Begins to remove `var`, for this process and for those to come.
///
/// Nothing is changed yet: the operation that comes back names the first
/// action, and [`Operation::step`] each one after it.
pub fn unset_var(backend: Backend, var: &str) -> (op: Operation)
    ensures
        op@.var == var@,
        op@.value.is_none(),
        op@.pending == opening(backend, var@, None),
{
    let pending = match backend {
        Backend::Profile => Action::ReadVariables,
        Backend::Registry => Action::DeleteValue { var: String::from_str(var) },
    };
    Operation { var: String::from_str(var), value: None, pending }
}

impl Operation {
    /// Takes in the outcome of the pending action and names the next one.
    pub fn step(self, event: Event) -> (next: Operation)
        ensures
            next@.var == self@.var,
            next@.value == self@.value,
            next@.pending == advance(self@, event@),
    {
        let Operation { var, value, pending } = self;
        let pending = match (pending, event) {
            (Action::ReadVariables, Event::Variables { home, shell }) => locate(home, shell),
            (Action::ReadProfile { home, file }, Event::Profile(Some(text))) => decide(
                home,
                file,
                text.as_str(),
                &var,
                &value,
            ),
            (Action::ReadProfile { .. }, Event::Profile(None)) => Action::Finish(
                Err(EnvError::IOError),
            ),
            (Action::AppendProfile { .. }, Event::Stored(done))
            | (Action::WriteProfile { .. }, Event::Stored(done))
            | (Action::SetValue { .. }, Event::Stored(done))
            | (Action::DeleteValue { .. }, Event::Stored(done)) => if done {
                mirror(&var, &value)
            } else {
                Action::Finish(Err(EnvError::IOError))
            },
            (Action::SetLocal { .. }, Event::Mirrored)
            | (Action::RemoveLocal { .. }, Event::Mirrored) => Action::Finish(Ok(())),
            (pending, _) => pending,
        };
        Operation { var, value, pending }
    }
}

} // verus!
