//! A machine as the operations see it, and what an operation does to it.
//!
//! Nothing here runs: [`Host`] is the mathematical picture of the process
//! environment, the startup files and the registry key, [`perform`] says what
//! a caller's action does to them, and the laws say what a whole operation
//! comes to when its actions are performed one after the other.

use vstd::prelude::*;

use crate::error::EnvError;
use crate::laws::{
    after_set, after_unset, canonical, round_trip, set_declares, set_is_idempotent, single_line,
    terminated, unbroken, unset_leaves_no_assignment, unset_restores_the_text,
};
use crate::text::{assigns, declares, export_prefix, mentions};
use crate::operation::{advance, opening, ActionView, Backend, EventView, OperationView};
use crate::profile::profile_name;

verus! {

/// What an operation reads and changes on a machine.
pub struct Host {
    /// The environment of the process, by variable name.
    pub env: Map<Seq<char>, Seq<char>>,
    /// The text files that can be read, by directory and file name.
    pub files: Map<(Seq<char>, Seq<char>), Seq<char>>,
    /// The string values of the registry key, by name.
    pub registry: Map<Seq<char>, Seq<char>>,
    /// Whether files and the registry key can be written.
    pub writable: bool,
}

/// The value under `key`, if there is one.
pub open spec fn lookup<K, V>(m: Map<K, V>, key: K) -> Option<V> {
    if m.dom().contains(key) {
        Some(m[key])
    } else {
        None
    }
}

impl Host {
    /// The home directory that the process sees.
    pub open spec fn home(self) -> Option<Seq<char>> {
        lookup(self.env, "HOME"@)
    }

    /// The shell that the process sees.
    pub open spec fn shell(self) -> Option<Seq<char>> {
        lookup(self.env, "SHELL"@)
    }

    /// The startup file of the user's shell, by directory and name.
    pub open spec fn profile(self) -> Option<(Seq<char>, Seq<char>)> {
        match (self.home(), self.shell()) {
            (Some(h), Some(s)) => match profile_name(s) {
                Some(f) => Some((h, f)),
                None => None,
            },
            _ => None,
        }
    }
}

/// The machine after `action` was performed on `host`, and the event that
/// reports it. A write to a machine that cannot be written changes nothing,
/// and so does the deletion of a registry value that is not there; both
/// report a failure.
pub open spec fn perform(host: Host, action: ActionView) -> (Host, EventView) {
    match action {
        ActionView::ReadVariables => (
            host,
            EventView::Variables { home: host.home(), shell: host.shell() },
        ),
        ActionView::ReadProfile { home, file } => (
            host,
            EventView::Profile(lookup(host.files, (home, file))),
        ),
        ActionView::AppendProfile { home, file, text } => if host.writable {
            let old = match lookup(host.files, (home, file)) {
                Some(t) => t,
                None => Seq::empty(),
            };
            (
                Host { files: host.files.insert((home, file), old + text), ..host },
                EventView::Stored(true),
            )
        } else {
            (host, EventView::Stored(false))
        },
        ActionView::WriteProfile { home, file, text } => if host.writable {
            (Host { files: host.files.insert((home, file), text), ..host }, EventView::Stored(true))
        } else {
            (host, EventView::Stored(false))
        },
        ActionView::SetValue { var, value } => if host.writable {
            (Host { registry: host.registry.insert(var, value), ..host }, EventView::Stored(true))
        } else {
            (host, EventView::Stored(false))
        },
        ActionView::DeleteValue { var } => if host.writable && host.registry.dom().contains(var) {
            (Host { registry: host.registry.remove(var), ..host }, EventView::Stored(true))
        } else {
            (host, EventView::Stored(false))
        },
        ActionView::SetLocal { var, value } => (
            Host { env: host.env.insert(var, value), ..host },
            EventView::Mirrored,
        ),
        ActionView::RemoveLocal { var } => (
            Host { env: host.env.remove(var), ..host },
            EventView::Mirrored,
        ),
        ActionView::Finish(_) => (host, EventView::Mirrored),
    }
}

/// The machine and the operation after at most `steps` actions of `op` were
/// performed on `host`, each outcome handed back to the operation.
pub open spec fn run(host: Host, op: OperationView, steps: nat) -> (Host, OperationView)
    decreases steps,
{
    if steps == 0 || op.pending is Finish {
        (host, op)
    } else {
        let (next, event) = perform(host, op.pending);
        run(next, OperationView { pending: advance(op, event), ..op }, (steps - 1) as nat)
    }
}

/// The operation that sets `var` to `value`, or that unsets it where `value`
/// is `None`, before its first action.
pub open spec fn begin(
    backend: Backend,
    var: Seq<char>,
    value: Option<Seq<char>>,
) -> OperationView {
    OperationView { var, value, pending: opening(backend, var, value) }
}

/// The machine after the whole operation.
pub open spec fn host_after(
    host: Host,
    backend: Backend,
    var: Seq<char>,
    value: Option<Seq<char>>,
) -> Host {
    run(host, begin(backend, var, value), 4).0
}

/// The last action of the whole operation.
pub open spec fn last_action(
    host: Host,
    backend: Backend,
    var: Seq<char>,
    value: Option<Seq<char>>,
) -> ActionView {
    run(host, begin(backend, var, value), 4).1.pending
}

/// What the process environment holds once an operation on `var` succeeded.
pub open spec fn env_after(
    env: Map<Seq<char>, Seq<char>>,
    var: Seq<char>,
    value: Option<Seq<char>>,
) -> Map<Seq<char>, Seq<char>> {
    match value {
        Some(v) => env.insert(var, v),
        None => env.remove(var),
    }
}

/// What a startup file holds once an operation on `var` succeeded.
pub open spec fn text_after(
    text: Seq<char>,
    var: Seq<char>,
    value: Option<Seq<char>>,
) -> Seq<char> {
    match value {
        Some(v) => after_set(text, var, v),
        None => after_unset(text, var),
    }
}

/// Whether the startup file that holds `text` is left alone by an operation
/// on `var`.
pub open spec fn settled(text: Seq<char>, var: Seq<char>, value: Option<Seq<char>>) -> bool {
    match value {
        Some(v) => declares(text, var, v),
        None => !mentions(text, var),
    }
}

/// How an operation on `var` ends on `host`.
///
/// With a startup file: `VarError` where `HOME` or `SHELL` is not set,
/// `UnsupportedShell` where the shell is neither zsh nor bash, `IOError`
/// where the file cannot be read, or has to change and cannot be written.
/// With the registry: `IOError` where the key cannot be written, or the
/// value to delete is not there. In every other case the operation succeeds.
pub open spec fn result_on(
    host: Host,
    backend: Backend,
    var: Seq<char>,
    value: Option<Seq<char>>,
) -> Result<(), EnvError> {
    match backend {
        Backend::Profile => if host.home() is None || host.shell() is None {
            Err(EnvError::VarError)
        } else {
            match host.profile() {
                None => Err(EnvError::UnsupportedShell),
                Some(key) => match lookup(host.files, key) {
                    None => Err(EnvError::IOError),
                    Some(text) => if settled(text, var, value) || host.writable {
                        Ok(())
                    } else {
                        Err(EnvError::IOError)
                    },
                },
            }
        },
        Backend::Registry => if host.writable && (value is Some || host.registry.dom().contains(
            var,
        )) {
            Ok(())
        } else {
            Err(EnvError::IOError)
        },
    }
}

/// Every operation ends within four actions, with the result that
/// [`result_on`] gives.
pub proof fn operation_ends(host: Host, backend: Backend, var: Seq<char>, value: Option<Seq<char>>)
    ensures
        last_action(host, backend, var, value) == ActionView::Finish(
            result_on(host, backend, var, value),
        ),
{
    reveal_with_fuel(run, 5);
}

/// An operation that fails leaves the machine as it was: the process
/// environment, the files and the registry key.
pub proof fn failure_changes_nothing(
    host: Host,
    backend: Backend,
    var: Seq<char>,
    value: Option<Seq<char>>,
)
    requires
        result_on(host, backend, var, value) is Err,
    ensures
        host_after(host, backend, var, value) == host,
{
    reveal_with_fuel(run, 5);
}

/// Once `var` was set to `value`, the process reads `value` from it; once it
/// was unset, the process finds no such variable. No other variable of the
/// process changes.
pub proof fn success_is_mirrored(
    host: Host,
    backend: Backend,
    var: Seq<char>,
    value: Option<Seq<char>>,
)
    requires
        result_on(host, backend, var, value) is Ok,
    ensures
        host_after(host, backend, var, value).env == env_after(host.env, var, value),
        lookup(host_after(host, backend, var, value).env, var) == value,
{
    reveal_with_fuel(run, 5);
}

/// Once an operation succeeded with a startup file, that file holds what
/// [`after_set`] or [`after_unset`] gives for its former text; no other file
/// and nothing in the registry has changed.
pub proof fn success_is_stored_in_profile(host: Host, var: Seq<char>, value: Option<Seq<char>>)
    requires
        result_on(host, Backend::Profile, var, value) is Ok,
    ensures
        host.profile() is Some,
        host.files.dom().contains(host.profile().unwrap()),
        host_after(host, Backend::Profile, var, value).files == host.files.insert(
            host.profile().unwrap(),
            text_after(host.files[host.profile().unwrap()], var, value),
        ),
        host_after(host, Backend::Profile, var, value).registry == host.registry,
{
    reveal_with_fuel(run, 5);
    let key = host.profile().unwrap();
    let text = host.files[key];
    if settled(text, var, value) {
        assert(host.files.insert(key, text) =~= host.files);
    }
}

/// Once an operation succeeded with the registry, the key holds `value`
/// under the name `var`, or no value of that name after an unset; no other
/// value and no file has changed.
pub proof fn success_is_stored_in_registry(host: Host, var: Seq<char>, value: Option<Seq<char>>)
    requires
        result_on(host, Backend::Registry, var, value) is Ok,
    ensures
        host_after(host, Backend::Registry, var, value).registry == env_after(
            host.registry,
            var,
            value,
        ),
        lookup(host_after(host, Backend::Registry, var, value).registry, var) == value,
        host_after(host, Backend::Registry, var, value).files == host.files,
{
    reveal_with_fuel(run, 5);
}

/// With a shell that is neither zsh nor bash, setting and unsetting fail
/// with `UnsupportedShell`, and the machine stays as it was. This is said of
/// a process that has `HOME` set: without it the failure is `VarError`.
pub proof fn unsupported_shell_fails(
    host: Host,
    shell: Seq<char>,
    var: Seq<char>,
    value: Option<Seq<char>>,
)
    requires
        host.home() is Some,
        host.shell() == Some(shell),
        profile_name(shell) is None,
    ensures
        last_action(host, Backend::Profile, var, value) == ActionView::Finish(
            Err(EnvError::UnsupportedShell),
        ),
        host_after(host, Backend::Profile, var, value) == host,
{
    operation_ends(host, Backend::Profile, var, value);
    failure_changes_nothing(host, Backend::Profile, var, value);
}

/// `var` is neither `HOME` nor `SHELL`, the two variables that name the
/// startup file.
pub open spec fn ordinary(var: Seq<char>) -> bool {
    var != "HOME"@ && var != "SHELL"@
}

/// The text of the startup file of the user's shell on `host`, or the empty
/// text where there is no such file.
pub open spec fn profile_text(host: Host) -> Seq<char> {
    match host.profile() {
        Some(key) => match lookup(host.files, key) {
            Some(text) => text,
            None => Seq::empty(),
        },
        None => Seq::empty(),
    }
}

/// Setting `var` to `value` twice comes to the same as setting it once: the
/// second call succeeds and changes neither the startup file, nor the
/// process environment.
///
/// This is said of a variable other than `HOME` and `SHELL`, whose new value
/// would send the second call to another file.
pub proof fn set_twice_is_set_once(host: Host, var: Seq<char>, value: Seq<char>)
    requires
        ordinary(var),
        result_on(host, Backend::Profile, var, Some(value)) is Ok,
    ensures
        ({
            let once = host_after(host, Backend::Profile, var, Some(value));
            let twice = host_after(once, Backend::Profile, var, Some(value));
            &&& result_on(once, Backend::Profile, var, Some(value)) is Ok
            &&& twice.files == once.files
            &&& twice.env == once.env
            &&& declares(profile_text(twice), var, value)
        }),
{
    let once = host_after(host, Backend::Profile, var, Some(value));
    success_is_mirrored(host, Backend::Profile, var, Some(value));
    success_is_stored_in_profile(host, var, Some(value));
    let key = host.profile().unwrap();
    let text = host.files[key];
    assert(once.profile() == Some(key));
    assert(once.files[key] == after_set(text, var, value));
    set_declares(text, var, value);
    set_is_idempotent(text, var, value);
    let twice = host_after(once, Backend::Profile, var, Some(value));
    success_is_mirrored(once, Backend::Profile, var, Some(value));
    success_is_stored_in_profile(once, var, Some(value));
    assert(twice.env =~= once.env);
    assert(twice.files =~= once.files);
}

/// Setting a registry value twice comes to the same as setting it once.
pub proof fn set_twice_is_set_once_in_registry(host: Host, var: Seq<char>, value: Seq<char>)
    requires
        result_on(host, Backend::Registry, var, Some(value)) is Ok,
    ensures
        ({
            let once = host_after(host, Backend::Registry, var, Some(value));
            let twice = host_after(once, Backend::Registry, var, Some(value));
            &&& result_on(once, Backend::Registry, var, Some(value)) is Ok
            &&& twice.registry == once.registry
            &&& twice.env == once.env
        }),
{
    let once = host_after(host, Backend::Registry, var, Some(value));
    success_is_mirrored(host, Backend::Registry, var, Some(value));
    success_is_stored_in_registry(host, var, Some(value));
    assert(once.writable) by {
        reveal_with_fuel(run, 5);
    }
    let twice = host_after(once, Backend::Registry, var, Some(value));
    success_is_mirrored(once, Backend::Registry, var, Some(value));
    success_is_stored_in_registry(once, var, Some(value));
    assert(twice.env =~= once.env);
    assert(twice.registry =~= once.registry);
}

/// Unsetting `var` after it was set removes it from the process environment
/// and from the startup file: no line of the file assigns to it any more.
///
/// This is said of a machine whose files can be written, and of a variable
/// other than `HOME` and `SHELL`.
pub proof fn unset_undoes_set(host: Host, var: Seq<char>, value: Seq<char>)
    requires
        ordinary(var),
        host.writable,
        result_on(host, Backend::Profile, var, Some(value)) is Ok,
    ensures
        ({
            let set = host_after(host, Backend::Profile, var, Some(value));
            let unset = host_after(set, Backend::Profile, var, None);
            &&& result_on(set, Backend::Profile, var, None) is Ok
            &&& lookup(unset.env, var) is None
            &&& !mentions(profile_text(unset), var)
        }),
{
    let set = host_after(host, Backend::Profile, var, Some(value));
    success_is_mirrored(host, Backend::Profile, var, Some(value));
    success_is_stored_in_profile(host, var, Some(value));
    let key = host.profile().unwrap();
    assert(set.profile() == Some(key));
    assert(set.writable) by {
        reveal_with_fuel(run, 5);
    }
    let text = set.files[key];
    let unset = host_after(set, Backend::Profile, var, None);
    success_is_mirrored(set, Backend::Profile, var, None);
    success_is_stored_in_profile(set, var, None);
    assert(unset.profile() == Some(key));
    assert(unset.files[key] == after_unset(text, var));
    unset_leaves_no_assignment(text, var);
}

/// Unsetting `var` after it was set removes it from the process environment
/// and from the registry key.
pub proof fn unset_undoes_set_in_registry(host: Host, var: Seq<char>, value: Seq<char>)
    requires
        host.writable,
    ensures
        ({
            let set = host_after(host, Backend::Registry, var, Some(value));
            let unset = host_after(set, Backend::Registry, var, None);
            &&& result_on(host, Backend::Registry, var, Some(value)) is Ok
            &&& result_on(set, Backend::Registry, var, None) is Ok
            &&& lookup(unset.env, var) is None
            &&& lookup(unset.registry, var) is None
        }),
{
    let set = host_after(host, Backend::Registry, var, Some(value));
    success_is_mirrored(host, Backend::Registry, var, Some(value));
    success_is_stored_in_registry(host, var, Some(value));
    assert(set.writable) by {
        reveal_with_fuel(run, 5);
    }
    success_is_mirrored(set, Backend::Registry, var, None);
    success_is_stored_in_registry(set, var, None);
}

/// Set `a`, set `b`, unset `a`: all three succeed, `b` keeps its value in the
/// process and in the startup file, and `a` is gone from both.
///
/// This is said of a machine whose files can be written, of a startup file
/// that can be read, of variables other than `HOME` and `SHELL`, and of an
/// assignment to `b` that fits one line, is not itself an assignment to `a`,
/// and is written by the second call to a file that ends with a line feed.
pub proof fn round_trip_on_host(
    host: Host,
    a: Seq<char>,
    value_a: Seq<char>,
    b: Seq<char>,
    value_b: Seq<char>,
)
    requires
        ordinary(a),
        ordinary(b),
        host.writable,
        host.profile() is Some,
        host.files.dom().contains(host.profile().unwrap()),
        single_line(b),
        single_line(value_b),
        !assigns(export_prefix(b) + value_b, a),
        terminated(after_set(profile_text(host), a, value_a)),
        !declares(after_set(profile_text(host), a, value_a), b, value_b),
    ensures
        ({
            let first = host_after(host, Backend::Profile, a, Some(value_a));
            let second = host_after(first, Backend::Profile, b, Some(value_b));
            let third = host_after(second, Backend::Profile, a, None);
            &&& result_on(host, Backend::Profile, a, Some(value_a)) is Ok
            &&& result_on(first, Backend::Profile, b, Some(value_b)) is Ok
            &&& result_on(second, Backend::Profile, a, None) is Ok
            &&& declares(profile_text(third), b, value_b)
            &&& lookup(third.env, b) == Some(value_b)
            &&& !mentions(profile_text(third), a)
            &&& lookup(third.env, a) is None
        }),
{
    let key = host.profile().unwrap();
    let text = host.files[key];
    let first = host_after(host, Backend::Profile, a, Some(value_a));
    success_is_mirrored(host, Backend::Profile, a, Some(value_a));
    success_is_stored_in_profile(host, a, Some(value_a));
    assert(first.writable && first.profile() == Some(key)) by {
        reveal_with_fuel(run, 5);
    }
    let second = host_after(first, Backend::Profile, b, Some(value_b));
    success_is_mirrored(first, Backend::Profile, b, Some(value_b));
    success_is_stored_in_profile(first, b, Some(value_b));
    assert(second.writable && second.profile() == Some(key)) by {
        reveal_with_fuel(run, 5);
    }
    let third = host_after(second, Backend::Profile, a, None);
    success_is_mirrored(second, Backend::Profile, a, None);
    success_is_stored_in_profile(second, a, None);
    assert(third.profile() == Some(key));
    round_trip(text, a, value_a, b, value_b);
    if a == b {
        assert((export_prefix(b) + value_b).subrange(0, export_prefix(a).len() as int)
            =~= export_prefix(a));
    }
}

/// Unsetting `var` after it was set gives the machine back as it was: the
/// startup file character for character, and the process environment.
///
/// This is said of a machine whose files can be written, of a process that
/// did not have the variable, of a startup file of whole lines without
/// carriage returns before their line feeds, none of which assigned to `var`,
/// of a name and a value without a line feed, and of a variable other than
/// `HOME` and `SHELL`.
pub proof fn unset_restores_the_machine(host: Host, var: Seq<char>, value: Seq<char>)
    requires
        ordinary(var),
        host.writable,
        result_on(host, Backend::Profile, var, Some(value)) is Ok,
        lookup(host.env, var) is None,
        canonical(profile_text(host)),
        !mentions(profile_text(host), var),
        unbroken(var),
        unbroken(value),
    ensures
        ({
            let set = host_after(host, Backend::Profile, var, Some(value));
            let unset = host_after(set, Backend::Profile, var, None);
            &&& result_on(set, Backend::Profile, var, None) is Ok
            &&& unset.files == host.files
            &&& unset.env == host.env
            &&& unset.registry == host.registry
        }),
{
    let set = host_after(host, Backend::Profile, var, Some(value));
    success_is_mirrored(host, Backend::Profile, var, Some(value));
    success_is_stored_in_profile(host, var, Some(value));
    let key = host.profile().unwrap();
    let text = host.files[key];
    assert(set.profile() == Some(key));
    assert(set.writable) by {
        reveal_with_fuel(run, 5);
    }
    let unset = host_after(set, Backend::Profile, var, None);
    success_is_mirrored(set, Backend::Profile, var, None);
    success_is_stored_in_profile(set, var, None);
    unset_restores_the_text(text, var, value);
    assert(unset.files =~= host.files);
    assert(unset.env =~= host.env);
}

} // verus!
