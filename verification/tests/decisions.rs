use globalenv::operation::{decide, locate, mirror};
use globalenv::profile::profile_for;
use globalenv::{set_var, unset_var, Action, Backend, EnvError, Event, Operation};

fn text(s: &str) -> String {
    String::from(s)
}

fn read(home: &str, file: &str) -> Action {
    Action::ReadProfile { home: text(home), file: text(file) }
}

#[test]
fn profile_of_each_shell() {
    assert_eq!(profile_for("/bin/zsh"), Some(text(".zshenv")));
    assert_eq!(profile_for("/bin/bash"), Some(text(".bashrc")));
    assert_eq!(profile_for("/bin/fish"), None);
    assert_eq!(profile_for("/usr/bin/zsh"), None);
    assert_eq!(profile_for("zsh"), None);
    assert_eq!(profile_for(""), None);
}

#[test]
fn locate_names_the_file_to_read() {
    assert_eq!(locate(Some(text("/home/u")), Some(text("/bin/zsh"))), read("/home/u", ".zshenv"));
    assert_eq!(locate(Some(text("/root")), Some(text("/bin/bash"))), read("/root", ".bashrc"));
    assert_eq!(locate(Some(text("")), Some(text("/bin/bash"))), read("", ".bashrc"));
}

#[test]
fn locate_fails_without_home_or_shell() {
    let failed = Action::Finish(Err(EnvError::VarError));
    assert_eq!(locate(None, Some(text("/bin/zsh"))), failed);
    assert_eq!(locate(Some(text("/home/u")), None), failed);
    assert_eq!(locate(None, None), failed);
    assert_eq!(locate(None, Some(text("/bin/fish"))), failed);
}

#[test]
fn locate_refuses_other_shells() {
    assert_eq!(
        locate(Some(text("/home/u")), Some(text("/bin/fish"))),
        Action::Finish(Err(EnvError::UnsupportedShell))
    );
    assert_eq!(
        locate(Some(text("/home/u")), Some(text(""))),
        Action::Finish(Err(EnvError::UnsupportedShell))
    );
}

#[test]
fn mirror_sets_or_removes() {
    assert_eq!(
        mirror(&text("X"), &Some(text("V"))),
        Action::SetLocal { var: text("X"), value: text("V") }
    );
    assert_eq!(mirror(&text("X"), &None), Action::RemoveLocal { var: text("X") });
}

#[test]
fn decide_for_set() {
    assert_eq!(
        decide(text("/h"), text(".zshenv"), "a\n", &text("X"), &Some(text("V"))),
        Action::AppendProfile {
            home: text("/h"),
            file: text(".zshenv"),
            text: text("export X=V\n")
        }
    );
    assert_eq!(
        decide(text("/h"), text(".zshenv"), "a\nexport X=V\n", &text("X"), &Some(text("V"))),
        Action::SetLocal { var: text("X"), value: text("V") }
    );
}

#[test]
fn decide_for_unset() {
    assert_eq!(
        decide(text("/h"), text(".bashrc"), "a\nexport X=V\n", &text("X"), &None),
        Action::WriteProfile { home: text("/h"), file: text(".bashrc"), text: text("a\n") }
    );
    assert_eq!(
        decide(text("/h"), text(".bashrc"), "a\n", &text("X"), &None),
        Action::RemoveLocal { var: text("X") }
    );
}

#[test]
fn operations_begin_with_the_right_action() {
    let op = set_var(Backend::Profile, "X", "V");
    assert_eq!(op.var, "X");
    assert_eq!(op.value, Some(text("V")));
    assert_eq!(op.pending, Action::ReadVariables);
    let op = unset_var(Backend::Profile, "X");
    assert_eq!(op.value, None);
    assert_eq!(op.pending, Action::ReadVariables);
    let op = set_var(Backend::Registry, "X", "V");
    assert_eq!(op.pending, Action::SetValue { var: text("X"), value: text("V") });
    let op = unset_var(Backend::Registry, "X");
    assert_eq!(op.var, "X");
    assert_eq!(op.pending, Action::DeleteValue { var: text("X") });
}

#[test]
fn steps_of_a_set_with_a_startup_file() {
    let op = set_var(Backend::Profile, "X", "V");
    let op = op.step(Event::Variables { home: Some(text("/h")), shell: Some(text("/bin/zsh")) });
    assert_eq!(op.pending, read("/h", ".zshenv"));
    let op = op.step(Event::Profile(Some(text("# mine\n"))));
    assert_eq!(
        op.pending,
        Action::AppendProfile {
            home: text("/h"),
            file: text(".zshenv"),
            text: text("export X=V\n")
        }
    );
    let op = op.step(Event::Stored(true));
    assert_eq!(op.pending, Action::SetLocal { var: text("X"), value: text("V") });
    let op = op.step(Event::Mirrored);
    assert_eq!(op.pending, Action::Finish(Ok(())));
    assert_eq!(op.var, "X");
    assert_eq!(op.value, Some(text("V")));
}

#[test]
fn steps_of_an_unset_with_the_registry() {
    let op = unset_var(Backend::Registry, "X");
    let op = op.step(Event::Stored(true));
    assert_eq!(op.pending, Action::RemoveLocal { var: text("X") });
    let op = op.step(Event::Mirrored);
    assert_eq!(op.pending, Action::Finish(Ok(())));
}

#[test]
fn a_failed_read_or_write_ends_the_operation() {
    let failed = Action::Finish(Err(EnvError::IOError));
    let op = Operation { var: text("X"), value: None, pending: read("/h", ".bashrc") };
    assert_eq!(op.step(Event::Profile(None)).pending, failed);
    let op = set_var(Backend::Registry, "X", "V");
    assert_eq!(op.step(Event::Stored(false)).pending, failed);
    let op = unset_var(Backend::Registry, "X");
    assert_eq!(op.step(Event::Stored(false)).pending, failed);
    let pending =
        Action::WriteProfile { home: text("/h"), file: text(".bashrc"), text: text("") };
    let op = Operation { var: text("X"), value: None, pending };
    assert_eq!(op.step(Event::Stored(false)).pending, failed);
    let pending =
        Action::AppendProfile { home: text("/h"), file: text(".bashrc"), text: text("x\n") };
    let op = Operation { var: text("X"), value: Some(text("V")), pending };
    assert_eq!(op.step(Event::Stored(false)).pending, failed);
}

#[test]
fn an_event_that_answers_nothing_changes_nothing() {
    let op = set_var(Backend::Profile, "X", "V");
    let op = op.step(Event::Stored(true));
    assert_eq!(op.pending, Action::ReadVariables);
    let op = op.step(Event::Mirrored);
    assert_eq!(op.pending, Action::ReadVariables);
    let op = op.step(Event::Profile(Some(text(""))));
    assert_eq!(op.pending, Action::ReadVariables);
    let op = set_var(Backend::Registry, "X", "V");
    let op = op.step(Event::Mirrored);
    assert_eq!(op.pending, Action::SetValue { var: text("X"), value: text("V") });
    let op = Operation { var: text("X"), value: None, pending: read("/h", ".bashrc") };
    let op = op.step(Event::Variables { home: None, shell: None });
    assert_eq!(op.pending, read("/h", ".bashrc"));
}

#[test]
fn nothing_follows_the_end() {
    let op = Operation { var: text("X"), value: None, pending: Action::Finish(Ok(())) };
    let op = op.step(Event::Stored(false));
    assert_eq!(op.pending, Action::Finish(Ok(())));
    let pending = Action::Finish(Err(EnvError::VarError));
    let op = Operation { var: text("X"), value: None, pending };
    let op = op.step(Event::Variables { home: Some(text("/h")), shell: Some(text("/bin/zsh")) });
    assert_eq!(op.pending, Action::Finish(Err(EnvError::VarError)));
}
