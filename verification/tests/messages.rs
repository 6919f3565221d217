use globalenv::EnvError;

#[test]
fn message_of_each_error() {
    assert_eq!(EnvError::UnsupportedShell.message(), "ENV operation error : Unsupported shell");
    assert_eq!(EnvError::IOError.message(), "ENV operation error : I/O error");
    assert_eq!(
        EnvError::VarError.message(),
        "ENV operation error : error while getting or setting env"
    );
}
