use cosplay::{SocketPath, SocketPathError};

fn s(value: &str) -> Option<Vec<u8>> {
    Some(value.as_bytes().to_vec())
}

#[test]
fn resolve_provided_absolute() {
    let actual = SocketPath::resolve_with(s("/absolute/provided"), None, None).unwrap();

    assert_eq!(b"/absolute/provided", actual.as_bytes());
}

#[test]
fn resolve_provided_relative() {
    let actual = SocketPath::resolve_with(s("./provided"), None, s("/tmp")).unwrap();

    assert_eq!(b"/tmp/./provided", actual.as_bytes());
}

#[test]
fn resolve_env_absolute() {
    let actual = SocketPath::resolve_with(None, s("/absolute/test"), None).unwrap();

    assert_eq!(b"/absolute/test", actual.as_bytes());
}

#[test]
fn resolve_env_relative() {
    let actual = SocketPath::resolve_with(None, s("./test"), s("/tmp")).unwrap();

    assert_eq!(b"/tmp/./test", actual.as_bytes());
}

#[test]
fn resolve_fallback() {
    let actual = SocketPath::resolve_with(None, None, s("/tmp")).unwrap();

    assert_eq!(b"/tmp/./wayland-0", actual.as_bytes());
}

#[test]
fn resolve_no_xdg_runtime_error() {
    let actual_error = SocketPath::resolve_with(None, None, None).unwrap_err();
    let expected_error = SocketPathError::XdgRuntimeNotFound(b"./wayland-0".to_vec());
    assert_eq!(expected_error, actual_error);
}

#[test]
fn resolve_provided_wins_over_env() {
    let actual = SocketPath::resolve_with(s("/a"), s("/b"), None).unwrap();
    assert_eq!(b"/a", actual.as_bytes());
}

#[test]
fn resolve_runtime_dir_with_trailing_separator() {
    let actual = SocketPath::resolve_with(s("wayland-1"), None, s("/run/user/1000/")).unwrap();
    assert_eq!(b"/run/user/1000/wayland-1", actual.as_bytes());
}

#[test]
fn resolve_keeps_non_utf8_bytes() {
    let display = Some(vec![b'w', 0xFF, b'1']);
    let runtime = Some(vec![b'/', b'r', 0xFE]);
    let actual = SocketPath::resolve_with(None, display, runtime).unwrap();
    assert_eq!(&[b'/', b'r', 0xFE, b'/', b'w', 0xFF, b'1'], actual.as_bytes());
}
