//! `libwayland`-like resolution of the Wayland socket path.
//!
//! Paths are handled as the bytes of Unix paths, so that names that are not UTF-8 keep every
//! byte.
use vstd::prelude::*;

verus! {

/// A resolved socket path, created with [`SocketPath::resolve_with`].
#[derive(Debug)]
pub struct SocketPath(Vec<u8>);

impl View for SocketPath {
    type V = Seq<u8>;

    closed spec fn view(&self) -> Seq<u8> {
        self.0@
    }
}

/// Returned from [`SocketPath::resolve_with`].
#[derive(Debug, PartialEq)]
pub enum SocketPathError {
    /// `$XDG_RUNTIME_DIR` not set, which is required to make the relative socket path (the
    /// bytes held) absolute.
    XdgRuntimeNotFound(Vec<u8>),
}

/// The byte of the path separator, `/`.
pub const SEPARATOR: u8 = 47;

/// The path used when neither a path nor `$WAYLAND_DISPLAY` is given: `./wayland-0`.
pub open spec fn fallback_path() -> Seq<u8> {
    seq![46u8, 47u8, 119u8, 97u8, 121u8, 108u8, 97u8, 110u8, 100u8, 45u8, 48u8]
}

/// A path is absolute when it starts with the root directory, `/`.
pub open spec fn path_is_absolute(path: Seq<u8>) -> bool {
    path.len() > 0 && path[0] == SEPARATOR
}

/// Appending to `base` needs a separator when `base` is non-empty and does not end in one.
pub open spec fn needs_separator(base: Seq<u8>) -> bool {
    base.len() > 0 && base.last() != SEPARATOR
}

/// `path` adjoined to `base`: `path` itself when absolute, else `base`, a separator when
/// needed, and `path`.
pub open spec fn path_join(base: Seq<u8>, path: Seq<u8>) -> Seq<u8> {
    if path_is_absolute(path) {
        path
    } else if needs_separator(base) {
        base.push(SEPARATOR) + path
    } else {
        base + path
    }
}

/// The path selected by resolution: the provided one, else `$WAYLAND_DISPLAY`, else the
/// fallback.
pub open spec fn selected_path(provided: Option<Seq<u8>>, wayland_display: Option<Seq<u8>>) -> Seq<u8> {
    match provided {
        Some(path) => path,
        None => match wayland_display {
            Some(path) => path,
            None => fallback_path(),
        },
    }
}

/// Resolution: the selected path when absolute, else prefixed with `$XDG_RUNTIME_DIR`; an
/// error carrying the selected path when that is unset.
pub open spec fn spec_resolve(
    provided: Option<Seq<u8>>,
    wayland_display: Option<Seq<u8>>,
    xdg_runtime_dir: Option<Seq<u8>>,
) -> Result<Seq<u8>, Seq<u8>> {
    let path = selected_path(provided, wayland_display);
    if path_is_absolute(path) {
        Ok(path)
    } else {
        match xdg_runtime_dir {
            Some(dir) => Ok(path_join(dir, path)),
            None => Err(path),
        }
    }
}

/// The view of an optional byte string.
pub open spec fn option_view(s: Option<Vec<u8>>) -> Option<Seq<u8>> {
    match s {
        Some(s) => Some(s@),
        None => None,
    }
}

fn is_absolute(path: &Vec<u8>) -> (absolute: bool)
    ensures
        absolute == path_is_absolute(path@),
{
    path.len() > 0 && path[0] == SEPARATOR
}

fn join(base: Vec<u8>, path: Vec<u8>) -> (joined: Vec<u8>)
    ensures
        joined@ == path_join(base@, path@),
{
    if is_absolute(&path) {
        return path;
    }
    let needs_separator = base.len() > 0 && base[base.len() - 1] != SEPARATOR;
    let mut joined = base;
    if needs_separator {
        joined.push(SEPARATOR);
    }
    let mut path = path;
    joined.append(&mut path);
    joined
}

impl SocketPath {
    /// Resolves the unix socket path created by the Wayland server, the way `libwayland`'s
    /// `wl_display_connect` does.
    ///
    /// A path is selected by first checking if one is given in `provided_path`. If none,
    /// `$WAYLAND_DISPLAY` (passed as `wayland_display`) is used if set, before falling back to
    /// `./wayland-0`. Absolute paths are returned as they are; relative ones are prepended with
    /// `$XDG_RUNTIME_DIR` (passed as `xdg_runtime_dir`).
    pub fn resolve_with(
        provided_path: Option<Vec<u8>>,
        wayland_display: Option<Vec<u8>>,
        xdg_runtime_dir: Option<Vec<u8>>,
    ) -> (res: Result<SocketPath, SocketPathError>)
        ensures
            match (res, spec_resolve(option_view(provided_path), option_view(wayland_display), option_view(xdg_runtime_dir))) {
                (Ok(path), Ok(expected)) => path@ == expected,
                (Err(SocketPathError::XdgRuntimeNotFound(path)), Err(expected)) => path@ == expected,
                _ => false,
            },
    {
        let path = match provided_path {
            Some(path) => path,
            None => match wayland_display {
                Some(path) => path,
                None => {
                    let fallback = vec![46u8, 47u8, 119u8, 97u8, 121u8, 108u8, 97u8, 110u8, 100u8, 45u8, 48u8];
                    assert(fallback@ =~= fallback_path());
                    fallback
                },
            },
        };
        if is_absolute(&path) {
            return Ok(SocketPath(path));
        }
        match xdg_runtime_dir {
            Some(dir) => Ok(SocketPath(join(dir, path))),
            None => Err(SocketPathError::XdgRuntimeNotFound(path)),
        }
    }

    /// The bytes of the resolved path.
    pub fn as_bytes(&self) -> (path: &[u8])
        ensures
            path@ == self@,
    {
        self.0.as_slice()
    }
}

/// A provided path is the only one used: whatever `$WAYLAND_DISPLAY` holds, the result is the
/// same; an absolute provided path comes back unchanged, and a relative one comes back after
/// `$XDG_RUNTIME_DIR` and a separator (none added when the directory already ends in one), or
/// as the error when that directory is unknown. Without a provided path, `$WAYLAND_DISPLAY`
/// plays the same part, and without either, `./wayland-0` does.
pub proof fn lemma_provided_path_wins(
    path: Seq<u8>,
    display: Option<Seq<u8>>,
    other_display: Option<Seq<u8>>,
    runtime_dir: Option<Seq<u8>>,
)
    ensures
        spec_resolve(Some(path), display, runtime_dir) == spec_resolve(Some(path), other_display, runtime_dir),
        spec_resolve(Some(path), display, runtime_dir) == spec_resolve(None, Some(path), runtime_dir),
        path.len() > 0 && path[0] == 47u8 ==> spec_resolve(Some(path), display, runtime_dir) == Ok::<
            Seq<u8>,
            Seq<u8>,
        >(path),
        !(path.len() > 0 && path[0] == 47u8) ==> match runtime_dir {
            None => spec_resolve(Some(path), display, runtime_dir) == Err::<Seq<u8>, Seq<u8>>(path),
            Some(dir) => spec_resolve(Some(path), display, runtime_dir) == Ok::<Seq<u8>, Seq<u8>>(
                if dir.len() > 0 && dir[dir.len() - 1] != 47u8 {
                    dir + seq![47u8] + path
                } else {
                    dir + path
                },
            ),
        },
        spec_resolve(None, None, runtime_dir) == spec_resolve(
            Some(seq![46u8, 47u8, 119u8, 97u8, 121u8, 108u8, 97u8, 110u8, 100u8, 45u8, 48u8]),
            display,
            runtime_dir,
        ),
{
    match runtime_dir {
        Some(dir) => {
            assert(dir.push(47u8) + path =~= dir + seq![47u8] + path);
        },
        None => {},
    }
}

} // verus!
