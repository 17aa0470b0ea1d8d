//! Absolute paths of files to open, resolved on the client's side.

use crate::terminal::{cwd_of, focused_active_window, focused_window, window_cwd, OsWindow,
    OsWindowModel};
use vstd::prelude::*;

verus! {

/// Whether a path is absolute: on Unix, whether it starts at the root `/`.
pub open spec fn absolute(path: Seq<char>) -> bool {
    path.len() > 0 && path[0] == '/'
}

/// Relies on `Path::is_absolute`: on Unix a path is absolute exactly when it
/// has a root, that is when it starts with `/`.
#[verifier::external_body]
pub(crate) fn is_absolute(path: &str) -> (r: bool)
    ensures
        r == absolute(path@),
{
    std::path::Path::new(path).is_absolute()
}

/// `path` taken relative to `base`: an absolute `path` replaces `base`;
/// otherwise a `/` separates the two unless `base` is empty or already ends
/// with one.
pub open spec fn joined(base: Seq<char>, path: Seq<char>) -> Seq<char> {
    if absolute(path) {
        path
    } else if base.len() == 0 || base.last() == '/' {
        base + path
    } else {
        base + seq!['/'] + path
    }
}

/// Relies on `Path::join`, which pushes `path` onto `base`: on Unix an
/// absolute `path` replaces `base`, and otherwise a `/` is added between
/// them when `base` is not empty and does not end with one.
#[verifier::external_body]
fn join(base: &str, path: &str) -> (r: String)
    ensures
        r@ == joined(base@, path@),
{
    std::path::Path::new(base).join(path).to_string_lossy().into_owned()
}

/// Names what `Path::strip_prefix` leaves of a path once a base is taken off.
pub uninterp spec fn stripped(path: Seq<char>, base: Seq<char>) -> Option<Seq<char>>;

/// Relies on `Path::strip_prefix`: the components of `path` after those of
/// `base`, none when `base` does not begin `path`; it depends on the two
/// paths alone.
#[verifier::external_body]
pub(crate) fn strip_prefix(path: &str, base: &str) -> (r: Option<String>)
    ensures
        r.deep_view() == stripped(path@, base@),
{
    std::path::Path::new(path).strip_prefix(base).ok().and_then(|p| p.to_str()).map(|p| p.to_string())
}

/// A relative `path` taken from the working directory of the active,
/// focused window, when there is one and its directory is known; any other
/// path as it is.
pub open spec fn relative_resolved(windows: Seq<OsWindowModel>, path: Seq<char>) -> Seq<char> {
    if absolute(path) {
        path
    } else {
        match focused_window(windows) {
            Some(w) => match cwd_of(w) {
                Some(cwd) => joined(cwd, path),
                None => path,
            },
            None => path,
        }
    }
}

/// Resolves a relative `path` against the working directory of the active,
/// focused window, when there is one and its directory is known.
pub fn resolve_relative_path(windows: &Vec<OsWindow>, path: &str) -> (r: String)
    ensures
        r@ == relative_resolved(windows.deep_view(), path@),
{
    if is_absolute(path) {
        return String::from_str(path);
    }
    match focused_active_window(windows) {
        Some(window) => match window_cwd(window) {
            Some(cwd) => join(cwd.as_str(), path),
            None => String::from_str(path),
        },
        None => String::from_str(path),
    }
}

/// Where the client runs, which decides how a relative path is resolved.
#[derive(Clone, Copy, Debug, PartialEq, Eq, Structural)]
pub enum Context {
    /// Run from a shell: paths are relative to its working directory.
    Shell,
    /// Run by the terminal: paths are relative to the focused window's.
    Terminal,
}

impl Context {
    /// The name of the context, as the command line spells it.
    pub fn as_str(&self) -> (r: &'static str)
        ensures
            r@ == (match self {
                Context::Shell => "shell"@,
                Context::Terminal => "terminal"@,
            }),
    {
        match self {
            Context::Shell => "shell",
            Context::Terminal => "terminal",
        }
    }
}

/// What relative paths are resolved against.
pub enum Environment {
    /// A shell with this working directory.
    Shell(String),
    /// The terminal, with these windows.
    Kitty(Vec<OsWindow>),
}

/// Model of an environment.
pub enum EnvironmentModel {
    Shell(Seq<char>),
    Kitty(Seq<OsWindowModel>),
}

impl DeepView for Environment {
    type V = EnvironmentModel;

    open spec fn deep_view(&self) -> EnvironmentModel {
        match self {
            Environment::Shell(cwd) => EnvironmentModel::Shell(cwd@),
            Environment::Kitty(windows) => EnvironmentModel::Kitty(windows.deep_view()),
        }
    }
}

/// Why a path could not be made absolute.
#[derive(Clone, Copy, Debug, PartialEq, Eq, Structural)]
pub enum PathError {
    /// The path is not absolute.
    NotAbsolute,
    /// No active, focused window to take a working directory from.
    NoFocusedWindow,
    /// The focused window has no known working directory.
    NoWorkingDirectory,
}

/// A path that names a file from the root.
#[derive(Clone, Debug, PartialEq, Eq)]
pub struct AbsolutePath {
    buf: String,
}

/// The outcome of resolving `path` in `env`.
pub open spec fn resolved(path: Seq<char>, env: EnvironmentModel) -> Result<Seq<char>, PathError> {
    if absolute(path) {
        Ok(path)
    } else {
        match env {
            EnvironmentModel::Shell(cwd) => Ok(joined(cwd, path)),
            EnvironmentModel::Kitty(windows) => match focused_window(windows) {
                None => Err(PathError::NoFocusedWindow),
                Some(w) => match cwd_of(w) {
                    None => Err(PathError::NoWorkingDirectory),
                    Some(cwd) => Ok(joined(cwd, path)),
                },
            },
        }
    }
}

impl AbsolutePath {
    /// The path.
    pub closed spec fn view(&self) -> Seq<char> {
        self.buf@
    }

    /// `path`, when it is absolute.
    pub fn new(path: &str) -> (r: Result<AbsolutePath, PathError>)
        ensures
            r is Ok <==> absolute(path@),
            r matches Ok(p) ==> p.view() == path@,
            r matches Err(e) ==> e == PathError::NotAbsolute,
    {
        if is_absolute(path) {
            Ok(AbsolutePath { buf: String::from_str(path) })
        } else {
            Err(PathError::NotAbsolute)
        }
    }

    /// The path as text.
    pub fn as_str(&self) -> (r: &str)
        ensures
            r@ == self.view(),
    {
        self.buf.as_str()
    }

    /// Makes `path` absolute: an absolute path stays as it is; a relative one
    /// is taken from the shell's working directory, or, in the terminal, from
    /// the working directory of the active, focused window.
    pub fn resolve(path: &str, env: &Environment) -> (r: Result<AbsolutePath, PathError>)
        ensures
            match resolved(path@, env.deep_view()) {
                Ok(p) => r matches Ok(a) && a.view() == p,
                Err(e) => r == Err::<AbsolutePath, PathError>(e),
            },
    {
        if is_absolute(path) {
            return Ok(AbsolutePath { buf: String::from_str(path) });
        }
        match env {
            Environment::Shell(cwd) => Ok(AbsolutePath { buf: join(cwd.as_str(), path) }),
            Environment::Kitty(windows) => match focused_active_window(windows) {
                None => Err(PathError::NoFocusedWindow),
                Some(window) => match window_cwd(window) {
                    None => Err(PathError::NoWorkingDirectory),
                    Some(cwd) => Ok(AbsolutePath { buf: join(cwd.as_str(), path) }),
                },
            },
        }
    }
}

} // verus!
