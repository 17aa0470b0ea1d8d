//! Opening a file in the editor directly, without the server: which window
//! to drive and which keystrokes to type into it.

use crate::paths::{strip_prefix, stripped, AbsolutePath};
use crate::server::Failure;
use crate::terminal::{
    cwd_of, find_window_by_id, find_workspace, window_by_id, window_cwd, workspace_window,
    OsWindow, OsWindowModel, Window, WindowModel,
};
use vstd::prelude::*;
use vstd::string::{StrSliceExecFns, StringExecFns};

verus! {

/// Model of an editor step.
pub enum EditorStepModel {
    WriteOpenFile(Seq<char>),
    Focus(u32),
    SendText(u32, Seq<char>),
}

/// One thing to do to the terminal, or for the editor, to open a file.
#[derive(Clone, Debug, PartialEq, Eq)]
pub enum EditorStep {
    /// Leave this path for the editor's `felis-open` plugin command to read.
    WriteOpenFile(String),
    /// Focus this window.
    Focus(u32),
    /// Type this text into this window.
    SendText(u32, String),
}

impl DeepView for EditorStep {
    type V = EditorStepModel;

    open spec fn deep_view(&self) -> EditorStepModel {
        match self {
            EditorStep::WriteOpenFile(p) => EditorStepModel::WriteOpenFile(p@),
            EditorStep::Focus(w) => EditorStepModel::Focus(*w),
            EditorStep::SendText(w, t) => EditorStepModel::SendText(*w, t@),
        }
    }
}

/// `s` without its newline characters.
pub open spec fn drop_newlines(s: Seq<char>) -> Seq<char>
    decreases s.len(),
{
    if s.len() == 0 {
        seq![]
    } else if s.last() == '\n' {
        drop_newlines(s.drop_last())
    } else {
        drop_newlines(s.drop_last()).push(s.last())
    }
}

/// Names what `str::trim` leaves of a text.
pub uninterp spec fn trimmed(s: Seq<char>) -> Seq<char>;

/// Relies on `str::trim`: the text without leading and trailing white space;
/// it depends on the text alone.
#[verifier::external_body]
fn trim(s: &str) -> (r: String)
    ensures
        r@ == trimmed(s@),
{
    s.trim().to_string()
}

/// Removes the newlines from `s`, as a path copied from a narrow terminal
/// may hold some.
pub fn without_newlines(s: &str) -> (r: String)
    ensures
        r@ == drop_newlines(s@),
{
    let n = s.unicode_len();
    let mut r = String::new();
    let mut i: usize = 0;
    proof {
        reveal_strlit("\n");
    }
    while i < n
        invariant
            n == s@.len(),
            i <= n,
            r@ == drop_newlines(s@.take(i as int)),
        decreases n - i,
    {
        let c = s.get_char(i);
        assert(s@.take(i + 1).drop_last() =~= s@.take(i as int));
        if c != '\n' {
            r.append(s.substring_char(i, i + 1));
            assert(s@.subrange(i as int, i + 1) =~= seq![c]);
        }
        i = i + 1;
    }
    assert(s@.take(n as int) =~= s@);
    r
}

/// What is typed for `rel` relative to the editor's directory: the path
/// without newlines, trimmed.
pub open spec fn typed_path(rel: Seq<char>) -> Seq<char> {
    trimmed(drop_newlines(rel))
}

/// The steps that open `rel` in the editor of `window`. With the editor's
/// `felis-open` plugin the path is left in a file and the plugin command run;
/// otherwise the path is pasted on the command line first, so that the
/// editor does not complete each segment as it is typed, and `open ` is put
/// before it.
pub open spec fn helix_steps(window: u32, rel: Seq<char>, steel: bool) -> Seq<EditorStepModel> {
    if steel {
        seq![
            EditorStepModel::WriteOpenFile(rel),
            EditorStepModel::Focus(window),
            EditorStepModel::SendText(window, "\\E"@),
            EditorStepModel::SendText(window, ":felis-open\\r"@),
        ]
    } else {
        seq![
            EditorStepModel::Focus(window),
            EditorStepModel::SendText(window, "\\E"@),
            EditorStepModel::SendText(window, ":"@),
            EditorStepModel::SendText(window, rel),
            EditorStepModel::SendText(window, "\\x01open \\r"@),
        ]
    }
}

/// The window to drive: the one with the requested id, or else the first
/// whose editor works in a directory holding the file.
pub open spec fn editor_window(
    path: Seq<char>,
    kitty_tab_id: Option<u32>,
    windows: Seq<OsWindowModel>,
) -> Result<WindowModel, Failure> {
    match kitty_tab_id {
        Some(id) => match window_by_id(windows, id) {
            Some(w) => Ok(w),
            None => Err(Failure::WindowNotFound),
        },
        None => match workspace_window(windows, path) {
            Some(w) => Ok(w),
            None => Err(Failure::WorkspaceNotFound),
        },
    }
}

/// The steps that open the file at `path` in the editor, or why there are none.
pub open spec fn open_plan(
    path: Seq<char>,
    kitty_tab_id: Option<u32>,
    windows: Seq<OsWindowModel>,
    steel: bool,
) -> Result<Seq<EditorStepModel>, Failure> {
    match editor_window(path, kitty_tab_id, windows) {
        Err(f) => Err(f),
        Ok(w) => match cwd_of(w) {
            None => Err(Failure::UnknownWorkingDirectory),
            Some(cwd) => match stripped(path, cwd) {
                None => Err(Failure::OutsideWorkingDirectory),
                Some(rel) => Ok(helix_steps(w.id, typed_path(rel), steel)),
            },
        },
    }
}

/// The steps that open `rel` in the editor of `window`.
pub fn helix_open_steps(window: u32, rel: &str, steel: bool) -> (r: Vec<EditorStep>)
    ensures
        r.deep_view() == helix_steps(window, rel@, steel),
{
    let mut r: Vec<EditorStep> = Vec::new();
    if steel {
        r.push(EditorStep::WriteOpenFile(String::from_str(rel)));
        r.push(EditorStep::Focus(window));
        r.push(EditorStep::SendText(window, String::from_str("\\E")));
        r.push(EditorStep::SendText(window, String::from_str(":felis-open\\r")));
    } else {
        r.push(EditorStep::Focus(window));
        r.push(EditorStep::SendText(window, String::from_str("\\E")));
        r.push(EditorStep::SendText(window, String::from_str(":")));
        r.push(EditorStep::SendText(window, String::from_str(rel)));
        r.push(EditorStep::SendText(window, String::from_str("\\x01open \\r")));
    }
    assert(r.deep_view() =~= helix_steps(window, rel@, steel));
    r
}

/// Plans opening the file at `path` in the editor running in the window
/// with id `kitty_tab_id`, or else in the window whose editor works in a
/// directory holding the file. The path is typed relative to that window's
/// working directory, without newlines and trimmed.
pub fn open_in_helix(
    path: &AbsolutePath,
    kitty_tab_id: Option<u32>,
    windows: &Vec<OsWindow>,
    steel: bool,
) -> (r: Result<Vec<EditorStep>, Failure>)
    ensures
        match open_plan(path.view(), kitty_tab_id, windows.deep_view(), steel) {
            Ok(steps) => r matches Ok(v) && v.deep_view() == steps,
            Err(f) => r == Err::<Vec<EditorStep>, Failure>(f),
        },
{
    let window: &Window = match kitty_tab_id {
        Some(id) => match find_window_by_id(windows, id) {
            Some(w) => w,
            None => return Err(Failure::WindowNotFound),
        },
        None => match find_workspace(windows, path.as_str()) {
            Some(w) => w,
            None => return Err(Failure::WorkspaceNotFound),
        },
    };
    let cwd = match window_cwd(window) {
        Some(c) => c,
        None => return Err(Failure::UnknownWorkingDirectory),
    };
    let rel = match strip_prefix(path.as_str(), cwd.as_str()) {
        Some(rel) => rel,
        None => return Err(Failure::OutsideWorkingDirectory),
    };
    let rel = trim(without_newlines(rel.as_str()).as_str());
    Ok(helix_open_steps(window.id, rel.as_str(), steel))
}

} // verus!
