//! The terminal's windows, as its window lister reports them, and the
//! lookups the server makes in them.

use vstd::prelude::*;
use vstd::string::StrSliceExecFns;

verus! {

/// The first `Some` that `f` gives over `xs`, in order.
pub open spec fn find_map<A, B>(xs: Seq<A>, f: spec_fn(A) -> Option<B>) -> Option<B>
    decreases xs.len(),
{
    if xs.len() == 0 {
        None
    } else {
        match f(xs[0]) {
            Some(b) => Some(b),
            None => find_map(xs.drop_first(), f),
        }
    }
}

/// Skipping elements for which `f` gives `None` does not change `find_map`.
pub proof fn lemma_find_map_skip<A, B>(xs: Seq<A>, f: spec_fn(A) -> Option<B>, i: int)
    requires
        0 <= i < xs.len(),
        f(xs[i]) is None,
    ensures
        find_map(xs.skip(i), f) == find_map(xs.skip(i + 1), f),
{
    assert(xs.skip(i).drop_first() =~= xs.skip(i + 1));
}

/// Model of a process.
pub struct ProcessModel {
    pub pid: u32,
    pub cwd: Option<Seq<char>>,
    pub cmdline: Seq<Seq<char>>,
}

/// A process running in the foreground of a window.
#[derive(Clone, Debug, PartialEq, Eq)]
pub struct Process {
    pub pid: u32,
    pub cwd: Option<String>,
    pub cmdline: Vec<String>,
}

impl DeepView for Process {
    type V = ProcessModel;

    open spec fn deep_view(&self) -> ProcessModel {
        ProcessModel { pid: self.pid, cwd: self.cwd.deep_view(), cmdline: self.cmdline.deep_view() }
    }
}

/// Model of a window.
pub struct WindowModel {
    pub id: u32,
    pub is_active: bool,
    pub is_focused: bool,
    pub foreground_processes: Seq<ProcessModel>,
}

/// A window of the terminal.
#[derive(Clone, Debug, PartialEq, Eq)]
pub struct Window {
    pub id: u32,
    pub is_active: bool,
    pub is_focused: bool,
    pub foreground_processes: Vec<Process>,
}

impl DeepView for Window {
    type V = WindowModel;

    open spec fn deep_view(&self) -> WindowModel {
        WindowModel {
            id: self.id,
            is_active: self.is_active,
            is_focused: self.is_focused,
            foreground_processes: self.foreground_processes.deep_view(),
        }
    }
}

/// Model of a tab.
pub struct TabModel {
    pub id: u32,
    pub is_active: bool,
    pub is_focused: bool,
    pub windows: Seq<WindowModel>,
}

/// A tab of an OS window, holding windows.
#[derive(Clone, Debug, PartialEq, Eq)]
pub struct Tab {
    pub id: u32,
    pub is_active: bool,
    pub is_focused: bool,
    pub windows: Vec<Window>,
}

impl DeepView for Tab {
    type V = TabModel;

    open spec fn deep_view(&self) -> TabModel {
        TabModel {
            id: self.id,
            is_active: self.is_active,
            is_focused: self.is_focused,
            windows: self.windows.deep_view(),
        }
    }
}

/// Model of an OS window.
pub struct OsWindowModel {
    pub id: u32,
    pub is_active: bool,
    pub is_focused: bool,
    pub tabs: Seq<TabModel>,
}

/// A top-level window of the terminal, holding tabs.
#[derive(Clone, Debug, PartialEq, Eq)]
pub struct OsWindow {
    pub id: u32,
    pub is_active: bool,
    pub is_focused: bool,
    pub tabs: Vec<Tab>,
}

impl DeepView for OsWindow {
    type V = OsWindowModel;

    open spec fn deep_view(&self) -> OsWindowModel {
        OsWindowModel {
            id: self.id,
            is_active: self.is_active,
            is_focused: self.is_focused,
            tabs: self.tabs.deep_view(),
        }
    }
}

/// The window if it is active and focused.
pub open spec fn window_if_focused(w: WindowModel) -> Option<WindowModel> {
    if w.is_active && w.is_focused {
        Some(w)
    } else {
        None
    }
}

/// The first active, focused window of a tab that is itself active and focused.
pub open spec fn tab_focused_window(t: TabModel) -> Option<WindowModel> {
    if t.is_active && t.is_focused {
        find_map(t.windows, window_focus())
    } else {
        None
    }
}

/// The first focused window of an OS window that is active and focused.
pub open spec fn os_window_focused_window(o: OsWindowModel) -> Option<WindowModel> {
    if o.is_active && o.is_focused {
        find_map(o.tabs, tab_focus())
    } else {
        None
    }
}

/// The active, focused window: the first active and focused window of the
/// first active and focused tab of an active and focused OS window.
pub open spec fn focused_window(windows: Seq<OsWindowModel>) -> Option<WindowModel> {
    find_map(windows, os_window_focus())
}

/// `window_if_focused` as a function value.
pub open spec fn window_focus() -> spec_fn(WindowModel) -> Option<WindowModel> {
    |w: WindowModel| window_if_focused(w)
}

/// `tab_focused_window` as a function value.
pub open spec fn tab_focus() -> spec_fn(TabModel) -> Option<WindowModel> {
    |t: TabModel| tab_focused_window(t)
}

/// `os_window_focused_window` as a function value.
pub open spec fn os_window_focus() -> spec_fn(OsWindowModel) -> Option<WindowModel> {
    |o: OsWindowModel| os_window_focused_window(o)
}

fn tab_focused(tab: &Tab) -> (r: Option<&Window>)
    ensures
        r.deep_view() == tab_focused_window(tab.deep_view()),
{
    if !(tab.is_active && tab.is_focused) {
        return None;
    }
    let ghost ws = tab.windows.deep_view();
    let ghost f = window_focus();
    let mut i: usize = 0;
    assert(ws.skip(0) =~= ws);
    while i < tab.windows.len()
        invariant
            i <= tab.windows@.len(),
            ws == tab.windows.deep_view(),
            tab.is_active && tab.is_focused,
            f == window_focus(),
            find_map(ws, f) == find_map(ws.skip(i as int), f),
        decreases tab.windows@.len() - i,
    {
        let w = &tab.windows[i];
        assert(ws[i as int] == w.deep_view());
        assert(ws.skip(i as int)[0] == ws[i as int]);
        if w.is_active && w.is_focused {
            assert(f(ws[i as int]) == Some(w.deep_view()));
            assert(find_map(ws.skip(i as int), f) == Some(w.deep_view()));
            return Some(w);
        }
        proof {
            lemma_find_map_skip(ws, f, i as int);
        }
        i = i + 1;
    }
    assert(ws.skip(i as int).len() == 0);
    None
}

fn os_window_focused(o: &OsWindow) -> (r: Option<&Window>)
    ensures
        r.deep_view() == os_window_focused_window(o.deep_view()),
{
    if !(o.is_active && o.is_focused) {
        return None;
    }
    let ghost ts = o.tabs.deep_view();
    let ghost f = tab_focus();
    let mut i: usize = 0;
    assert(ts.skip(0) =~= ts);
    while i < o.tabs.len()
        invariant
            i <= o.tabs@.len(),
            ts == o.tabs.deep_view(),
            o.is_active && o.is_focused,
            f == tab_focus(),
            find_map(ts, f) == find_map(ts.skip(i as int), f),
        decreases o.tabs@.len() - i,
    {
        assert(ts[i as int] == o.tabs[i as int].deep_view());
        assert(ts.skip(i as int)[0] == ts[i as int]);
        match tab_focused(&o.tabs[i]) {
            Some(w) => {
                assert(f(ts[i as int]) == Some(w.deep_view()));
                assert(find_map(ts.skip(i as int), f) == Some(w.deep_view()));
                return Some(w);
            },
            None => {},
        }
        proof {
            lemma_find_map_skip(ts, f, i as int);
        }
        i = i + 1;
    }
    assert(ts.skip(i as int).len() == 0);
    None
}

/// The active, focused window, if there is one.
pub fn focused_active_window(windows: &Vec<OsWindow>) -> (r: Option<&Window>)
    ensures
        r.deep_view() == focused_window(windows.deep_view()),
{
    let ghost os = windows.deep_view();
    let ghost f = os_window_focus();
    let mut i: usize = 0;
    assert(os.skip(0) =~= os);
    while i < windows.len()
        invariant
            i <= windows@.len(),
            os == windows.deep_view(),
            f == os_window_focus(),
            find_map(os, f) == find_map(os.skip(i as int), f),
        decreases windows@.len() - i,
    {
        assert(os[i as int] == windows[i as int].deep_view());
        assert(os.skip(i as int)[0] == os[i as int]);
        match os_window_focused(&windows[i]) {
            Some(w) => {
                assert(f(os[i as int]) == Some(w.deep_view()));
                return Some(w);
            },
            None => {},
        }
        proof {
            lemma_find_map_skip(os, f, i as int);
        }
        i = i + 1;
    }
    assert(os.skip(i as int).len() == 0);
    None
}

/// Whether `s` ends with `suffix`.
pub open spec fn ends_in(s: Seq<char>, suffix: Seq<char>) -> bool {
    suffix.len() <= s.len() && s.skip(s.len() - suffix.len()) == suffix
}

/// Whether `s` ends with `suffix`.
fn ends_with(s: &str, suffix: &str) -> (r: bool)
    ensures
        r == ends_in(s@, suffix@),
{
    let n = s.unicode_len();
    let m = suffix.unicode_len();
    if m > n {
        return false;
    }
    let start = n - m;
    let mut i: usize = 0;
    while i < m
        invariant
            n == s@.len(),
            m == suffix@.len(),
            m <= n,
            start == n - m,
            i <= m,
            forall|j: int| 0 <= j < i ==> #[trigger] s@[start + j] == suffix@[j],
        decreases m - i,
    {
        if s.get_char(start + i) != suffix.get_char(i) {
            assert(s@.skip(start as int)[i as int] != suffix@[i as int]);
            return false;
        }
        i = i + 1;
    }
    assert forall|j: int| 0 <= j < m implies #[trigger] s@.skip(start as int)[j] == suffix@[j] by {
        assert(s@[start + j] == suffix@[j]);
    }
    assert(s@.skip(start as int) =~= suffix@);
    true
}

/// Names the parent that `Path::parent` gives for a path.
pub uninterp spec fn parent_of(path: Seq<char>) -> Option<Seq<char>>;

/// Relies on `Path::parent`: the path without its last component, none for
/// a root or an empty path; it depends on the path alone.
#[verifier::external_body]
fn path_parent(path: &str) -> (r: Option<String>)
    ensures
        r.deep_view() == parent_of(path@),
{
    std::path::Path::new(path).parent().and_then(|p| p.to_str()).map(|p| p.to_string())
}

/// Names what `Path::starts_with` says of two paths.
pub uninterp spec fn path_within(path: Seq<char>, base: Seq<char>) -> bool;

/// Relies on `Path::starts_with`: whether the components of `base` begin the
/// components of `path`; it depends on the two paths alone.
#[verifier::external_body]
fn path_starts_with(path: &str, base: &str) -> (r: bool)
    ensures
        r == path_within(path@, base@),
{
    std::path::Path::new(path).starts_with(base)
}

/// Whether the process runs the editor: one of its command-line words ends
/// with `bin/hx`.
pub open spec fn is_editor(p: ProcessModel) -> bool {
    exists|i: int| 0 <= i < p.cmdline.len() && ends_in(#[trigger] p.cmdline[i], "bin/hx"@)
}

/// Whether the file at `path` lies in the working directory of the process.
pub open spec fn in_workspace(p: ProcessModel, path: Seq<char>) -> bool {
    match (parent_of(path), p.cwd) {
        (Some(dir), Some(cwd)) => path_within(dir, cwd),
        _ => false,
    }
}

/// Whether a window runs the editor in a workspace that holds `path`.
pub open spec fn hosts_workspace(w: WindowModel, path: Seq<char>) -> bool {
    exists|i: int|
        0 <= i < w.foreground_processes.len() && is_editor(#[trigger] w.foreground_processes[i])
            && in_workspace(w.foreground_processes[i], path)
}

/// The window if it hosts the workspace of `path`.
pub open spec fn workspace_focus(path: Seq<char>) -> spec_fn(WindowModel) -> Option<WindowModel> {
    |w: WindowModel|
        if hosts_workspace(w, path) {
            Some(w)
        } else {
            None
        }
}

/// The first window of a tab that hosts the workspace of `path`.
pub open spec fn tab_workspace(path: Seq<char>) -> spec_fn(TabModel) -> Option<WindowModel> {
    |t: TabModel| find_map(t.windows, workspace_focus(path))
}

/// The first window of an OS window that hosts the workspace of `path`.
pub open spec fn os_window_workspace(path: Seq<char>) -> spec_fn(OsWindowModel) -> Option<
    WindowModel,
> {
    |o: OsWindowModel| find_map(o.tabs, tab_workspace(path))
}

/// The first window, in listing order, whose editor works in a directory
/// that holds `path`.
pub open spec fn workspace_window(windows: Seq<OsWindowModel>, path: Seq<char>) -> Option<
    WindowModel,
> {
    find_map(windows, os_window_workspace(path))
}

/// The window if its id is `id`.
pub open spec fn id_focus(id: u32) -> spec_fn(WindowModel) -> Option<WindowModel> {
    |w: WindowModel|
        if w.id == id {
            Some(w)
        } else {
            None
        }
}

/// The first window of a tab whose id is `id`.
pub open spec fn tab_id_focus(id: u32) -> spec_fn(TabModel) -> Option<WindowModel> {
    |t: TabModel| find_map(t.windows, id_focus(id))
}

/// The first window of an OS window whose id is `id`.
pub open spec fn os_window_id_focus(id: u32) -> spec_fn(OsWindowModel) -> Option<WindowModel> {
    |o: OsWindowModel| find_map(o.tabs, tab_id_focus(id))
}

/// The first window, in listing order, whose id is `id`.
pub open spec fn window_by_id(windows: Seq<OsWindowModel>, id: u32) -> Option<WindowModel> {
    find_map(windows, os_window_id_focus(id))
}

/// Whether `p` runs the editor.
fn is_helix_bin(p: &Process) -> (r: bool)
    ensures
        r == is_editor(p.deep_view()),
{
    let ghost words = p.deep_view().cmdline;
    let mut i: usize = 0;
    while i < p.cmdline.len()
        invariant
            i <= p.cmdline@.len(),
            words == p.deep_view().cmdline,
            forall|j: int| 0 <= j < i ==> !ends_in(#[trigger] words[j], "bin/hx"@),
        decreases p.cmdline@.len() - i,
    {
        assert(words[i as int] == p.cmdline@[i as int]@);
        if ends_with(p.cmdline[i].as_str(), "bin/hx") {
            return true;
        }
        i = i + 1;
    }
    false
}

/// Whether the file at `path` lies in the working directory of `p`.
fn is_in_workspace(p: &Process, path: &str) -> (r: bool)
    ensures
        r == in_workspace(p.deep_view(), path@),
{
    match (path_parent(path), &p.cwd) {
        (Some(dir), Some(cwd)) => path_starts_with(dir.as_str(), cwd.as_str()),
        _ => false,
    }
}

fn window_hosts(w: &Window, path: &str) -> (r: bool)
    ensures
        r == hosts_workspace(w.deep_view(), path@),
{
    let ghost procs = w.deep_view().foreground_processes;
    let mut i: usize = 0;
    while i < w.foreground_processes.len()
        invariant
            i <= w.foreground_processes@.len(),
            procs == w.deep_view().foreground_processes,
            forall|j: int|
                0 <= j < i ==> !(is_editor(#[trigger] procs[j]) && in_workspace(procs[j], path@)),
        decreases w.foreground_processes@.len() - i,
    {
        let p = &w.foreground_processes[i];
        assert(procs[i as int] == p.deep_view());
        if is_helix_bin(p) && is_in_workspace(p, path) {
            return true;
        }
        i = i + 1;
    }
    false
}

fn tab_workspace_window<'a>(t: &'a Tab, path: &str) -> (r: Option<&'a Window>)
    ensures
        r.deep_view() == tab_workspace(path@)(t.deep_view()),
{
    let ghost ws = t.windows.deep_view();
    let ghost f = workspace_focus(path@);
    let mut i: usize = 0;
    assert(ws.skip(0) =~= ws);
    while i < t.windows.len()
        invariant
            i <= t.windows@.len(),
            ws == t.windows.deep_view(),
            f == workspace_focus(path@),
            find_map(ws, f) == find_map(ws.skip(i as int), f),
        decreases t.windows@.len() - i,
    {
        let w = &t.windows[i];
        assert(ws[i as int] == w.deep_view());
        assert(ws.skip(i as int)[0] == ws[i as int]);
        if window_hosts(w, path) {
            assert(f(ws[i as int]) == Some(w.deep_view()));
            return Some(w);
        }
        proof {
            lemma_find_map_skip(ws, f, i as int);
        }
        i = i + 1;
    }
    assert(ws.skip(i as int).len() == 0);
    None
}

fn os_window_workspace_window<'a>(o: &'a OsWindow, path: &str) -> (r: Option<&'a Window>)
    ensures
        r.deep_view() == os_window_workspace(path@)(o.deep_view()),
{
    let ghost ts = o.tabs.deep_view();
    let ghost f = tab_workspace(path@);
    let mut i: usize = 0;
    assert(ts.skip(0) =~= ts);
    while i < o.tabs.len()
        invariant
            i <= o.tabs@.len(),
            ts == o.tabs.deep_view(),
            f == tab_workspace(path@),
            find_map(ts, f) == find_map(ts.skip(i as int), f),
        decreases o.tabs@.len() - i,
    {
        assert(ts[i as int] == o.tabs[i as int].deep_view());
        assert(ts.skip(i as int)[0] == ts[i as int]);
        match tab_workspace_window(&o.tabs[i], path) {
            Some(w) => {
                assert(f(ts[i as int]) == Some(w.deep_view()));
                return Some(w);
            },
            None => {},
        }
        proof {
            lemma_find_map_skip(ts, f, i as int);
        }
        i = i + 1;
    }
    assert(ts.skip(i as int).len() == 0);
    None
}

/// The first window, in listing order, that runs the editor in a working
/// directory holding `path`, if there is one.
pub fn find_workspace<'a>(windows: &'a Vec<OsWindow>, path: &str) -> (r: Option<&'a Window>)
    ensures
        r.deep_view() == workspace_window(windows.deep_view(), path@),
{
    let ghost os = windows.deep_view();
    let ghost f = os_window_workspace(path@);
    let mut i: usize = 0;
    assert(os.skip(0) =~= os);
    while i < windows.len()
        invariant
            i <= windows@.len(),
            os == windows.deep_view(),
            f == os_window_workspace(path@),
            find_map(os, f) == find_map(os.skip(i as int), f),
        decreases windows@.len() - i,
    {
        assert(os[i as int] == windows[i as int].deep_view());
        assert(os.skip(i as int)[0] == os[i as int]);
        match os_window_workspace_window(&windows[i], path) {
            Some(w) => {
                assert(f(os[i as int]) == Some(w.deep_view()));
                return Some(w);
            },
            None => {},
        }
        proof {
            lemma_find_map_skip(os, f, i as int);
        }
        i = i + 1;
    }
    assert(os.skip(i as int).len() == 0);
    None
}

fn tab_window_with_id<'a>(t: &'a Tab, id: u32) -> (r: Option<&'a Window>)
    ensures
        r.deep_view() == tab_id_focus(id)(t.deep_view()),
{
    let ghost ws = t.windows.deep_view();
    let ghost f = id_focus(id);
    let mut i: usize = 0;
    assert(ws.skip(0) =~= ws);
    while i < t.windows.len()
        invariant
            i <= t.windows@.len(),
            ws == t.windows.deep_view(),
            f == id_focus(id),
            find_map(ws, f) == find_map(ws.skip(i as int), f),
        decreases t.windows@.len() - i,
    {
        let w = &t.windows[i];
        assert(ws[i as int] == w.deep_view());
        assert(ws.skip(i as int)[0] == ws[i as int]);
        if w.id == id {
            assert(f(ws[i as int]) == Some(w.deep_view()));
            return Some(w);
        }
        proof {
            lemma_find_map_skip(ws, f, i as int);
        }
        i = i + 1;
    }
    assert(ws.skip(i as int).len() == 0);
    None
}

fn os_window_window_with_id<'a>(o: &'a OsWindow, id: u32) -> (r: Option<&'a Window>)
    ensures
        r.deep_view() == os_window_id_focus(id)(o.deep_view()),
{
    let ghost ts = o.tabs.deep_view();
    let ghost f = tab_id_focus(id);
    let mut i: usize = 0;
    assert(ts.skip(0) =~= ts);
    while i < o.tabs.len()
        invariant
            i <= o.tabs@.len(),
            ts == o.tabs.deep_view(),
            f == tab_id_focus(id),
            find_map(ts, f) == find_map(ts.skip(i as int), f),
        decreases o.tabs@.len() - i,
    {
        assert(ts[i as int] == o.tabs[i as int].deep_view());
        assert(ts.skip(i as int)[0] == ts[i as int]);
        match tab_window_with_id(&o.tabs[i], id) {
            Some(w) => {
                assert(f(ts[i as int]) == Some(w.deep_view()));
                return Some(w);
            },
            None => {},
        }
        proof {
            lemma_find_map_skip(ts, f, i as int);
        }
        i = i + 1;
    }
    assert(ts.skip(i as int).len() == 0);
    None
}

/// The first window, in listing order, with id `id`, if there is one.
pub fn find_window_by_id<'a>(windows: &'a Vec<OsWindow>, id: u32) -> (r: Option<&'a Window>)
    ensures
        r.deep_view() == window_by_id(windows.deep_view(), id),
{
    let ghost os = windows.deep_view();
    let ghost f = os_window_id_focus(id);
    let mut i: usize = 0;
    assert(os.skip(0) =~= os);
    while i < windows.len()
        invariant
            i <= windows@.len(),
            os == windows.deep_view(),
            f == os_window_id_focus(id),
            find_map(os, f) == find_map(os.skip(i as int), f),
        decreases windows@.len() - i,
    {
        assert(os[i as int] == windows[i as int].deep_view());
        assert(os.skip(i as int)[0] == os[i as int]);
        match os_window_window_with_id(&windows[i], id) {
            Some(w) => {
                assert(f(os[i as int]) == Some(w.deep_view()));
                return Some(w);
            },
            None => {},
        }
        proof {
            lemma_find_map_skip(os, f, i as int);
        }
        i = i + 1;
    }
    assert(os.skip(i as int).len() == 0);
    None
}

/// The working directory of a window: that of its first foreground process.
pub open spec fn cwd_of(w: WindowModel) -> Option<Seq<char>> {
    if w.foreground_processes.len() > 0 {
        w.foreground_processes[0].cwd
    } else {
        None
    }
}

/// The working directory of `window`: that of its first foreground process,
/// if it has one and it is known.
pub fn window_cwd(window: &Window) -> (r: Option<&String>)
    ensures
        r.deep_view() == cwd_of(window.deep_view()),
{
    if window.foreground_processes.len() == 0 {
        None
    } else {
        let p = &window.foreground_processes[0];
        assert(window.deep_view().foreground_processes[0] == p.deep_view());
        match &p.cwd {
            Some(cwd) => Some(cwd),
            None => None,
        }
    }
}

} // verus!
