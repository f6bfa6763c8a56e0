//! Hot reload: which file-system events call for a rebuild, and the state machine that
//! debounces changes, runs one build at a time, installs the result, and retries once
//! after cleaning when the install fails on an SDK symbol mismatch.

use vstd::prelude::*;
use vstd::utf8::valid_utf8;

verus! {

/// One component of a path, its text as raw bytes.
pub enum PathComponent {
    Prefix(Vec<u8>),
    RootDir,
    CurDir,
    ParentDir,
    Normal(Vec<u8>),
}

/// The mathematical value of a [`PathComponent`].
pub enum ComponentView {
    Prefix(Seq<u8>),
    RootDir,
    CurDir,
    ParentDir,
    Normal(Seq<u8>),
}

impl View for PathComponent {
    type V = ComponentView;

    open spec fn view(&self) -> ComponentView {
        match *self {
            PathComponent::Prefix(b) => ComponentView::Prefix(b@),
            PathComponent::RootDir => ComponentView::RootDir,
            PathComponent::CurDir => ComponentView::CurDir,
            PathComponent::ParentDir => ComponentView::ParentDir,
            PathComponent::Normal(b) => ComponentView::Normal(b@),
        }
    }
}

pub open spec fn path_view(p: Seq<PathComponent>) -> Seq<ComponentView> {
    p.map_values(|c: PathComponent| c@)
}

/// Calls `std::str::from_utf8`, which accepts exactly the byte strings that are valid
/// UTF-8; the contract states that with vstd's definition of valid UTF-8.
#[verifier::external_body]
fn is_utf8(bytes: &[u8]) -> (r: bool)
    ensures
        r == valid_utf8(bytes@),
{
    std::str::from_utf8(bytes).is_ok()
}

/// The text of a component as the operating system spells it.
pub open spec fn os_text(c: ComponentView) -> Seq<u8> {
    match c {
        ComponentView::Prefix(b) => b,
        ComponentView::RootDir => seq![0x2fu8],
        ComponentView::CurDir => seq![0x2eu8],
        ComponentView::ParentDir => seq![0x2eu8, 0x2eu8],
        ComponentView::Normal(b) => b,
    }
}

pub open spec fn starts_with(s: Seq<u8>, p: Seq<u8>) -> bool {
    p.len() <= s.len() && s.subrange(0, p.len() as int) == p
}

pub open spec fn ends_with(s: Seq<u8>, p: Seq<u8>) -> bool {
    p.len() <= s.len() && s.subrange(s.len() - p.len(), s.len() as int) == p
}

/// `.git`
pub open spec fn dot_git() -> Seq<u8> {
    seq![0x2eu8, 0x67u8, 0x69u8, 0x74u8]
}

/// `.rs`
pub open spec fn dot_rs() -> Seq<u8> {
    seq![0x2eu8, 0x72u8, 0x73u8]
}

/// `Cargo.toml`
pub open spec fn cargo_toml() -> Seq<u8> {
    seq![0x43u8, 0x61u8, 0x72u8, 0x67u8, 0x6fu8, 0x2eu8, 0x74u8, 0x6fu8, 0x6du8, 0x6cu8]
}

/// `target`
pub open spec fn target_dir() -> Seq<u8> {
    seq![0x74u8, 0x61u8, 0x72u8, 0x67u8, 0x65u8, 0x74u8]
}

/// A component that is valid UTF-8 and starts with `.git`.
pub open spec fn is_git_component(c: ComponentView) -> bool {
    valid_utf8(os_text(c)) && starts_with(os_text(c), dot_git())
}

/// The file name of a path: its last component, when that is a normal one.
pub open spec fn file_name(p: Seq<ComponentView>) -> Option<Seq<u8>> {
    if p.len() == 0 {
        None
    } else {
        match p.last() {
            ComponentView::Normal(b) => Some(b),
            _ => None,
        }
    }
}

/// The name of an editor's backup or lock file: ending in `~`, or starting with `#` or `.#`.
pub open spec fn is_scratch_name(name: Seq<u8>) -> bool {
    ends_with(name, seq![0x7eu8]) || starts_with(name, seq![0x23u8]) || starts_with(name, seq![0x2eu8, 0x23u8])
}

/// A file name whose extension is `rs`: something, then `.rs`. (A name that is only
/// `.rs` has no extension.)
pub open spec fn has_rs_extension(name: Seq<u8>) -> bool {
    name.len() >= 4 && ends_with(name, dot_rs())
}

/// `src`
pub open spec fn src_dir() -> Seq<u8> {
    seq![0x73u8, 0x72u8, 0x63u8]
}

/// Whether `path` lies inside the directory `dir` directly under `root`.
pub open spec fn inside(path: Seq<ComponentView>, root: Seq<ComponentView>, dir: Seq<u8>) -> bool {
    let d = root.push(ComponentView::Normal(dir));
    d.len() <= path.len() && path.subrange(0, d.len() as int) == d
}

/// Whether a change to this path calls for a rebuild: nothing under `<root>/target`,
/// nothing with a component starting with `.git`, no file whose name is not UTF-8, no
/// editor backup or lock file; then a file named `Cargo.toml`, and a `.rs` file under
/// `<root>/src`, do.
pub open spec fn path_relevant(path: Seq<ComponentView>, root: Seq<ComponentView>) -> bool {
    if inside(path, root, target_dir()) {
        false
    } else if exists|i: int| 0 <= i < path.len() && is_git_component(#[trigger] path[i]) {
        false
    } else {
        match file_name(path) {
            None => false,
            Some(name) => valid_utf8(name) && !is_scratch_name(name) && (name == cargo_toml()
                || (has_rs_extension(name) && inside(path, root, src_dir()))),
        }
    }
}

fn bytes_eq(a: &Vec<u8>, b: &[u8]) -> (r: bool)
    ensures
        r == (a@ == b@),
{
    if a.len() != b.len() {
        return false;
    }
    let mut i: usize = 0;
    while i < a.len()
        invariant
            0 <= i <= a.len(),
            a@.len() == b@.len(),
            forall|j: int| 0 <= j < i ==> a@[j] == b@[j],
        decreases a.len() - i,
    {
        if a[i] != b[i] {
            return false;
        }
        i += 1;
    }
    assert(a@ =~= b@);
    true
}

fn bytes_start_with(s: &[u8], p: &[u8]) -> (r: bool)
    ensures
        r == starts_with(s@, p@),
{
    if p.len() > s.len() {
        return false;
    }
    let mut i: usize = 0;
    while i < p.len()
        invariant
            0 <= i <= p.len(),
            p@.len() <= s@.len(),
            forall|j: int| 0 <= j < i ==> s@[j] == p@[j],
        decreases p.len() - i,
    {
        if s[i] != p[i] {
            assert(s@.subrange(0, p@.len() as int)[i as int] != p@[i as int]);
            return false;
        }
        i += 1;
    }
    assert(s@.subrange(0, p@.len() as int) =~= p@);
    true
}

fn bytes_end_with(s: &[u8], p: &[u8]) -> (r: bool)
    ensures
        r == ends_with(s@, p@),
{
    if p.len() > s.len() {
        return false;
    }
    let off = s.len() - p.len();
    let mut i: usize = 0;
    while i < p.len()
        invariant
            0 <= i <= p.len(),
            p@.len() <= s@.len(),
            off == s@.len() - p@.len(),
            off + p@.len() == s@.len(),
            s@.len() == s.len(),
            off + p.len() == s.len(),
            forall|j: int| 0 <= j < i ==> s@[off + j] == p@[j],
        decreases p.len() - i,
    {
        assert(off + i < s@.len());
        if s[off + i] != p[i] {
            assert(s@.subrange(off as int, s@.len() as int)[i as int] != p@[i as int]);
            return false;
        }
        i += 1;
    }
    assert(s@.subrange(off as int, s@.len() as int) =~= p@);
    true
}

fn component_eq(a: &PathComponent, b: &PathComponent) -> (r: bool)
    ensures
        r == (a@ == b@),
{
    match (a, b) {
        (PathComponent::Prefix(x), PathComponent::Prefix(y)) => bytes_eq(x, y.as_slice()),
        (PathComponent::RootDir, PathComponent::RootDir) => true,
        (PathComponent::CurDir, PathComponent::CurDir) => true,
        (PathComponent::ParentDir, PathComponent::ParentDir) => true,
        (PathComponent::Normal(x), PathComponent::Normal(y)) => bytes_eq(x, y.as_slice()),
        _ => false,
    }
}

fn is_git_component_exec(c: &PathComponent) -> (r: bool)
    ensures
        r == is_git_component(c@),
{
    let git: [u8; 4] = [0x2e, 0x67, 0x69, 0x74];
    assert(git@ =~= dot_git());
    match c {
        PathComponent::Prefix(b) => is_utf8(b.as_slice()) && bytes_start_with(b.as_slice(), &git),
        PathComponent::Normal(b) => is_utf8(b.as_slice()) && bytes_start_with(b.as_slice(), &git),
        PathComponent::RootDir => {
            let t: [u8; 1] = [0x2f];
            assert(t@ =~= seq![0x2fu8]);
            is_utf8(&t) && bytes_start_with(&t, &git)
        },
        PathComponent::CurDir => {
            let t: [u8; 1] = [0x2e];
            assert(t@ =~= seq![0x2eu8]);
            is_utf8(&t) && bytes_start_with(&t, &git)
        },
        PathComponent::ParentDir => {
            let t: [u8; 2] = [0x2e, 0x2e];
            assert(t@ =~= seq![0x2eu8, 0x2eu8]);
            is_utf8(&t) && bytes_start_with(&t, &git)
        },
    }
}

/// Whether a change to `path` calls for a rebuild of the project at `project_root`.
/// Whether `path` lies inside the directory `dir` directly under `root`.
fn is_inside(path: &Vec<PathComponent>, project_root: &Vec<PathComponent>, dir: &[u8]) -> (r: bool)
    ensures
        r == inside(path_view(path@), path_view(project_root@), dir@),
{
    let ghost pv = path_view(path@);
    let ghost rv = path_view(project_root@);
    let ghost d = rv.push(ComponentView::Normal(dir@));
    if project_root.len() >= path.len() {
        assert(!(d.len() <= pv.len()));
        return false;
    }
    let mut i: usize = 0;
    let mut same = true;
    while i < project_root.len()
        invariant
            0 <= i <= project_root.len(),
            project_root@.len() < path@.len(),
            pv == path_view(path@),
            rv == path_view(project_root@),
            same == (forall|j: int| 0 <= j < i ==> pv[j] == rv[j]),
        decreases project_root.len() - i,
    {
        assert(pv[i as int] == path@[i as int]@);
        assert(rv[i as int] == project_root@[i as int]@);
        if !component_eq(&path[i], &project_root[i]) {
            same = false;
        }
        i += 1;
    }
    let k = project_root.len();
    let last_is_dir = match &path[k] {
        PathComponent::Normal(b) => bytes_eq(b, dir),
        _ => false,
    };
    assert(pv[k as int] == path@[k as int]@);
    if same && last_is_dir {
        assert(pv.subrange(0, d.len() as int) =~= d);
        return true;
    }
    proof {
        if d.len() <= pv.len() && pv.subrange(0, d.len() as int) == d {
            assert(pv[k as int] == d[k as int]);
            assert forall|j: int| 0 <= j < k implies pv[j] == rv[j] by {
                assert(pv.subrange(0, d.len() as int)[j] == d[j]);
            }
        }
    }
    false
}

pub fn path_is_relevant(path: &Vec<PathComponent>, project_root: &Vec<PathComponent>) -> (r: bool)
    ensures
        r == path_relevant(path_view(path@), path_view(project_root@)),
{
    let ghost pv = path_view(path@);
    // Anything inside target/ is cargo's own output.
    let t: [u8; 6] = [0x74, 0x61, 0x72, 0x67, 0x65, 0x74];
    assert(t@ =~= target_dir());
    if is_inside(path, project_root, &t) {
        return false;
    }
    // Anything inside .git or another directory starting with .git.
    let mut i: usize = 0;
    while i < path.len()
        invariant
            0 <= i <= path.len(),
            pv == path_view(path@),
            forall|j: int| 0 <= j < i ==> !is_git_component(#[trigger] pv[j]),
        decreases path.len() - i,
    {
        if is_git_component_exec(&path[i]) {
            assert(is_git_component(pv[i as int]));
            return false;
        }
        i += 1;
    }
    if path.len() == 0 {
        return false;
    }
    let name = match &path[path.len() - 1] {
        PathComponent::Normal(b) => b,
        _ => {
            return false;
        },
    };
    if !is_utf8(name.as_slice()) {
        return false;
    }
    let tilde: [u8; 1] = [0x7e];
    let hash: [u8; 1] = [0x23];
    let dot_hash: [u8; 2] = [0x2e, 0x23];
    assert(tilde@ =~= seq![0x7eu8]);
    assert(hash@ =~= seq![0x23u8]);
    assert(dot_hash@ =~= seq![0x2eu8, 0x23u8]);
    if bytes_end_with(name.as_slice(), &tilde) || bytes_start_with(name.as_slice(), &hash)
        || bytes_start_with(name.as_slice(), &dot_hash) {
        return false;
    }
    let cargo: [u8; 10] = [0x43, 0x61, 0x72, 0x67, 0x6f, 0x2e, 0x74, 0x6f, 0x6d, 0x6c];
    assert(cargo@ =~= cargo_toml());
    if bytes_eq(name, &cargo) {
        return true;
    }
    let rs: [u8; 3] = [0x2e, 0x72, 0x73];
    assert(rs@ =~= dot_rs());
    let src: [u8; 3] = [0x73, 0x72, 0x63];
    assert(src@ =~= src_dir());
    name.len() >= 4 && bytes_end_with(name.as_slice(), &rs) && is_inside(path, project_root, &src)
}

/// The kind of a file-system event.
#[derive(Clone, Copy, PartialEq, Eq, Structural, Debug)]
pub enum EventKind {
    Any,
    Access,
    Create,
    /// A modification of unknown sort.
    ModifyAny,
    /// A modification of a file's data.
    ModifyData,
    /// A modification of metadata or a rename.
    ModifyOther,
    Remove,
    Other,
}

/// Creations and data modifications matter.
pub open spec fn kind_relevant(kind: EventKind) -> bool {
    kind == EventKind::Create || kind == EventKind::ModifyData
}

/// Whether a file-system event calls for a rebuild: its kind matters and one of its
/// paths does.
pub fn is_relevant_event(kind: EventKind, paths: &Vec<Vec<PathComponent>>, project_root: &Vec<PathComponent>) -> (r: bool)
    ensures
        r == (kind_relevant(kind) && exists|i: int|
            0 <= i < paths@.len() && path_relevant(path_view(#[trigger] paths@[i]@), path_view(project_root@))),
{
    if !(kind == EventKind::Create || kind == EventKind::ModifyData) {
        return false;
    }
    let mut i: usize = 0;
    while i < paths.len()
        invariant
            0 <= i <= paths.len(),
            kind_relevant(kind),
            forall|j: int| 0 <= j < i ==> !path_relevant(path_view(#[trigger] paths@[j]@), path_view(project_root@)),
        decreases paths.len() - i,
    {
        if path_is_relevant(&paths[i], project_root) {
            assert(path_relevant(path_view(paths@[i as int]@), path_view(project_root@)));
            assert(kind_relevant(kind));
            assert(exists|k: int|
                0 <= k < paths@.len() && path_relevant(path_view(#[trigger] paths@[k]@), path_view(project_root@)));
            return true;
        }
        i += 1;
    }
    false
}


/// How long the sources must stay quiet after a change before a rebuild starts, in
/// milliseconds.
pub const DEBOUNCE_WINDOW_MS: u64 = 800;

/// Whether the user wants source changes to trigger rebuilds.
pub struct HotReloadEnabled(pub bool);

impl HotReloadEnabled {
    /// Rebuilding on save is on unless the user turns it off.
    pub fn default() -> (r: Self)
        ensures
            r.0,
    {
        HotReloadEnabled(true)
    }
}

/// An install that failed, and whether it failed on a mismatch of the editor's SDK symbols.
pub struct InstallFailure<LE> {
    pub error: LE,
    pub symbol_mismatch: bool,
}

/// The hot-reload loop's state. `P` is a project directory, `A` a built artifact and
/// `LE` an install error; they are carried as they come.
pub struct HotReloadState<P, A, LE> {
    /// A watcher is running.
    pub watching: bool,
    /// When the last relevant change was seen, in milliseconds.
    pub pending: Option<u64>,
    /// A build is running.
    pub build_in_flight: bool,
    /// A clean of the project's build cache is running.
    pub clean_in_flight: bool,
    /// A clean-and-retry has been tried for the current reload.
    pub retry_attempted: bool,
    /// The channel through which an install reports: `None` when no install is awaited,
    /// `Some(None)` while waiting, `Some(Some(r))` once it reported.
    pub install_outcome: Option<Option<Result<(), InstallFailure<LE>>>>,
    /// A built artifact waiting to be installed.
    pub pending_install: Option<A>,
    /// The project being watched.
    pub project_dir: Option<P>,
}

/// What the loop asks the caller to do.
pub enum ReloadAction<BE, LE> {
    Nothing,
    /// Build the project; tell the user it is rebuilding after a source change.
    RebuildAfterChange,
    /// Tell the user the build failed.
    ReportBuildFailed(BE),
    /// Clean the project's build cache; tell the user the editor SDK changed.
    CleanAfterSdkMismatch,
    /// Tell the user an SDK mismatch came with no project on record.
    ReportNoProjectDir,
    /// Tell the user the install failed and that saving again retries.
    ReportInstallFailed(LE),
    /// Build the project again; tell the user it rebuilds against the current SDK.
    RebuildAfterClean,
    /// Tell the user the clean failed.
    ReportCleanFailed(BE),
}

/// Milliseconds from `t` to `now`, never negative.
pub open spec fn elapsed(now: u64, t: u64) -> int {
    if now >= t { now - t } else { 0 }
}

pub open spec fn fresh_state<P, A, LE>() -> HotReloadState<P, A, LE> {
    HotReloadState {
        watching: false,
        pending: None,
        build_in_flight: false,
        clean_in_flight: false,
        retry_attempted: false,
        install_outcome: None,
        pending_install: None,
        project_dir: None,
    }
}

/// Each frame: when enabled, no build runs, a project is watched and the last change is
/// at least a debounce window old, the change is consumed and a build starts.
pub open spec fn drain_spec<P, A, LE, BE>(s: HotReloadState<P, A, LE>, enabled: bool, now: u64) -> (
    HotReloadState<P, A, LE>,
    ReloadAction<BE, LE>,
) {
    if !enabled || s.build_in_flight || s.project_dir is None {
        (s, ReloadAction::Nothing)
    } else {
        match s.pending {
            Some(t) => if elapsed(now, t) >= DEBOUNCE_WINDOW_MS {
                (HotReloadState { pending: None, build_in_flight: true, ..s }, ReloadAction::RebuildAfterChange)
            } else {
                (s, ReloadAction::Nothing)
            },
            None => (s, ReloadAction::Nothing),
        }
    }
}

/// When the running build reports: a built artifact waits for install, with a fresh
/// channel for the install's report; a failure is reported. Without a running build, or
/// before it reports, nothing changes.
pub open spec fn build_done_spec<P, A, LE, BE>(s: HotReloadState<P, A, LE>, result: Option<Result<A, BE>>) -> (
    HotReloadState<P, A, LE>,
    ReloadAction<BE, LE>,
) {
    if !s.build_in_flight {
        (s, ReloadAction::Nothing)
    } else {
        match result {
            None => (s, ReloadAction::Nothing),
            Some(Ok(a)) => (
                HotReloadState {
                    build_in_flight: false,
                    install_outcome: Some(None),
                    pending_install: Some(a),
                    ..s
                },
                ReloadAction::Nothing,
            ),
            Some(Err(e)) => (HotReloadState { build_in_flight: false, ..s }, ReloadAction::ReportBuildFailed(e)),
        }
    }
}

/// An install's report goes into the channel, when one is open.
pub open spec fn record_install_spec<P, A, LE>(s: HotReloadState<P, A, LE>, result: Result<(), InstallFailure<LE>>) -> HotReloadState<P, A, LE> {
    if s.install_outcome is Some {
        HotReloadState { install_outcome: Some(Some(result)), ..s }
    } else {
        s
    }
}

/// When the install has reported, the channel closes. Success clears the retry mark. A
/// symbol mismatch, when no retry was tried yet, marks the retry and cleans the project
/// (or reports that no project is on record). Any other failure is reported and clears
/// the retry mark.
pub open spec fn install_done_spec<P, A, LE, BE>(s: HotReloadState<P, A, LE>) -> (
    HotReloadState<P, A, LE>,
    ReloadAction<BE, LE>,
) {
    match s.install_outcome {
        Some(Some(result)) => {
            let s1 = HotReloadState { install_outcome: None, ..s };
            match result {
                Ok(()) => (HotReloadState { retry_attempted: false, ..s1 }, ReloadAction::Nothing),
                Err(f) => if f.symbol_mismatch && !s.retry_attempted {
                    let s2 = HotReloadState { retry_attempted: true, ..s1 };
                    if s.project_dir is None {
                        (s2, ReloadAction::ReportNoProjectDir)
                    } else {
                        (HotReloadState { clean_in_flight: true, ..s2 }, ReloadAction::CleanAfterSdkMismatch)
                    }
                } else {
                    (HotReloadState { retry_attempted: false, ..s1 }, ReloadAction::ReportInstallFailed(f.error))
                },
            }
        },
        _ => (s, ReloadAction::Nothing),
    }
}

/// When the running clean reports: success rebuilds the project, when one is on record;
/// failure is reported and clears the retry mark. Without a running clean, or before it
/// reports, nothing changes.
pub open spec fn clean_done_spec<P, A, LE, BE>(s: HotReloadState<P, A, LE>, result: Option<Result<(), BE>>) -> (
    HotReloadState<P, A, LE>,
    ReloadAction<BE, LE>,
) {
    if !s.clean_in_flight {
        (s, ReloadAction::Nothing)
    } else {
        match result {
            None => (s, ReloadAction::Nothing),
            Some(Ok(())) => {
                let s1 = HotReloadState { clean_in_flight: false, ..s };
                if s.project_dir is None {
                    (s1, ReloadAction::Nothing)
                } else {
                    (HotReloadState { build_in_flight: true, ..s1 }, ReloadAction::RebuildAfterClean)
                }
            },
            Some(Err(e)) => (
                HotReloadState { clean_in_flight: false, retry_attempted: false, ..s },
                ReloadAction::ReportCleanFailed(e),
            ),
        }
    }
}

impl<P, A, LE> HotReloadState<P, A, LE> {
    pub fn new() -> (r: Self)
        ensures
            r == fresh_state::<P, A, LE>(),
    {
        HotReloadState {
            watching: false,
            pending: None,
            build_in_flight: false,
            clean_in_flight: false,
            retry_attempted: false,
            install_outcome: None,
            pending_install: None,
            project_dir: None,
        }
    }

    /// Whether to start watching on entering the editor: only when hot reload is enabled
    /// and a project is open.
    pub fn wants_watcher(enabled: bool, has_project: bool) -> (r: bool)
        ensures
            r == (enabled && has_project),
    {
        enabled && has_project
    }

    /// A watcher now watches the project at `root`.
    pub fn watcher_started(&mut self, root: P)
        ensures
            *final(self) == (HotReloadState { watching: true, project_dir: Some(root), ..*old(self) }),
    {
        self.watching = true;
        self.project_dir = Some(root);
    }

    /// Leaving the editor stops the watcher, forgets the project and drops the pending change.
    pub fn stop_watcher(&mut self)
        ensures
            *final(self) == (HotReloadState { watching: false, project_dir: None, pending: None, ..*old(self) }),
    {
        self.watching = false;
        self.project_dir = None;
        self.pending = None;
    }

    /// A relevant change was seen at `now`.
    pub fn source_changed(&mut self, now: u64)
        ensures
            *final(self) == (HotReloadState { pending: Some(now), ..*old(self) }),
    {
        self.pending = Some(now);
    }

    /// Polled each frame: starts a build once the sources have been quiet long enough.
    pub fn drain_source_changes<BE>(&mut self, enabled: bool, now: u64) -> (r: ReloadAction<BE, LE>)
        ensures
            (*final(self), r) == drain_spec::<P, A, LE, BE>(*old(self), enabled, now),
    {
        if !enabled || self.build_in_flight || self.project_dir.is_none() {
            return ReloadAction::Nothing;
        }
        let should_build = match self.pending {
            Some(t) => {
                let waited = if now >= t { now - t } else { 0 };
                waited >= DEBOUNCE_WINDOW_MS
            },
            None => false,
        };
        if !should_build {
            return ReloadAction::Nothing;
        }
        self.pending = None;
        self.build_in_flight = true;
        ReloadAction::RebuildAfterChange
    }

    /// Polled each frame with what the running build reported, if anything.
    pub fn poll_reload_build<BE>(&mut self, result: Option<Result<A, BE>>) -> (r: ReloadAction<BE, LE>)
        ensures
            (*final(self), r) == build_done_spec(*old(self), result),
    {
        if !self.build_in_flight {
            return ReloadAction::Nothing;
        }
        match result {
            None => ReloadAction::Nothing,
            Some(Ok(artifact)) => {
                self.build_in_flight = false;
                self.install_outcome = Some(None);
                self.pending_install = Some(artifact);
                ReloadAction::Nothing
            },
            Some(Err(e)) => {
                self.build_in_flight = false;
                ReloadAction::ReportBuildFailed(e)
            },
        }
    }

    /// Hands out the artifact waiting for install, if any.
    pub fn apply_pending_install(&mut self) -> (r: Option<A>)
        ensures
            r == old(self).pending_install,
            *final(self) == (HotReloadState { pending_install: None, ..*old(self) }),
    {
        let mut taken: Option<A> = None;
        std::mem::swap(&mut taken, &mut self.pending_install);
        taken
    }

    /// The install reported.
    pub fn record_install_result(&mut self, result: Result<(), InstallFailure<LE>>)
        ensures
            *final(self) == record_install_spec(*old(self), result),
    {
        if self.install_outcome.is_some() {
            self.install_outcome = Some(Some(result));
        }
    }

    /// Polled each frame: reads the install's report and decides on a retry.
    pub fn poll_install_outcome<BE>(&mut self) -> (r: ReloadAction<BE, LE>)
        ensures
            (*final(self), r) == install_done_spec::<P, A, LE, BE>(*old(self)),
    {
        let mut outcome: Option<Option<Result<(), InstallFailure<LE>>>> = None;
        std::mem::swap(&mut outcome, &mut self.install_outcome);
        let result = match outcome {
            Some(Some(result)) => result,
            other => {
                self.install_outcome = other;
                return ReloadAction::Nothing;
            },
        };
        match result {
            Ok(()) => {
                self.retry_attempted = false;
                ReloadAction::Nothing
            },
            Err(f) => {
                if f.symbol_mismatch && !self.retry_attempted {
                    self.retry_attempted = true;
                    if self.project_dir.is_none() {
                        return ReloadAction::ReportNoProjectDir;
                    }
                    self.clean_in_flight = true;
                    ReloadAction::CleanAfterSdkMismatch
                } else {
                    self.retry_attempted = false;
                    ReloadAction::ReportInstallFailed(f.error)
                }
            },
        }
    }

    /// Polled each frame with what the running clean reported, if anything.
    pub fn poll_clean_task<BE>(&mut self, result: Option<Result<(), BE>>) -> (r: ReloadAction<BE, LE>)
        ensures
            (*final(self), r) == clean_done_spec(*old(self), result),
    {
        if !self.clean_in_flight {
            return ReloadAction::Nothing;
        }
        match result {
            None => ReloadAction::Nothing,
            Some(Ok(())) => {
                self.clean_in_flight = false;
                if self.project_dir.is_none() {
                    return ReloadAction::Nothing;
                }
                self.build_in_flight = true;
                ReloadAction::RebuildAfterClean
            },
            Some(Err(e)) => {
                self.clean_in_flight = false;
                self.retry_attempted = false;
                ReloadAction::ReportCleanFailed(e)
            },
        }
    }
}

/// What happens to the hot-reload loop between two frames.
pub enum ReloadEvent<A, BE, LE> {
    /// A frame passes with hot reload enabled or not, at time `now`.
    Tick { enabled: bool, now: u64 },
    /// A relevant change is seen at time `now`.
    SourceChanged { now: u64 },
    /// The running build reports.
    BuildReported(Result<A, BE>),
    /// The waiting artifact is installed, with this result.
    Installed(Result<(), InstallFailure<LE>>),
    /// The running clean reports.
    CleanReported(Result<(), BE>),
    /// The editor is left.
    StopWatching,
}

/// One event's effect on the loop, and the action it asks for.
pub open spec fn reload_step<P, A, LE, BE>(s: HotReloadState<P, A, LE>, e: ReloadEvent<A, BE, LE>) -> (
    HotReloadState<P, A, LE>,
    ReloadAction<BE, LE>,
) {
    match e {
        ReloadEvent::Tick { enabled, now } => drain_spec(s, enabled, now),
        ReloadEvent::SourceChanged { now } => (HotReloadState { pending: Some(now), ..s }, ReloadAction::Nothing),
        ReloadEvent::BuildReported(r) => build_done_spec(s, Some(r)),
        ReloadEvent::Installed(r) => install_done_spec(
            record_install_spec(HotReloadState { pending_install: None, ..s }, r),
        ),
        ReloadEvent::CleanReported(r) => clean_done_spec(s, Some(r)),
        ReloadEvent::StopWatching => (
            HotReloadState { watching: false, project_dir: None, pending: None, ..s },
            ReloadAction::Nothing,
        ),
    }
}

/// A rebuild after a change starts only when hot reload is on, no build is running, and
/// the last change is at least a debounce window old; the change is then consumed.
pub proof fn law_build_waits_for_quiet<P, A, LE, BE>(s: HotReloadState<P, A, LE>, enabled: bool, now: u64)
    ensures
        drain_spec::<P, A, LE, BE>(s, enabled, now).1 is RebuildAfterChange ==> {
            &&& enabled
            &&& !s.build_in_flight
            &&& s.project_dir is Some
            &&& s.pending matches Some(t) && elapsed(now, t) >= DEBOUNCE_WINDOW_MS
            &&& drain_spec::<P, A, LE, BE>(s, enabled, now).0.pending is None
        },
{
}

/// No event starts a build while one runs, except the rebuild that follows a clean.
pub proof fn law_one_build_at_a_time<P, A, LE, BE>(s: HotReloadState<P, A, LE>, e: ReloadEvent<A, BE, LE>)
    requires
        s.build_in_flight,
    ensures
        !(reload_step(s, e).1 is RebuildAfterChange),
{
}

/// A clean starts only when no retry was tried yet, and marks the retry as tried: two
/// cleans always have between them an event that clears the mark.
pub proof fn law_clean_needs_fresh_retry<P, A, LE, BE>(s: HotReloadState<P, A, LE>, e: ReloadEvent<A, BE, LE>)
    ensures
        reload_step(s, e).1 is CleanAfterSdkMismatch ==> !s.retry_attempted && reload_step(s, e).0.retry_attempted,
{
}

/// A symbol mismatch leads to one clean and rebuild; when the rebuilt artifact still
/// fails on a symbol mismatch, the failure is reported and no second clean starts.
pub proof fn law_second_mismatch_is_reported<P, A, LE, BE>(
    s: HotReloadState<P, A, LE>,
    artifact: A,
    first: InstallFailure<LE>,
    second: InstallFailure<LE>,
)
    requires
        !s.retry_attempted,
        s.project_dir is Some,
        s.install_outcome is Some,
        !s.clean_in_flight,
        first.symbol_mismatch,
        second.symbol_mismatch,
    ensures
        ({
            let (s1, a1) = reload_step(s, ReloadEvent::<A, BE, LE>::Installed(Err(first)));
            let (s2, a2) = reload_step(s1, ReloadEvent::<A, BE, LE>::CleanReported(Ok(())));
            let (s3, a3) = reload_step(s2, ReloadEvent::<A, BE, LE>::BuildReported(Ok(artifact)));
            let (s4, a4) = reload_step(s3, ReloadEvent::<A, BE, LE>::Installed(Err(second)));
            &&& a1 is CleanAfterSdkMismatch
            &&& a2 is RebuildAfterClean
            &&& s3.pending_install == Some(artifact)
            &&& a4 matches ReloadAction::ReportInstallFailed(e) && e == second.error
            &&& !s4.retry_attempted
            &&& !s4.clean_in_flight
        }),
{
}
/// A build's report never touches the pending change: a change saved while the build
/// ran is still waiting once the build ends, whatever it reported.
pub proof fn law_build_report_keeps_pending_change<P, A, LE, BE>(
    s: HotReloadState<P, A, LE>,
    result: Option<Result<A, BE>>,
)
    ensures
        build_done_spec(s, result).0.pending == s.pending,
{
}

/// A change saved while a build runs is built next: once the build succeeds, the first
/// tick at least a debounce window after the change starts another build.
pub proof fn law_change_during_build_is_built_next<P, A, LE, BE>(
    s: HotReloadState<P, A, LE>,
    saved_at: u64,
    artifact: A,
    now: u64,
)
    requires
        s.build_in_flight,
        s.project_dir is Some,
        now >= saved_at + DEBOUNCE_WINDOW_MS,
    ensures
        ({
            let (s1, _) = reload_step(s, ReloadEvent::<A, BE, LE>::SourceChanged { now: saved_at });
            let (s2, _) = reload_step(s1, ReloadEvent::<A, BE, LE>::BuildReported(Ok(artifact)));
            let (s3, a3) = reload_step(s2, ReloadEvent::<A, BE, LE>::Tick { enabled: true, now });
            &&& s2.pending == Some(saved_at)
            &&& a3 is RebuildAfterChange
            &&& s3.build_in_flight
            &&& s3.pending is None
        }),
{
}

/// A successful install clears the retry mark, whatever came before.
pub proof fn law_successful_install_clears_retry<P, A, LE, BE>(s: HotReloadState<P, A, LE>)
    requires
        s.install_outcome == Some(Some(Ok::<(), InstallFailure<LE>>(()))),
    ensures
        !install_done_spec::<P, A, LE, BE>(s).0.retry_attempted,
        install_done_spec::<P, A, LE, BE>(s).0.install_outcome is None,
{
}

/// After a successful install, the next symbol mismatch is cleaned and retried again,
/// even when an earlier reload had used up its retry.
pub proof fn law_mismatch_after_success_is_retried<P, A, LE, BE>(
    s: HotReloadState<P, A, LE>,
    artifact: A,
    failure: InstallFailure<LE>,
)
    requires
        s.install_outcome is Some,
        s.project_dir is Some,
        !s.build_in_flight,
        failure.symbol_mismatch,
    ensures
        ({
            let (s1, _) = reload_step(s, ReloadEvent::<A, BE, LE>::Installed(Ok(())));
            let s2 = HotReloadState { build_in_flight: true, ..s1 };
            let (s3, _) = reload_step(s2, ReloadEvent::<A, BE, LE>::BuildReported(Ok(artifact)));
            let (s4, a4) = reload_step(s3, ReloadEvent::<A, BE, LE>::Installed(Err(failure)));
            &&& !s1.retry_attempted
            &&& a4 is CleanAfterSdkMismatch
            &&& s4.retry_attempted
            &&& s4.clean_in_flight
        }),
{
}

} // verus!
