//! The install pipeline, as an explicit state machine.
//!
//! One task installs one source. The pipeline never touches the disk itself:
//! each step hands back the actions the surrounding application must perform
//! (extract, read a tree, read a file, remove, rename) and the application
//! feeds the outcome of each action back in as the next event. All decisions
//! — where the package root is, what it says, whether it conflicts, what to
//! emit — are made here and verified.
//!
//! States walk `Extracting -> Locating -> ParsingManifest -> CheckingDest ->
//! Placing -> Reparsing -> Done`, with a fresh task suspending at a conflict
//! (it halts after emitting `Duplicate`; the staged directory stays on disk)
//! and a resumed task starting at `RemovingConflict`. Every terminal or
//! suspending step emits exactly one message; a finished task emits nothing
//! more.

use vstd::prelude::*;

use crate::conflict::{ConflictIdentity, ConflictV};
use crate::entry::{EntryView, PackageEntry};
use crate::locate::{spec_join, spec_join1, DirTree};
use crate::manifest::{spec_parse_manifest, MissingKey, ParseError};
use crate::registry::ModList;

verus! {

/// Whether a source path names an archive file or a plain folder.
#[derive(Clone, Copy, PartialEq, Eq, Structural)]
pub enum SourceKind {
    Archive,
    Folder,
}

/// One install source: a path and what stands at it.
pub struct Source {
    pub path: String,
    pub kind: SourceKind,
}

/// Where a candidate package will ultimately live: still staged at a
/// temporary extraction path, or resolved to its final destination. The
/// distinction exists because the true destination name is only knowable
/// once the manifest is parsed, which needs the extraction first.
pub enum PendingDestination {
    Staged(String),
    Resolved(String),
}

/// The mathematical content of a `PendingDestination`.
pub enum PendingV {
    Staged(Seq<char>),
    Resolved(Seq<char>),
}

impl View for PendingDestination {
    type V = PendingV;

    open spec fn view(&self) -> PendingV {
        match self {
            PendingDestination::Staged(p) => PendingV::Staged(p@),
            PendingDestination::Resolved(p) => PendingV::Resolved(p@),
        }
    }
}

impl Clone for PendingDestination {
    fn clone(&self) -> (r: Self)
        ensures
            r@ == self@,
    {
        match self {
            PendingDestination::Staged(p) => PendingDestination::Staged(p.clone()),
            PendingDestination::Resolved(p) => PendingDestination::Resolved(p.clone()),
        }
    }
}

/// Why an install is happening. Exactly one live intent exists per
/// in-flight installation task.
pub enum InstallIntent {
    /// User-provided archives or folders.
    Initial(Vec<Source>),
    /// A previously suspended install, now confirmed: the entry parsed from
    /// the staged package, where it is to live, and what it collided with.
    Resumed(PackageEntry, PendingDestination, ConflictIdentity),
    /// Reconciliation-triggered re-fetch of a known package's newer version.
    Download(PackageEntry),
}

/// Everything that can go wrong with one install task.
pub enum InstallError {
    /// The archive was unsupported or corrupt.
    ExtractionFailed(String),
    /// The locator found no manifest anywhere in the tree.
    NoPackageFound,
    /// The manifest is not a well-formed object.
    ManifestMalformed,
    /// The manifest lacks a required key.
    ManifestMissingField(MissingKey),
    /// The conflicting prior install could not be removed.
    ConflictRemovalFailed(String),
    /// The atomic move into the destination failed.
    PlacementFailed(String),
    /// A generic filesystem fault, or an event that does not belong to the
    /// task's current state.
    IoError(String),
}

/// The mathematical content of an `InstallError`.
pub enum ErrorV {
    ExtractionFailed(Seq<char>),
    NoPackageFound,
    ManifestMalformed,
    ManifestMissingField(MissingKey),
    ConflictRemovalFailed(Seq<char>),
    PlacementFailed(Seq<char>),
    IoError(Seq<char>),
}

impl View for InstallError {
    type V = ErrorV;

    open spec fn view(&self) -> ErrorV {
        match self {
            InstallError::ExtractionFailed(s) => ErrorV::ExtractionFailed(s@),
            InstallError::NoPackageFound => ErrorV::NoPackageFound,
            InstallError::ManifestMalformed => ErrorV::ManifestMalformed,
            InstallError::ManifestMissingField(k) => ErrorV::ManifestMissingField(*k),
            InstallError::ConflictRemovalFailed(s) => ErrorV::ConflictRemovalFailed(s@),
            InstallError::PlacementFailed(s) => ErrorV::PlacementFailed(s@),
            InstallError::IoError(s) => ErrorV::IoError(s@),
        }
    }
}

/// The error an unparseable manifest turns into.
pub open spec fn spec_manifest_error(pe: ParseError) -> ErrorV {
    match pe {
        ParseError::Malformed => ErrorV::ManifestMalformed,
        ParseError::MissingField(k) => ErrorV::ManifestMissingField(k),
    }
}

/// What one install task tells its consumer. A task ends in exactly one
/// `Success` or `Error`; a fresh task that meets a conflict emits one
/// `Duplicate` instead and halts, waiting to be resumed.
pub enum InstallMessage {
    Success(PackageEntry),
    Duplicate(ConflictIdentity, PendingDestination, PackageEntry),
    Error(InstallError),
}

/// The mathematical content of an `InstallMessage`.
pub enum MessageV {
    Success(EntryView),
    Duplicate(ConflictV, PendingV, EntryView),
    Error(ErrorV),
}

impl View for InstallMessage {
    type V = MessageV;

    open spec fn view(&self) -> MessageV {
        match self {
            InstallMessage::Success(e) => MessageV::Success(e@),
            InstallMessage::Duplicate(c, p, e) => MessageV::Duplicate(c@, p@, e@),
            InstallMessage::Error(err) => MessageV::Error(err@),
        }
    }
}

/// The registry snapshot an install task works against.
pub struct TaskCtx {
    /// The managed package directory, `<install>/mods`.
    pub mods_dir: String,
    /// The ids the registry knew when the task was spawned.
    pub known_ids: Vec<String>,
}

/// What the application must do next for a task, in order.
pub enum TaskAction {
    /// Run the extraction black box on `archive` into the fresh directory
    /// `dest`.
    Extract { archive: String, dest: String },
    /// Read the directory tree under `dir` into a `DirTree`.
    ReadTree { dir: String },
    /// Read the text of the file at `path`.
    ReadFile { path: String },
    /// Report whether anything exists at `path`.
    CheckDest { path: String },
    /// Recursively delete `path`; failure is fatal for the task.
    RemovePath { path: String },
    /// Atomically rename `from` to `to`; no copy fallback.
    Rename { from: String, to: String },
    /// Best-effort removal of leftover staging space; failure is logged,
    /// never surfaced.
    CleanupTemp { path: String },
    /// Deliver a message to the consumer.
    Emit(InstallMessage),
}

/// The mathematical content of a `TaskAction`.
pub enum ActionV {
    Extract { archive: Seq<char>, dest: Seq<char> },
    ReadTree { dir: Seq<char> },
    ReadFile { path: Seq<char> },
    CheckDest { path: Seq<char> },
    RemovePath { path: Seq<char> },
    Rename { from: Seq<char>, to: Seq<char> },
    CleanupTemp { path: Seq<char> },
    Emit(MessageV),
}

impl View for TaskAction {
    type V = ActionV;

    open spec fn view(&self) -> ActionV {
        match self {
            TaskAction::Extract { archive, dest } => ActionV::Extract {
                archive: archive@,
                dest: dest@,
            },
            TaskAction::ReadTree { dir } => ActionV::ReadTree { dir: dir@ },
            TaskAction::ReadFile { path } => ActionV::ReadFile { path: path@ },
            TaskAction::CheckDest { path } => ActionV::CheckDest { path: path@ },
            TaskAction::RemovePath { path } => ActionV::RemovePath { path: path@ },
            TaskAction::Rename { from, to } => ActionV::Rename { from: from@, to: to@ },
            TaskAction::CleanupTemp { path } => ActionV::CleanupTemp { path: path@ },
            TaskAction::Emit(m) => ActionV::Emit(m@),
        }
    }
}

/// The actions a vector stands for.
pub open spec fn actions_view(v: Seq<TaskAction>) -> Seq<ActionV> {
    Seq::new(v.len(), |k: int| v[k]@)
}

/// The outcome of the last requested action, fed back by the application.
pub enum TaskEvent {
    /// Outcome of `Extract`.
    Extracted(Result<(), String>),
    /// Outcome of `ReadTree`.
    TreeRead(Result<DirTree, String>),
    /// Outcome of `ReadFile`.
    FileRead(Result<String, String>),
    /// Outcome of `CheckDest`.
    DestChecked(bool),
    /// Outcome of `RemovePath`.
    Removed(Result<(), String>),
    /// Outcome of `Rename`.
    Renamed(Result<(), String>),
}

/// The mathematical content of a `TaskEvent`. A read tree is carried as the
/// tree value itself.
pub enum EventV {
    Extracted(Result<(), Seq<char>>),
    TreeRead(Result<DirTree, Seq<char>>),
    FileRead(Result<Seq<char>, Seq<char>>),
    DestChecked(bool),
    Removed(Result<(), Seq<char>>),
    Renamed(Result<(), Seq<char>>),
}

impl View for TaskEvent {
    type V = EventV;

    open spec fn view(&self) -> EventV {
        match self {
            TaskEvent::Extracted(r) => EventV::Extracted(
                match r {
                    Ok(u) => Ok(*u),
                    Err(e) => Err(e@),
                },
            ),
            TaskEvent::TreeRead(r) => EventV::TreeRead(
                match r {
                    Ok(t) => Ok(*t),
                    Err(e) => Err(e@),
                },
            ),
            TaskEvent::FileRead(r) => EventV::FileRead(
                match r {
                    Ok(t) => Ok(t@),
                    Err(e) => Err(e@),
                },
            ),
            TaskEvent::DestChecked(b) => EventV::DestChecked(*b),
            TaskEvent::Removed(r) => EventV::Removed(
                match r {
                    Ok(u) => Ok(*u),
                    Err(e) => Err(e@),
                },
            ),
            TaskEvent::Renamed(r) => EventV::Renamed(
                match r {
                    Ok(u) => Ok(*u),
                    Err(e) => Err(e@),
                },
            ),
        }
    }
}

/// Where one install task stands.
pub enum TaskState {
    /// The extraction black box is running on `archive` into `temp`.
    Extracting { archive: String, temp: String },
    /// The locator is waiting for the tree under `search_dir`; `staged`
    /// names the temporary extraction directory to clean up, when one
    /// exists.
    Locating { search_dir: String, staged: Option<String> },
    /// The manifest at the located `root` is being read.
    ParsingManifest { root: String, staged: Option<String> },
    /// The candidate parsed without an id conflict; the destination's
    /// occupancy is being checked on disk.
    CheckingDest { entry: PackageEntry, dest: String, staged: Option<String> },
    /// A resumed task: the conflicting prior path is being removed.
    RemovingConflict { entry: PackageEntry, dest: String, conflict: ConflictIdentity },
    /// The package root is being renamed into its destination.
    Placing { entry: PackageEntry, dest: String, staged: Option<String>, resumed: bool },
    /// The manifest at the final destination is being re-read as a guard.
    Reparsing { dest: String, resumed: bool },
    /// The task has ended or suspended; it emits nothing more.
    Done,
}

/// The mathematical content of a `TaskState`.
pub enum StateV {
    Extracting { archive: Seq<char>, temp: Seq<char> },
    Locating { search_dir: Seq<char>, staged: Option<Seq<char>> },
    ParsingManifest { root: Seq<char>, staged: Option<Seq<char>> },
    CheckingDest { entry: EntryView, dest: Seq<char>, staged: Option<Seq<char>> },
    RemovingConflict { entry: EntryView, dest: Seq<char>, conflict: ConflictV },
    Placing { entry: EntryView, dest: Seq<char>, staged: Option<Seq<char>>, resumed: bool },
    Reparsing { dest: Seq<char>, resumed: bool },
    Done,
}

impl View for TaskState {
    type V = StateV;

    open spec fn view(&self) -> StateV {
        match self {
            TaskState::Extracting { archive, temp } => StateV::Extracting {
                archive: archive@,
                temp: temp@,
            },
            TaskState::Locating { search_dir, staged } => StateV::Locating {
                search_dir: search_dir@,
                staged: match staged {
                    Some(t) => Some(t@),
                    None => None,
                },
            },
            TaskState::ParsingManifest { root, staged } => StateV::ParsingManifest {
                root: root@,
                staged: match staged {
                    Some(t) => Some(t@),
                    None => None,
                },
            },
            TaskState::CheckingDest { entry, dest, staged } => StateV::CheckingDest {
                entry: entry@,
                dest: dest@,
                staged: match staged {
                    Some(t) => Some(t@),
                    None => None,
                },
            },
            TaskState::RemovingConflict { entry, dest, conflict } => StateV::RemovingConflict {
                entry: entry@,
                dest: dest@,
                conflict: conflict@,
            },
            TaskState::Placing { entry, dest, staged, resumed } => StateV::Placing {
                entry: entry@,
                dest: dest@,
                staged: match staged {
                    Some(t) => Some(t@),
                    None => None,
                },
                resumed: *resumed,
            },
            TaskState::Reparsing { dest, resumed } => StateV::Reparsing {
                dest: dest@,
                resumed: *resumed,
            },
            TaskState::Done => StateV::Done,
        }
    }
}

/// A terminal action list: clean the staging directory up first when one
/// exists, then emit the message.
pub open spec fn spec_cleanup_then(staged: Option<Seq<char>>, m: MessageV) -> Seq<ActionV> {
    match staged {
        Some(t) => seq![ActionV::CleanupTemp { path: t }, ActionV::Emit(m)],
        None => seq![ActionV::Emit(m)],
    }
}

/// One step of the install pipeline: from the task's state and the outcome
/// of its last action to the next state and the actions to perform, in
/// order. An event that does not belong to the current state ends the task
/// with an `IoError`; a finished task absorbs everything silently.
pub open spec fn spec_step(
    s: StateV,
    ev: EventV,
    mods_dir: Seq<char>,
    known: Seq<Seq<char>>,
) -> (StateV, Seq<ActionV>) {
    match (s, ev) {
        (StateV::Extracting { archive, temp }, EventV::Extracted(r)) => match r {
            Ok(_) => (
                StateV::Locating { search_dir: temp, staged: Some(temp) },
                seq![ActionV::ReadTree { dir: temp }],
            ),
            Err(e) => (
                StateV::Done,
                seq![
                    ActionV::CleanupTemp { path: temp },
                    ActionV::Emit(MessageV::Error(ErrorV::ExtractionFailed(e))),
                ],
            ),
        },
        (StateV::Locating { search_dir, staged }, EventV::TreeRead(r)) => match r {
            Ok(tree) => match crate::locate::spec_locate_root(tree) {
                Some(segs) => {
                    let root = spec_join(search_dir, segs);
                    (
                        StateV::ParsingManifest { root, staged },
                        seq![ActionV::ReadFile { path: spec_join1(root, "mod_info.json"@) }],
                    )
                },
                None => (
                    StateV::Done,
                    spec_cleanup_then(staged, MessageV::Error(ErrorV::NoPackageFound)),
                ),
            },
            Err(e) => (StateV::Done, spec_cleanup_then(staged, MessageV::Error(ErrorV::IoError(e)))),
        },
        (StateV::ParsingManifest { root, staged }, EventV::FileRead(r)) => match r {
            Ok(text) => match crate::manifest::spec_parse_manifest(text, root) {
                Ok(entry) => {
                    let dest = spec_join1(mods_dir, entry.id);
                    if known.contains(entry.id) {
                        // Suspend: the staged directory stays on disk for the
                        // resume to pick up.
                        (
                            StateV::Done,
                            seq![
                                ActionV::Emit(
                                    MessageV::Duplicate(
                                        ConflictV::ById(entry.id),
                                        PendingV::Resolved(dest),
                                        entry,
                                    ),
                                ),
                            ],
                        )
                    } else {
                        (
                            StateV::CheckingDest { entry, dest, staged },
                            seq![ActionV::CheckDest { path: dest }],
                        )
                    }
                },
                Err(pe) => (
                    StateV::Done,
                    spec_cleanup_then(staged, MessageV::Error(spec_manifest_error(pe))),
                ),
            },
            Err(e) => (StateV::Done, spec_cleanup_then(staged, MessageV::Error(ErrorV::IoError(e)))),
        },
        (StateV::CheckingDest { entry, dest, staged }, EventV::DestChecked(occupied)) => if occupied {
            // Suspend, as above.
            (
                StateV::Done,
                seq![
                    ActionV::Emit(
                        MessageV::Duplicate(
                            ConflictV::ByPath(dest),
                            PendingV::Resolved(dest),
                            entry,
                        ),
                    ),
                ],
            )
        } else {
            (
                StateV::Placing { entry, dest, staged, resumed: false },
                seq![ActionV::Rename { from: entry.path, to: dest }],
            )
        },
        (StateV::RemovingConflict { entry, dest, conflict }, EventV::Removed(r)) => match r {
            Ok(_) => (
                StateV::Placing { entry, dest, staged: None, resumed: true },
                seq![ActionV::Rename { from: entry.path, to: dest }],
            ),
            Err(e) => (
                // The staged directory is left in place for diagnostics.
                StateV::Done,
                seq![ActionV::Emit(MessageV::Error(ErrorV::ConflictRemovalFailed(e)))],
            ),
        },
        (StateV::Placing { entry, dest, staged, resumed }, EventV::Renamed(r)) => match r {
            Ok(_) => (
                StateV::Reparsing { dest, resumed },
                match staged {
                    Some(t) => seq![
                        ActionV::CleanupTemp { path: t },
                        ActionV::ReadFile { path: spec_join1(dest, "mod_info.json"@) },
                    ],
                    None => seq![
                        ActionV::ReadFile { path: spec_join1(dest, "mod_info.json"@) },
                    ],
                },
            ),
            Err(e) => (
                // The staged directory is left in place rather than silently
                // deleted.
                StateV::Done,
                seq![ActionV::Emit(MessageV::Error(ErrorV::PlacementFailed(e)))],
            ),
        },
        (StateV::Reparsing { dest, resumed }, EventV::FileRead(r)) => match r {
            Ok(text) => match crate::manifest::spec_parse_manifest(text, dest) {
                Ok(entry) => (StateV::Done, seq![ActionV::Emit(MessageV::Success(entry))]),
                Err(pe) => (
                    StateV::Done,
                    seq![ActionV::Emit(MessageV::Error(spec_manifest_error(pe)))],
                ),
            },
            Err(e) => (StateV::Done, seq![ActionV::Emit(MessageV::Error(ErrorV::IoError(e)))]),
        },
        (StateV::Done, _) => (StateV::Done, Seq::empty()),
        _ => (
            StateV::Done,
            seq![ActionV::Emit(MessageV::Error(ErrorV::IoError("unexpected event"@)))],
        ),
    }
}

/// How a fresh task begins for one source: an archive is extracted into the
/// caller-provided fresh temporary directory `temp`; a folder skips
/// extraction and goes straight to the locator.
pub open spec fn spec_start(path: Seq<char>, kind: SourceKind, temp: Seq<char>) -> (
    StateV,
    Seq<ActionV>,
) {
    match kind {
        SourceKind::Archive => (
            StateV::Extracting { archive: path, temp },
            seq![ActionV::Extract { archive: path, dest: temp }],
        ),
        SourceKind::Folder => (
            StateV::Locating { search_dir: path, staged: None },
            seq![ActionV::ReadTree { dir: path }],
        ),
    }
}

/// How a resumed task begins: the conflicting prior path is removed first;
/// everything after runs through the same placing machinery as a fresh
/// install.
pub open spec fn spec_start_resumed(
    entry: EntryView,
    dest: Seq<char>,
    conflict: ConflictV,
    conflict_path: Seq<char>,
) -> (StateV, Seq<ActionV>) {
    (
        StateV::RemovingConflict { entry, dest, conflict },
        seq![ActionV::RemovePath { path: conflict_path }],
    )
}

fn one_action(a: TaskAction) -> (r: Vec<TaskAction>)
    ensures
        actions_view(r@) == seq![a@],
{
    let ghost av = a@;
    let mut v: Vec<TaskAction> = Vec::new();
    v.push(a);
    proof {
        assert(actions_view(v@) =~= seq![av]);
    }
    v
}

fn two_actions(a: TaskAction, b: TaskAction) -> (r: Vec<TaskAction>)
    ensures
        actions_view(r@) == seq![a@, b@],
{
    let ghost av = a@;
    let ghost bv = b@;
    let mut v: Vec<TaskAction> = Vec::new();
    v.push(a);
    v.push(b);
    proof {
        assert(actions_view(v@) =~= seq![av, bv]);
    }
    v
}

fn cleanup_then(staged: Option<String>, m: InstallMessage) -> (r: Vec<TaskAction>)
    ensures
        actions_view(r@) == spec_cleanup_then(
            match staged {
                Some(t) => Some(t@),
                None => None,
            },
            m@,
        ),
{
    match staged {
        Some(t) => two_actions(TaskAction::CleanupTemp { path: t }, TaskAction::Emit(m)),
        None => one_action(TaskAction::Emit(m)),
    }
}

fn contains_str(v: &Vec<String>, s: &String) -> (r: bool)
    ensures
        r == crate::enabled::strs_view(v@).contains(s@),
{
    let ghost vv = crate::enabled::strs_view(v@);
    let mut k: usize = 0;
    while k < v.len()
        invariant
            k <= v.len(),
            vv == crate::enabled::strs_view(v@),
            forall|m: int| 0 <= m < k ==> vv[m] != s@,
        decreases v.len() - k,
    {
        if v[k].eq(s) {
            proof {
                assert(vv[k as int] == s@);
                assert(vv.contains(s@));
            }
            return true;
        }
        k = k + 1;
    }
    proof {
        assert(forall|m: int| 0 <= m < vv.len() ==> vv[m] != s@);
    }
    false
}

fn manifest_error(pe: ParseError) -> (r: InstallError)
    ensures
        r@ == spec_manifest_error(pe),
{
    match pe {
        ParseError::Malformed => InstallError::ManifestMalformed,
        ParseError::MissingField(k) => InstallError::ManifestMissingField(k),
    }
}

/// Starts a fresh task for one source, with a caller-provided fresh
/// temporary directory for the extraction, when one is needed.
pub fn start_task(source: Source, temp: String) -> (r: (TaskState, Vec<TaskAction>))
    ensures
        (r.0@, actions_view(r.1@)) == spec_start(source.path@, source.kind, temp@),
{
    match source.kind {
        SourceKind::Archive => {
            let state = TaskState::Extracting { archive: source.path.clone(), temp: temp.clone() };
            let acts = one_action(TaskAction::Extract { archive: source.path, dest: temp });
            (state, acts)
        },
        SourceKind::Folder => {
            let state = TaskState::Locating { search_dir: source.path.clone(), staged: None };
            let acts = one_action(TaskAction::ReadTree { dir: source.path });
            (state, acts)
        },
    }
}

/// Starts a resumed task: `entry` as the suspended task parsed it (its
/// `path` still names the staged root), `dest` the final destination, and
/// `conflict_path` the prior path the conflict identity resolves to.
pub fn start_resumed(
    entry: PackageEntry,
    dest: String,
    conflict: ConflictIdentity,
    conflict_path: String,
) -> (r: (TaskState, Vec<TaskAction>))
    ensures
        (r.0@, actions_view(r.1@)) == spec_start_resumed(entry@, dest@, conflict@, conflict_path@),
{
    let state = TaskState::RemovingConflict { entry, dest, conflict };
    let acts = one_action(TaskAction::RemovePath { path: conflict_path });
    (state, acts)
}

/// Advances one task by one event: performs exactly the transition
/// `spec_step` prescribes for the current state, the event, and the task's
/// registry snapshot, handing back the next state and the actions to
/// perform in order.
pub fn step(state: TaskState, event: TaskEvent, ctx: &TaskCtx) -> (r: (TaskState, Vec<TaskAction>))
    ensures
        (r.0@, actions_view(r.1@)) == spec_step(
            state@,
            event@,
            ctx.mods_dir@,
            crate::enabled::strs_view(ctx.known_ids@),
        ),
{
    let ghost sv = state@;
    let ghost evv = event@;
    match (state, event) {
        (TaskState::Extracting { archive, temp }, TaskEvent::Extracted(r)) => match r {
            Ok(_) => {
                let next = TaskState::Locating { search_dir: temp.clone(), staged: Some(
                    temp.clone(),
                ) };
                let acts = one_action(TaskAction::ReadTree { dir: temp });
                (next, acts)
            },
            Err(e) => {
                let acts = two_actions(
                    TaskAction::CleanupTemp { path: temp },
                    TaskAction::Emit(InstallMessage::Error(InstallError::ExtractionFailed(e))),
                );
                (TaskState::Done, acts)
            },
        },
        (TaskState::Locating { search_dir, staged }, TaskEvent::TreeRead(r)) => match r {
            Ok(tree) => match crate::locate::locate_root(&tree) {
                Some(segs) => {
                    let root = crate::locate::join(search_dir.as_str(), &segs);
                    let manifest_path = crate::locate::join1(root.as_str(), "mod_info.json");
                    let next = TaskState::ParsingManifest { root, staged };
                    let acts = one_action(TaskAction::ReadFile { path: manifest_path });
                    (next, acts)
                },
                None => {
                    let acts = cleanup_then(
                        staged,
                        InstallMessage::Error(InstallError::NoPackageFound),
                    );
                    (TaskState::Done, acts)
                },
            },
            Err(e) => {
                let acts = cleanup_then(staged, InstallMessage::Error(InstallError::IoError(e)));
                (TaskState::Done, acts)
            },
        },
        (TaskState::ParsingManifest { root, staged }, TaskEvent::FileRead(r)) => match r {
            Ok(text) => match crate::manifest::parse_manifest(text.as_str(), root.as_str()) {
                Ok(entry) => {
                    let dest = crate::locate::join1(ctx.mods_dir.as_str(), entry.id.as_str());
                    if contains_str(&ctx.known_ids, &entry.id) {
                        let acts = one_action(
                            TaskAction::Emit(
                                InstallMessage::Duplicate(
                                    ConflictIdentity::ById(entry.id.clone()),
                                    PendingDestination::Resolved(dest),
                                    entry,
                                ),
                            ),
                        );
                        (TaskState::Done, acts)
                    } else {
                        let acts = one_action(TaskAction::CheckDest { path: dest.clone() });
                        let next = TaskState::CheckingDest { entry, dest, staged };
                        (next, acts)
                    }
                },
                Err(pe) => {
                    let acts = cleanup_then(staged, InstallMessage::Error(manifest_error(pe)));
                    (TaskState::Done, acts)
                },
            },
            Err(e) => {
                let acts = cleanup_then(staged, InstallMessage::Error(InstallError::IoError(e)));
                (TaskState::Done, acts)
            },
        },
        (TaskState::CheckingDest { entry, dest, staged }, TaskEvent::DestChecked(occupied)) => {
            if occupied {
                let acts = one_action(
                    TaskAction::Emit(
                        InstallMessage::Duplicate(
                            ConflictIdentity::ByPath(dest.clone()),
                            PendingDestination::Resolved(dest),
                            entry,
                        ),
                    ),
                );
                (TaskState::Done, acts)
            } else {
                let acts = one_action(
                    TaskAction::Rename { from: entry.path.clone(), to: dest.clone() },
                );
                let next = TaskState::Placing { entry, dest, staged, resumed: false };
                (next, acts)
            }
        },
        (TaskState::RemovingConflict { entry, dest, conflict }, TaskEvent::Removed(r)) => match r {
            Ok(_) => {
                let acts = one_action(
                    TaskAction::Rename { from: entry.path.clone(), to: dest.clone() },
                );
                let next = TaskState::Placing { entry, dest, staged: None, resumed: true };
                (next, acts)
            },
            Err(e) => {
                let acts = one_action(
                    TaskAction::Emit(InstallMessage::Error(InstallError::ConflictRemovalFailed(e))),
                );
                (TaskState::Done, acts)
            },
        },
        (TaskState::Placing { entry, dest, staged, resumed }, TaskEvent::Renamed(r)) => match r {
            Ok(_) => {
                let manifest_path = crate::locate::join1(dest.as_str(), "mod_info.json");
                let acts = match staged {
                    Some(t) => two_actions(
                        TaskAction::CleanupTemp { path: t },
                        TaskAction::ReadFile { path: manifest_path },
                    ),
                    None => one_action(TaskAction::ReadFile { path: manifest_path }),
                };
                let next = TaskState::Reparsing { dest, resumed };
                (next, acts)
            },
            Err(e) => {
                let acts = one_action(
                    TaskAction::Emit(InstallMessage::Error(InstallError::PlacementFailed(e))),
                );
                (TaskState::Done, acts)
            },
        },
        (TaskState::Reparsing { dest, resumed }, TaskEvent::FileRead(r)) => match r {
            Ok(text) => match crate::manifest::parse_manifest(text.as_str(), dest.as_str()) {
                Ok(entry) => {
                    let acts = one_action(TaskAction::Emit(InstallMessage::Success(entry)));
                    (TaskState::Done, acts)
                },
                Err(pe) => {
                    let acts = one_action(TaskAction::Emit(InstallMessage::Error(manifest_error(pe))));
                    (TaskState::Done, acts)
                },
            },
            Err(e) => {
                let acts = one_action(
                    TaskAction::Emit(InstallMessage::Error(InstallError::IoError(e))),
                );
                (TaskState::Done, acts)
            },
        },
        (TaskState::Done, _) => {
            let acts: Vec<TaskAction> = Vec::new();
            proof {
                assert(actions_view(acts@) =~= Seq::<ActionV>::empty());
            }
            (TaskState::Done, acts)
        },
        (st, _) => {
            let acts = one_action(
                TaskAction::Emit(
                    InstallMessage::Error(
                        InstallError::IoError(String::from_str("unexpected event")),
                    ),
                ),
            );
            (TaskState::Done, acts)
        },
    }
}

/// The messages among a step's actions, in order.
pub open spec fn spec_msgs(actions: Seq<ActionV>) -> Seq<MessageV>
    decreases actions.len(),
{
    if actions.len() == 0 {
        Seq::empty()
    } else {
        let rest = spec_msgs(actions.drop_first());
        match actions[0] {
            ActionV::Emit(m) => seq![m] + rest,
            _ => rest,
        }
    }
}

/// The state a task stands in after the given events arrived in order.
pub open spec fn spec_run_state(
    s: StateV,
    evs: Seq<EventV>,
    mods_dir: Seq<char>,
    known: Seq<Seq<char>>,
) -> StateV
    decreases evs.len(),
{
    if evs.len() == 0 {
        s
    } else {
        spec_run_state(spec_step(s, evs[0], mods_dir, known).0, evs.drop_first(), mods_dir, known)
    }
}

/// Every message a task emits when the given events arrive in order.
pub open spec fn spec_run_msgs(
    s: StateV,
    evs: Seq<EventV>,
    mods_dir: Seq<char>,
    known: Seq<Seq<char>>,
) -> Seq<MessageV>
    decreases evs.len(),
{
    if evs.len() == 0 {
        Seq::empty()
    } else {
        spec_msgs(spec_step(s, evs[0], mods_dir, known).1) + spec_run_msgs(
            spec_step(s, evs[0], mods_dir, known).0,
            evs.drop_first(),
            mods_dir,
            known,
        )
    }
}

/// Any single step emits at most one message, and a step that emits one is
/// the task's last: it lands in `Done`. A finished task steps to itself
/// with no actions at all.
pub proof fn lemma_step_emits_terminal(
    s: StateV,
    ev: EventV,
    mods_dir: Seq<char>,
    known: Seq<Seq<char>>,
)
    ensures
        spec_msgs(spec_step(s, ev, mods_dir, known).1).len() <= 1,
        spec_msgs(spec_step(s, ev, mods_dir, known).1).len() == 1 ==> spec_step(
            s,
            ev,
            mods_dir,
            known,
        ).0 is Done,
        s is Done ==> spec_step(s, ev, mods_dir, known) == (
            StateV::Done,
            Seq::<ActionV>::empty(),
        ),
{
    reveal_with_fuel(spec_msgs, 4);
}

/// A finished task never speaks again, however many events arrive.
pub proof fn lemma_run_from_done(evs: Seq<EventV>, mods_dir: Seq<char>, known: Seq<Seq<char>>)
    ensures
        spec_run_msgs(StateV::Done, evs, mods_dir, known) == Seq::<MessageV>::empty(),
    decreases evs.len(),
{
    if evs.len() == 0 {
    } else {
        lemma_step_emits_terminal(StateV::Done, evs[0], mods_dir, known);
        lemma_run_from_done(evs.drop_first(), mods_dir, known);
        assert(spec_run_msgs(StateV::Done, evs, mods_dir, known) =~= Seq::<MessageV>::empty());
    }
}

/// One message per task: however a task starts and whatever events arrive,
/// the whole run emits at most one message — exactly one `Success`, one
/// `Duplicate` or one final `Error` terminates it, never more.
pub proof fn lemma_run_at_most_one_message(
    s: StateV,
    evs: Seq<EventV>,
    mods_dir: Seq<char>,
    known: Seq<Seq<char>>,
)
    ensures
        spec_run_msgs(s, evs, mods_dir, known).len() <= 1,
    decreases evs.len(),
{
    if evs.len() == 0 {
    } else {
        let (s2, acts) = spec_step(s, evs[0], mods_dir, known);
        lemma_step_emits_terminal(s, evs[0], mods_dir, known);
        if spec_msgs(acts).len() == 1 {
            lemma_run_from_done(evs.drop_first(), mods_dir, known);
        } else {
            lemma_run_at_most_one_message(s2, evs.drop_first(), mods_dir, known);
        }
    }
}

/// A finished task stays finished.
pub proof fn lemma_run_state_from_done(evs: Seq<EventV>, mods_dir: Seq<char>, known: Seq<Seq<char>>)
    ensures
        spec_run_state(StateV::Done, evs, mods_dir, known) == StateV::Done,
    decreases evs.len(),
{
    if evs.len() == 0 {
    } else {
        lemma_run_state_from_done(evs.drop_first(), mods_dir, known);
    }
}

/// A run's messages split at any point: what the first `i` steps emitted,
/// then what the rest emits from the state those steps reached.
pub proof fn lemma_run_split(
    s: StateV,
    evs: Seq<EventV>,
    i: int,
    mods_dir: Seq<char>,
    known: Seq<Seq<char>>,
)
    requires
        0 <= i <= evs.len(),
    ensures
        spec_run_msgs(s, evs, mods_dir, known) == spec_run_msgs(s, evs.take(i), mods_dir, known)
            + spec_run_msgs(
            spec_run_state(s, evs.take(i), mods_dir, known),
            evs.skip(i),
            mods_dir,
            known,
        ),
    decreases i,
{
    if i == 0 {
        assert(evs.take(0) =~= Seq::<EventV>::empty());
        assert(evs.skip(0) =~= evs);
        assert(spec_run_msgs(s, evs, mods_dir, known) =~= Seq::<MessageV>::empty()
            + spec_run_msgs(s, evs, mods_dir, known));
    } else {
        let s1 = spec_step(s, evs[0], mods_dir, known).0;
        let m0 = spec_msgs(spec_step(s, evs[0], mods_dir, known).1);
        lemma_run_split(s1, evs.drop_first(), i - 1, mods_dir, known);
        assert(evs.take(i).drop_first() =~= evs.drop_first().take(i - 1));
        assert(evs.skip(i) =~= evs.drop_first().skip(i - 1));
        assert(evs.take(i)[0] == evs[0]);
        assert(spec_run_state(s, evs.take(i), mods_dir, known) == spec_run_state(
            s1,
            evs.drop_first().take(i - 1),
            mods_dir,
            known,
        ));
        assert(spec_run_msgs(s, evs, mods_dir, known) =~= m0 + spec_run_msgs(
            s1,
            evs.drop_first().take(i - 1),
            mods_dir,
            known,
        ) + spec_run_msgs(
            spec_run_state(s1, evs.drop_first().take(i - 1), mods_dir, known),
            evs.drop_first().skip(i - 1),
            mods_dir,
            known,
        ));
        assert(spec_run_msgs(s, evs.take(i), mods_dir, known) =~= m0 + spec_run_msgs(
            s1,
            evs.drop_first().take(i - 1),
            mods_dir,
            known,
        ));
    }
}

/// While a task is still running it has said nothing: any prefix of events
/// that leaves the state short of `Done` emitted no message at all.
pub proof fn lemma_running_prefix_silent(
    s: StateV,
    evs: Seq<EventV>,
    mods_dir: Seq<char>,
    known: Seq<Seq<char>>,
)
    requires
        !(spec_run_state(s, evs, mods_dir, known) is Done),
    ensures
        spec_run_msgs(s, evs, mods_dir, known) == Seq::<MessageV>::empty(),
    decreases evs.len(),
{
    if evs.len() == 0 {
    } else {
        let (s1, acts) = spec_step(s, evs[0], mods_dir, known);
        lemma_step_emits_terminal(s, evs[0], mods_dir, known);
        if s1 is Done {
            lemma_run_state_from_done(evs.drop_first(), mods_dir, known);
            assert(false);
        }
        lemma_running_prefix_silent(s1, evs.drop_first(), mods_dir, known);
        assert(spec_run_msgs(s, evs, mods_dir, known) =~= Seq::<MessageV>::empty());
    }
}

/// A fresh install whose parsed id the registry already knows emits exactly
/// one `Duplicate`, identified by that id, with the resolved destination —
/// and emits no `Success`, before or after: the whole run says nothing
/// else. The premise places the run at its manifest-parse step; everything
/// earlier was silent, everything later is absorbed by the suspension.
pub proof fn lemma_known_id_emits_one_duplicate(
    s0: StateV,
    evs: Seq<EventV>,
    i: int,
    mods_dir: Seq<char>,
    known: Seq<Seq<char>>,
)
    requires
        0 <= i < evs.len(),
        spec_run_state(s0, evs.take(i), mods_dir, known) is ParsingManifest,
        evs[i] matches EventV::FileRead(Ok(text)),
        ({
            let st = spec_run_state(s0, evs.take(i), mods_dir, known);
            let text = evs[i]->FileRead_0->Ok_0;
            &&& spec_parse_manifest(text, st->ParsingManifest_root) is Ok
            &&& known.contains(spec_parse_manifest(text, st->ParsingManifest_root)->Ok_0.id)
        }),
    ensures
        ({
            let st = spec_run_state(s0, evs.take(i), mods_dir, known);
            let text = evs[i]->FileRead_0->Ok_0;
            let entry = spec_parse_manifest(text, st->ParsingManifest_root)->Ok_0;
            spec_run_msgs(s0, evs, mods_dir, known) == seq![
                MessageV::Duplicate(
                    ConflictV::ById(entry.id),
                    PendingV::Resolved(spec_join1(mods_dir, entry.id)),
                    entry,
                ),
            ]
        }),
        forall|k: int|
            0 <= k < spec_run_msgs(s0, evs, mods_dir, known).len() ==> !(spec_run_msgs(
                s0,
                evs,
                mods_dir,
                known,
            )[k] is Success),
{
    let st = spec_run_state(s0, evs.take(i), mods_dir, known);
    let text = evs[i]->FileRead_0->Ok_0;
    let entry = spec_parse_manifest(text, st->ParsingManifest_root)->Ok_0;
    let dup = MessageV::Duplicate(
        ConflictV::ById(entry.id),
        PendingV::Resolved(spec_join1(mods_dir, entry.id)),
        entry,
    );
    lemma_run_split(s0, evs, i, mods_dir, known);
    lemma_running_prefix_silent(s0, evs.take(i), mods_dir, known);
    let rest = evs.skip(i);
    assert(rest[0] == evs[i]);
    let (s1, acts) = spec_step(st, evs[i], mods_dir, known);
    assert(s1 is Done);
    reveal_with_fuel(spec_msgs, 4);
    assert(spec_msgs(acts) =~= seq![dup]);
    lemma_run_from_done(rest.drop_first(), mods_dir, known);
    assert(spec_run_msgs(st, rest, mods_dir, known) =~= seq![dup]);
    assert(spec_run_msgs(s0, evs, mods_dir, known) =~= seq![dup]);
}

/// An entry a manifest parse yields is rooted exactly at the path the parse
/// was asked about.
pub proof fn lemma_parse_path(s: Seq<char>, p: Seq<char>)
    requires
        spec_parse_manifest(s, p) is Ok,
    ensures
        spec_parse_manifest(s, p)->Ok_0.path == p,
{
}

/// A resumed task that ends in `Success` did things in exactly the right
/// order: the conflicting prior path was removed from disk (first event:
/// removal confirmed), only then was the package renamed into the
/// destination (second event: rename confirmed — the new package now
/// occupies that path), and the emitted entry is the one re-parsed at the
/// destination, rooted there. The run emits that `Success` and nothing
/// else.
pub proof fn lemma_resumed_success_order(
    entry: EntryView,
    dest: Seq<char>,
    conflict: ConflictV,
    evs: Seq<EventV>,
    mods_dir: Seq<char>,
    known: Seq<Seq<char>>,
)
    requires
        ({
            let s0 = StateV::RemovingConflict { entry, dest, conflict };
            let msgs = spec_run_msgs(s0, evs, mods_dir, known);
            exists|k: int| 0 <= k < msgs.len() && #[trigger] msgs[k] is Success
        }),
    ensures
        evs.len() >= 3,
        evs[0] matches EventV::Removed(Ok(_)),
        evs[1] matches EventV::Renamed(Ok(_)),
        evs[2] matches EventV::FileRead(Ok(t2)),
        spec_parse_manifest(evs[2]->FileRead_0->Ok_0, dest) is Ok,
        ({
            let e2 = spec_parse_manifest(evs[2]->FileRead_0->Ok_0, dest)->Ok_0;
            let s0 = StateV::RemovingConflict { entry, dest, conflict };
            spec_run_msgs(s0, evs, mods_dir, known) == seq![MessageV::Success(e2)] && e2.path
                == dest
        }),
{
    reveal_with_fuel(spec_msgs, 4);
    let s0 = StateV::RemovingConflict { entry, dest, conflict };
    let msgs = spec_run_msgs(s0, evs, mods_dir, known);
    assert(evs.len() >= 1);
    let (s1, a0) = spec_step(s0, evs[0], mods_dir, known);
    if !(evs[0] matches EventV::Removed(Ok(_))) {
        assert(s1 is Done);
        lemma_run_from_done(evs.drop_first(), mods_dir, known);
        assert(msgs =~= spec_msgs(a0));
        assert(false);
    }
    assert(s1 == StateV::Placing { entry, dest, staged: None, resumed: true });
    let rest1 = evs.drop_first();
    assert(msgs =~= spec_run_msgs(s1, rest1, mods_dir, known));
    assert(rest1.len() >= 1);
    assert(rest1[0] == evs[1]);
    let (s2, a1) = spec_step(s1, evs[1], mods_dir, known);
    if !(evs[1] matches EventV::Renamed(Ok(_))) {
        assert(s2 is Done);
        lemma_run_from_done(rest1.drop_first(), mods_dir, known);
        assert(msgs =~= spec_msgs(a1));
        assert(false);
    }
    assert(s2 == StateV::Reparsing { dest, resumed: true });
    let rest2 = rest1.drop_first();
    assert(msgs =~= spec_run_msgs(s2, rest2, mods_dir, known));
    assert(rest2.len() >= 1);
    assert(rest2[0] == evs[2]);
    let (s3, a2) = spec_step(s2, evs[2], mods_dir, known);
    assert(s3 is Done);
    lemma_run_from_done(rest2.drop_first(), mods_dir, known);
    assert(msgs =~= spec_msgs(a2));
    if !(evs[2] matches EventV::FileRead(Ok(t2)) && spec_parse_manifest(t2, dest) is Ok) {
        assert(false);
    }

    let t2 = evs[2]->FileRead_0->Ok_0;
    lemma_parse_path(t2, dest);
    let e2 = spec_parse_manifest(t2, dest)->Ok_0;
    assert(msgs =~= seq![MessageV::Success(e2)]);
}

/// A task only ever reaches the re-parse guard through a confirmed rename:
/// whenever a step lands in `Reparsing`, the step started in `Placing` for
/// the same destination and its event was the successful rename into it.
pub proof fn lemma_reparse_follows_rename(
    s: StateV,
    ev: EventV,
    mods_dir: Seq<char>,
    known: Seq<Seq<char>>,
)
    ensures
        spec_step(s, ev, mods_dir, known).0 is Reparsing ==> s is Placing && s->Placing_dest
            == spec_step(s, ev, mods_dir, known).0->Reparsing_dest && (ev matches EventV::Renamed(
            Ok(_),
        )),
{
}

/// A failed rename — in particular the one a second, stale resume attempt
/// meets once the first already occupied the destination — ends the task
/// with exactly one `PlacementFailed` error; nothing was emitted before and
/// nothing follows, so no second `Success` can arise.
pub proof fn lemma_placement_failure_terminal(
    entry: EntryView,
    dest: Seq<char>,
    staged: Option<Seq<char>>,
    resumed: bool,
    e: Seq<char>,
    mods_dir: Seq<char>,
    known: Seq<Seq<char>>,
)
    ensures
        spec_step(
            StateV::Placing { entry, dest, staged, resumed },
            EventV::Renamed(Err(e)),
            mods_dir,
            known,
        ) == (
            StateV::Done,
            seq![ActionV::Emit(MessageV::Error(ErrorV::PlacementFailed(e)))],
        ),
{
}

/// Every run that ends in `Success` got there through the re-parse guard:
/// some event was the successful read-back of the manifest at the final
/// destination, the emitted entry is exactly what that text parses to —
/// the placed and re-parsed content agree because parsing is a function of
/// the text — the entry is rooted at the destination, and the run emitted
/// that one `Success` and nothing else.
pub proof fn lemma_success_is_reparse_roundtrip(
    s: StateV,
    evs: Seq<EventV>,
    mods_dir: Seq<char>,
    known: Seq<Seq<char>>,
)
    requires
        ({
            let msgs = spec_run_msgs(s, evs, mods_dir, known);
            exists|k: int| 0 <= k < msgs.len() && #[trigger] msgs[k] is Success
        }),
    ensures
        exists|i: int|
            #![trigger evs.take(i)]
            {
                &&& 0 <= i < evs.len()
                &&& spec_run_state(s, evs.take(i), mods_dir, known) is Reparsing
                &&& evs[i] matches EventV::FileRead(Ok(t2))
                &&& spec_parse_manifest(
                    evs[i]->FileRead_0->Ok_0,
                    spec_run_state(s, evs.take(i), mods_dir, known)->Reparsing_dest,
                ) is Ok
                &&& spec_run_msgs(s, evs, mods_dir, known) == seq![
                    MessageV::Success(
                        spec_parse_manifest(
                            evs[i]->FileRead_0->Ok_0,
                            spec_run_state(s, evs.take(i), mods_dir, known)->Reparsing_dest,
                        )->Ok_0,
                    ),
                ]
                &&& spec_parse_manifest(
                    evs[i]->FileRead_0->Ok_0,
                    spec_run_state(s, evs.take(i), mods_dir, known)->Reparsing_dest,
                )->Ok_0.path == spec_run_state(s, evs.take(i), mods_dir, known)->Reparsing_dest
            },
    decreases evs.len(),
{
    reveal_with_fuel(spec_msgs, 4);
    let msgs = spec_run_msgs(s, evs, mods_dir, known);
    assert(evs.len() >= 1);
    let (s1, a0) = spec_step(s, evs[0], mods_dir, known);
    lemma_step_emits_terminal(s, evs[0], mods_dir, known);
    if spec_msgs(a0).len() >= 1 {
        lemma_run_from_done(evs.drop_first(), mods_dir, known);
        assert(msgs =~= spec_msgs(a0));
        if !(s is Reparsing && (evs[0] matches EventV::FileRead(Ok(t))
            && spec_parse_manifest(t, s->Reparsing_dest) is Ok)) {
            assert(!(msgs[0] is Success));
            assert(false);
        }
        let t2 = evs[0]->FileRead_0->Ok_0;
        lemma_parse_path(t2, s->Reparsing_dest);
        assert(evs.take(0) =~= Seq::<EventV>::empty());
        assert(spec_run_state(s, evs.take(0), mods_dir, known) == s);
        assert(msgs =~= seq![
            MessageV::Success(spec_parse_manifest(t2, s->Reparsing_dest)->Ok_0),
        ]);
        assert(0 <= 0 < evs.len() && spec_run_state(s, evs.take(0), mods_dir, known)
            is Reparsing);
    } else {
        assert(msgs =~= spec_run_msgs(s1, evs.drop_first(), mods_dir, known));
        lemma_success_is_reparse_roundtrip(s1, evs.drop_first(), mods_dir, known);
        let rest = evs.drop_first();
        let i1 = choose|i: int|
            #![trigger rest.take(i)]
            {
                &&& 0 <= i < rest.len()
                &&& spec_run_state(s1, rest.take(i), mods_dir, known) is Reparsing
                &&& rest[i] matches EventV::FileRead(Ok(t2))
                &&& spec_parse_manifest(
                    rest[i]->FileRead_0->Ok_0,
                    spec_run_state(s1, rest.take(i), mods_dir, known)->Reparsing_dest,
                ) is Ok
                &&& spec_run_msgs(s1, rest, mods_dir, known) == seq![
                    MessageV::Success(
                        spec_parse_manifest(
                            rest[i]->FileRead_0->Ok_0,
                            spec_run_state(s1, rest.take(i), mods_dir, known)->Reparsing_dest,
                        )->Ok_0,
                    ),
                ]
                &&& spec_parse_manifest(
                    rest[i]->FileRead_0->Ok_0,
                    spec_run_state(s1, rest.take(i), mods_dir, known)->Reparsing_dest,
                )->Ok_0.path == spec_run_state(
                    s1,
                    rest.take(i),
                    mods_dir,
                    known,
                )->Reparsing_dest
            };
        let i = i1 + 1;
        assert(evs.take(i).drop_first() =~= rest.take(i1));
        assert(evs.take(i)[0] == evs[0]);
        assert(spec_run_state(s, evs.take(i), mods_dir, known) == spec_run_state(
            s1,
            rest.take(i1),
            mods_dir,
            known,
        ));
        assert(evs[i] == rest[i1]);
        assert(0 <= i < evs.len() && spec_run_state(s, evs.take(i), mods_dir, known)
            is Reparsing);
    }
}

/// Accepting an update-available signal re-enters the install pipeline with
/// a `Download` intent for the entry — an update is an install with a known
/// conflict, resolved through the same suspend/resume machinery.
pub fn accept_update(entry: PackageEntry) -> (r: InstallIntent)
    ensures
        r matches InstallIntent::Download(e) && e@ == entry@,
{
    InstallIntent::Download(entry)
}

/// Starts the task for a `Download` intent once the application has
/// resolved the remote payload into an archive file: from there the task
/// runs exactly as an archive install, full conflict detection included.
pub fn start_download(archive: String, temp: String) -> (r: (TaskState, Vec<TaskAction>))
    ensures
        (r.0@, actions_view(r.1@)) == spec_start(archive@, SourceKind::Archive, temp@),
{
    start_task(Source { path: archive, kind: SourceKind::Archive }, temp)
}

/// The text of an error's human-readable description.
pub open spec fn spec_describe(e: ErrorV) -> Seq<char> {
    match e {
        ErrorV::ExtractionFailed(d) => "could not extract archive: "@ + d,
        ErrorV::NoPackageFound => "no package found"@,
        ErrorV::ManifestMalformed => "manifest is malformed"@,
        ErrorV::ManifestMissingField(_) => "manifest is missing a required field"@,
        ErrorV::ConflictRemovalFailed(d) => "could not remove existing package: "@ + d,
        ErrorV::PlacementFailed(d) => "could not move package into place: "@ + d,
        ErrorV::IoError(d) => "filesystem error: "@ + d,
    }
}

impl InstallError {
    /// A human-readable description, for the consumer to surface.
    pub fn describe(&self) -> (r: String)
        ensures
            r@ == spec_describe(self@),
    {
        match self {
            InstallError::ExtractionFailed(d) => {
                let mut s = String::from_str("could not extract archive: ");
                s.append(d.as_str());
                s
            },
            InstallError::NoPackageFound => String::from_str("no package found"),
            InstallError::ManifestMalformed => String::from_str("manifest is malformed"),
            InstallError::ManifestMissingField(_) => String::from_str(
                "manifest is missing a required field",
            ),
            InstallError::ConflictRemovalFailed(d) => {
                let mut s = String::from_str("could not remove existing package: ");
                s.append(d.as_str());
                s
            },
            InstallError::PlacementFailed(d) => {
                let mut s = String::from_str("could not move package into place: ");
                s.append(d.as_str());
                s
            },
            InstallError::IoError(d) => {
                let mut s = String::from_str("filesystem error: ");
                s.append(d.as_str());
                s
            },
        }
    }
}

/// The path a conflict identity names on disk: an id conflict resolves
/// through the registry to the existing package's path; a path conflict
/// names the path itself. `None` when the registry no longer knows the id.
pub fn conflict_path(reg: &ModList, c: &ConflictIdentity) -> (r: Option<String>)
    ensures
        match c@ {
            ConflictV::ById(id) => match reg.spec_get(id) {
                Some(e) => r matches Some(p) && p@ == e.path,
                None => r is None,
            },
            ConflictV::ByPath(p) => r matches Some(q) && q@ == p,
        },
{
    match c {
        ConflictIdentity::ById(id) => match reg.get(id) {
            Some(e) => Some(e.path.clone()),
            None => None,
        },
        ConflictIdentity::ByPath(p) => Some(p.clone()),
    }
}

} // verus!
