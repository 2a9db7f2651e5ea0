//! A deployment or cache clearing, driven one event at a time: the library
//! decides, the caller performs each action and reports what came of it.
//!
//! An operation asks for confirmation before anything destructive, opens a
//! session only once confirmed, removes the remote target (for a replace),
//! transfers, asks again before clearing the remote cache, and closes the
//! session on every path that opened it.

use crate::paths::{change_selection, patch_selection, select_target, target_selection, texts};
use crate::ssh_config::SshConfig;
use crate::text::{decimal, push_padded};
use crate::transfer::{
    archive_entries,
    archive_steps,
    command_view,
    dir_chain,
    direct_plan,
    entry_views,
    plan_archive_transfer,
    plan_direct_transfer,
    push_dir_chain,
    remote_command,
    step_views,
    str_texts,
    ArchiveEntry,
    CommandView,
    RemoteCommand,
    StepView,
    TransferStep,
};
use vstd::prelude::*;

verus! {

/// What an operation does.
#[derive(Debug, Clone, Copy, PartialEq, Eq, Structural)]
pub enum OperationKind {
    /// Remove the remote target and upload the whole tree again.
    Replace,
    /// Upload a list of files.
    Patch,
    /// Only clear the remote cache.
    ClearCache,
}

/// A question put to the operator.
#[derive(Debug, Clone, Copy, PartialEq, Eq, Structural)]
pub enum Prompt {
    RemoveRemote,
    UploadFiles,
    ClearCache,
}

/// Where an operation stands.
#[derive(Debug, Clone, Copy, PartialEq, Eq, Structural)]
pub enum Stage {
    Idle,
    Confirming,
    Opening,
    Cleaning,
    Transferring,
    ConfirmingCache,
    CacheClearing,
    Closing,
    Done,
    Aborted,
    Failed,
}

/// How an operation ended.
#[derive(Debug, Clone, Copy, PartialEq, Eq, Structural)]
pub enum Outcome {
    /// There was no file to move; the remote host was not contacted.
    NothingToDo,
    Completed,
    /// The operator declined; nothing was done remotely.
    Declined,
    Failed,
}

/// What the caller reports.
#[derive(Debug, Clone, Copy, PartialEq, Eq, Structural)]
pub enum Event {
    Start,
    /// The operator's answer: yes or no.
    Answer(bool),
    /// Whether the session could be opened.
    SessionOpened(bool),
    /// Whether the last command or transfer step could be carried out.
    StepFinished(bool),
    SessionClosed,
}

/// What the caller is to do next.
#[derive(Debug, Clone, Copy, PartialEq, Eq, Structural)]
pub enum Action {
    /// Nothing: the event did not fit the stage.
    Wait,
    Ask(Prompt),
    OpenSession,
    /// Run the cleanup command with this index.
    Cleanup(usize),
    /// Carry out the transfer step with this index.
    Transfer(usize),
    /// Run the cache command with this index.
    ClearCache(usize),
    CloseSession,
    Finish(Outcome),
}

/// The state of an operation, with the sizes of its lists of work.
#[derive(Debug, Clone, Copy, PartialEq, Eq, Structural)]
pub struct SyncState {
    pub kind: OperationKind,
    pub stage: Stage,
    pub index: usize,
    pub session_open: bool,
    pub failed: bool,
    pub files: usize,
    pub n_cleanup: usize,
    pub n_transfer: usize,
    pub n_cache: usize,
}

/// Whether an action acts on the remote host.
pub open spec fn is_remote(a: Action) -> bool {
    match a {
        Action::OpenSession | Action::Cleanup(_) | Action::Transfer(_) | Action::ClearCache(_) => true,
        _ => false,
    }
}

/// Whether an operation in this stage has ended.
pub open spec fn is_terminal(stage: Stage) -> bool {
    stage == Stage::Done || stage == Stage::Aborted || stage == Stage::Failed
}

/// Close the session after a failure.
pub open spec fn close_failed(s: SyncState) -> (SyncState, Action) {
    (SyncState { stage: Stage::Closing, failed: true, ..s }, Action::CloseSession)
}

/// Start clearing the cache, or close when there is nothing to clear.
pub open spec fn begin_cache(s: SyncState) -> (SyncState, Action) {
    if s.n_cache > 0 {
        (SyncState { stage: Stage::CacheClearing, index: 0, ..s }, Action::ClearCache(0))
    } else {
        (SyncState { stage: Stage::Closing, ..s }, Action::CloseSession)
    }
}

/// Start transferring; with nothing to transfer, go on to the cache.
pub open spec fn begin_transfer(s: SyncState) -> (SyncState, Action) {
    if s.n_transfer > 0 {
        (SyncState { stage: Stage::Transferring, index: 0, ..s }, Action::Transfer(0))
    } else {
        (SyncState { stage: Stage::ConfirmingCache, ..s }, Action::Ask(Prompt::ClearCache))
    }
}

/// Start removing the remote target; with nothing to remove, transfer.
pub open spec fn begin_cleanup(s: SyncState) -> (SyncState, Action) {
    if s.n_cleanup > 0 {
        (SyncState { stage: Stage::Cleaning, index: 0, ..s }, Action::Cleanup(0))
    } else {
        begin_transfer(s)
    }
}

/// One step of an operation: the state after event `e`, and what to do.
/// A step that could not be carried out fails the operation, which then
/// closes its session; the one exception is the removal of the cache
/// directory, the first cache command, since the directory may not exist
/// yet: the cache is created again all the same.
pub open spec fn transition(s: SyncState, e: Event) -> (SyncState, Action) {
    match (s.stage, e) {
        (Stage::Idle, Event::Start) => if s.kind == OperationKind::ClearCache {
            (SyncState { stage: Stage::ConfirmingCache, ..s }, Action::Ask(Prompt::ClearCache))
        } else if s.files == 0 {
            (SyncState { stage: Stage::Done, ..s }, Action::Finish(Outcome::NothingToDo))
        } else if s.kind == OperationKind::Replace {
            (SyncState { stage: Stage::Confirming, ..s }, Action::Ask(Prompt::RemoveRemote))
        } else {
            (SyncState { stage: Stage::Confirming, ..s }, Action::Ask(Prompt::UploadFiles))
        },
        (Stage::Confirming, Event::Answer(yes)) => if yes {
            (SyncState { stage: Stage::Opening, ..s }, Action::OpenSession)
        } else {
            (SyncState { stage: Stage::Aborted, ..s }, Action::Finish(Outcome::Declined))
        },
        (Stage::Opening, Event::SessionOpened(ok)) => if ok {
            let t = SyncState { session_open: true, ..s };
            if s.kind == OperationKind::ClearCache {
                begin_cache(t)
            } else {
                begin_cleanup(t)
            }
        } else {
            (SyncState { stage: Stage::Failed, ..s }, Action::Finish(Outcome::Failed))
        },
        (Stage::Cleaning, Event::StepFinished(ok)) => if !ok {
            close_failed(s)
        } else if s.index + 1 < s.n_cleanup {
            (SyncState { index: (s.index + 1) as usize, ..s }, Action::Cleanup((s.index + 1) as usize))
        } else {
            begin_transfer(s)
        },
        (Stage::Transferring, Event::StepFinished(ok)) => if !ok {
            close_failed(s)
        } else if s.index + 1 < s.n_transfer {
            (SyncState { index: (s.index + 1) as usize, ..s }, Action::Transfer((s.index + 1) as usize))
        } else {
            (SyncState { stage: Stage::ConfirmingCache, ..s }, Action::Ask(Prompt::ClearCache))
        },
        (Stage::ConfirmingCache, Event::Answer(yes)) => if yes {
            if s.session_open {
                begin_cache(s)
            } else {
                (SyncState { stage: Stage::Opening, ..s }, Action::OpenSession)
            }
        } else if s.session_open {
            (SyncState { stage: Stage::Closing, ..s }, Action::CloseSession)
        } else {
            (SyncState { stage: Stage::Aborted, ..s }, Action::Finish(Outcome::Declined))
        },
        (Stage::CacheClearing, Event::StepFinished(ok)) => if !ok && s.index > 0 {
            close_failed(s)
        } else if s.index + 1 < s.n_cache {
            (SyncState { index: (s.index + 1) as usize, ..s }, Action::ClearCache((s.index + 1) as usize))
        } else {
            (SyncState { stage: Stage::Closing, ..s }, Action::CloseSession)
        },
        (Stage::Closing, Event::SessionClosed) => if s.failed {
            (SyncState { stage: Stage::Failed, session_open: false, ..s }, Action::Finish(Outcome::Failed))
        } else {
            (SyncState { stage: Stage::Done, session_open: false, ..s }, Action::Finish(Outcome::Completed))
        },
        _ => (s, Action::Wait),
    }
}

fn start_cache(s: SyncState) -> (r: (SyncState, Action))
    ensures
        r == begin_cache(s),
{
    if s.n_cache > 0 {
        (SyncState { stage: Stage::CacheClearing, index: 0, ..s }, Action::ClearCache(0))
    } else {
        (SyncState { stage: Stage::Closing, ..s }, Action::CloseSession)
    }
}

fn start_transfer(s: SyncState) -> (r: (SyncState, Action))
    ensures
        r == begin_transfer(s),
{
    if s.n_transfer > 0 {
        (SyncState { stage: Stage::Transferring, index: 0, ..s }, Action::Transfer(0))
    } else {
        (SyncState { stage: Stage::ConfirmingCache, ..s }, Action::Ask(Prompt::ClearCache))
    }
}

fn start_cleanup(s: SyncState) -> (r: (SyncState, Action))
    ensures
        r == begin_cleanup(s),
{
    if s.n_cleanup > 0 {
        (SyncState { stage: Stage::Cleaning, index: 0, ..s }, Action::Cleanup(0))
    } else {
        start_transfer(s)
    }
}

/// Whether another item follows the one at `index` in a list of `n`.
fn has_next(index: usize, n: usize) -> (r: bool)
    ensures
        r == (index + 1 < n),
{
    n > 0 && index < n - 1
}

/// One step of an operation, as `transition` states.
pub fn next(s: SyncState, e: Event) -> (r: (SyncState, Action))
    ensures
        r == transition(s, e),
{
    match (s.stage, e) {
        (Stage::Idle, Event::Start) => if s.kind == OperationKind::ClearCache {
            (SyncState { stage: Stage::ConfirmingCache, ..s }, Action::Ask(Prompt::ClearCache))
        } else if s.files == 0 {
            (SyncState { stage: Stage::Done, ..s }, Action::Finish(Outcome::NothingToDo))
        } else if s.kind == OperationKind::Replace {
            (SyncState { stage: Stage::Confirming, ..s }, Action::Ask(Prompt::RemoveRemote))
        } else {
            (SyncState { stage: Stage::Confirming, ..s }, Action::Ask(Prompt::UploadFiles))
        },
        (Stage::Confirming, Event::Answer(yes)) => if yes {
            (SyncState { stage: Stage::Opening, ..s }, Action::OpenSession)
        } else {
            (SyncState { stage: Stage::Aborted, ..s }, Action::Finish(Outcome::Declined))
        },
        (Stage::Opening, Event::SessionOpened(ok)) => if ok {
            let t = SyncState { session_open: true, ..s };
            if s.kind == OperationKind::ClearCache {
                start_cache(t)
            } else {
                start_cleanup(t)
            }
        } else {
            (SyncState { stage: Stage::Failed, ..s }, Action::Finish(Outcome::Failed))
        },
        (Stage::Cleaning, Event::StepFinished(ok)) => if !ok {
            (SyncState { stage: Stage::Closing, failed: true, ..s }, Action::CloseSession)
        } else if has_next(s.index, s.n_cleanup) {
            (SyncState { index: s.index + 1, ..s }, Action::Cleanup(s.index + 1))
        } else {
            start_transfer(s)
        },
        (Stage::Transferring, Event::StepFinished(ok)) => if !ok {
            (SyncState { stage: Stage::Closing, failed: true, ..s }, Action::CloseSession)
        } else if has_next(s.index, s.n_transfer) {
            (SyncState { index: s.index + 1, ..s }, Action::Transfer(s.index + 1))
        } else {
            (SyncState { stage: Stage::ConfirmingCache, ..s }, Action::Ask(Prompt::ClearCache))
        },
        (Stage::ConfirmingCache, Event::Answer(yes)) => if yes {
            if s.session_open {
                start_cache(s)
            } else {
                (SyncState { stage: Stage::Opening, ..s }, Action::OpenSession)
            }
        } else if s.session_open {
            (SyncState { stage: Stage::Closing, ..s }, Action::CloseSession)
        } else {
            (SyncState { stage: Stage::Aborted, ..s }, Action::Finish(Outcome::Declined))
        },
        (Stage::CacheClearing, Event::StepFinished(ok)) => if !ok && s.index > 0 {
            (SyncState { stage: Stage::Closing, failed: true, ..s }, Action::CloseSession)
        } else if has_next(s.index, s.n_cache) {
            (SyncState { index: s.index + 1, ..s }, Action::ClearCache(s.index + 1))
        } else {
            (SyncState { stage: Stage::Closing, ..s }, Action::CloseSession)
        },
        (Stage::Closing, Event::SessionClosed) => if s.failed {
            (SyncState { stage: Stage::Failed, session_open: false, ..s }, Action::Finish(Outcome::Failed))
        } else {
            (SyncState { stage: Stage::Done, session_open: false, ..s }, Action::Finish(Outcome::Completed))
        },
        _ => (s, Action::Wait),
    }
}

/// The actions an operation in state `s` asks for, given the events in order.
pub open spec fn run(s: SyncState, events: Seq<Event>) -> Seq<Action>
    decreases events.len(),
{
    if events.len() == 0 {
        seq![]
    } else {
        let (t, a) = transition(s, events[0]);
        seq![a] + run(t, events.drop_first())
    }
}

/// An operation that has ended stays as it is and asks for nothing more.
pub proof fn lemma_ended_stays_quiet(s: SyncState, events: Seq<Event>)
    requires
        is_terminal(s.stage),
    ensures
        forall|i: int| 0 <= i < run(s, events).len() ==> #[trigger] run(s, events)[i] == Action::Wait,
    decreases events.len(),
{
    if events.len() > 0 {
        lemma_ended_stays_quiet(s, events.drop_first());
        let rest = run(s, events.drop_first());
        assert forall|i: int| 0 <= i < run(s, events).len() implies #[trigger] run(s, events)[i]
            == Action::Wait by {
            if i > 0 {
                assert(run(s, events)[i] == rest[i - 1]);
            }
        }
    }
}

/// Declining the confirmation ends the operation with nothing done on the
/// remote host: whatever is reported afterwards, no session is opened, no
/// command runs and no file is transferred.
pub proof fn lemma_declining_does_nothing(s: SyncState, events: Seq<Event>)
    requires
        s.stage == Stage::Confirming,
    ensures
        run(s, seq![Event::Answer(false)] + events)[0] == Action::Finish(Outcome::Declined),
        forall|i: int|
            0 <= i < run(s, seq![Event::Answer(false)] + events).len() ==> !is_remote(
                #[trigger] run(s, seq![Event::Answer(false)] + events)[i],
            ),
{
    let evs = seq![Event::Answer(false)] + events;
    assert(evs[0] == Event::Answer(false));
    assert(evs.drop_first() =~= events);
    let t = transition(s, Event::Answer(false)).0;
    lemma_ended_stays_quiet(t, events);
    assert forall|i: int| 0 <= i < run(s, evs).len() implies !is_remote(#[trigger] run(s, evs)[i]) by {
        if i > 0 {
            assert(run(s, evs)[i] == run(t, events)[i - 1]);
        }
    }
}

/// The state of an operation that has not started.
pub open spec fn initial(
    kind: OperationKind,
    files: nat,
    n_cleanup: nat,
    n_transfer: nat,
    n_cache: nat,
) -> SyncState {
    SyncState {
        kind,
        stage: Stage::Idle,
        index: 0,
        session_open: false,
        failed: false,
        files: files as usize,
        n_cleanup: n_cleanup as usize,
        n_transfer: n_transfer as usize,
        n_cache: n_cache as usize,
    }
}

/// The texts of a list of remote commands.
pub open spec fn command_views(v: Seq<RemoteCommand>) -> Seq<CommandView> {
    v.map_values(|c: RemoteCommand| c@)
}

/// Clearing a cache directory: remove it, then create it again open to all.
pub open spec fn cache_commands(cache: Seq<char>) -> Seq<CommandView> {
    seq![
        command_view("rm"@, seq!["-r"@, cache]),
        command_view("mkdir"@, seq![cache, "-m"@, "777"@]),
    ]
}

/// The name of the temporary local archive made at `secs` seconds.
pub open spec fn temp_archive_name(secs: nat) -> Seq<char> {
    "temp_"@ + decimal(secs) + ".zip"@
}

/// The commands that clear the remote cache directory `cache`.
pub fn clear_cache_commands(cache: &str) -> (r: Vec<RemoteCommand>)
    ensures
        command_views(r@) == cache_commands(cache@),
{
    let rm_args = ["-r", cache];
    let mkdir_args = [cache, "-m", "777"];
    let rm = remote_command("rm", &rm_args);
    let mkdir = remote_command("mkdir", &mkdir_args);
    assert(str_texts(rm_args@) =~= seq!["-r"@, cache@]);
    assert(str_texts(mkdir_args@) =~= seq![cache@, "-m"@, "777"@]);
    let r = vec![rm, mkdir];
    assert(command_views(r@) =~= cache_commands(cache@));
    r
}

/// The local archive of the archive strategy: its file name and entries.
pub struct LocalArchive {
    pub name: String,
    pub entries: Vec<ArchiveEntry>,
}

/// A deployment or cache clearing: the work it consists of and where it
/// stands. `step` advances it.
pub struct SyncOperation {
    pub state: SyncState,
    pub cleanup: Vec<RemoteCommand>,
    pub transfer: Vec<TransferStep>,
    pub cache: Vec<RemoteCommand>,
    pub archive: Option<LocalArchive>,
}

impl SyncOperation {
    /// The sizes recorded in the state are those of the lists of work.
    pub open spec fn wf(&self) -> bool {
        &&& self.state.n_cleanup == self.cleanup@.len()
        &&& self.state.n_transfer == self.transfer@.len()
        &&& self.state.n_cache == self.cache@.len()
    }

    /// Advances the operation by the event `e` and returns what to do next,
    /// as `transition` states; the work itself does not change.
    pub fn step(&mut self, e: Event) -> (a: Action)
        ensures
            final(self).state == transition(old(self).state, e).0,
            a == transition(old(self).state, e).1,
            final(self).cleanup == old(self).cleanup,
            final(self).transfer == old(self).transfer,
            final(self).cache == old(self).cache,
            final(self).archive == old(self).archive,
    {
        let (t, a) = next(self.state, e);
        self.state = t;
        a
    }
}

/// Prepares the replace deployment of `config`, limited to its
/// `target_path` part when one is given. `tree` is every file of the local
/// source root; `now_secs` names the temporary archive when `zip` asks for
/// the archive strategy. The remote target is removed, created again with
/// its parents, and the selected files are transferred into the remote
/// root; then the remote cache is cleared. The removal (`rm -rf`) succeeds
/// when the target does not exist yet, as on a first deployment.
pub fn upload_all(config: &SshConfig, target_path: &str, zip: bool, tree: &Vec<String>, now_secs: u64) -> (r:
    SyncOperation)
    ensures
        r.wf(),
        ({
            let files = target_selection(texts(tree@), config.spec_git_src_path(), target_path@);
            let target = config.spec_remote_target(target_path@);
            &&& r.state == initial(OperationKind::Replace, files.len(), 1, r.transfer@.len(), 2)
            &&& command_views(r.cleanup@) == seq![command_view("rm"@, seq!["-rf"@, target])]
            &&& command_views(r.cache@) == cache_commands(config.spec_remote_cache_path())
            &&& zip ==> step_views(r.transfer@) == dir_chain(target) + archive_steps(
                config.spec_remote_path(),
                temp_archive_name(now_secs as nat),
            )
            &&& zip ==> (r.archive matches Some(a) && a.name@ == temp_archive_name(now_secs as nat)
                && entry_views(a.entries@) == archive_entries(
                files,
                config.spec_git_src_path(),
                files.len(),
            ))
            &&& !zip ==> step_views(r.transfer@) == dir_chain(target) + direct_plan(
                files,
                config.spec_git_src_path(),
                config.spec_remote_path(),
            )
            &&& !zip ==> r.archive is None
        }),
{
    let src_root = config.git_src_path();
    let remote_root = config.remote_path();
    let files = select_target(tree, src_root.as_str(), target_path);
    let target = config.remote_target(target_path);
    let rm_args = ["-rf", target.as_str()];
    let remove = remote_command("rm", &rm_args);
    assert(str_texts(rm_args@) =~= seq!["-rf"@, target@]);
    let cleanup = vec![remove];
    assert(command_views(cleanup@) =~= seq![command_view("rm"@, seq!["-rf"@, target@])]);
    let mut transfer: Vec<TransferStep> = Vec::new();
    assert(step_views(transfer@) =~= Seq::<StepView>::empty());
    push_dir_chain(&mut transfer, &target);
    let archive = if zip {
        let mut name = String::from_str("temp_");
        push_padded(&mut name, now_secs, 1);
        name.append(".zip");
        let mut plan = plan_archive_transfer(&files, src_root.as_str(), remote_root.as_str(), name.as_str());
        transfer.append(&mut plan.steps);
        Some(LocalArchive { name, entries: plan.entries })
    } else {
        let mut steps = plan_direct_transfer(&files, src_root.as_str(), remote_root.as_str());
        transfer.append(&mut steps);
        None
    };
    let cache = clear_cache_commands(config.remote_cache_path().as_str());
    assert(command_views(cache@).len() == cache@.len());
    assert(command_views(cleanup@).len() == cleanup@.len());
    let state = SyncState {
        kind: OperationKind::Replace,
        stage: Stage::Idle,
        index: 0,
        session_open: false,
        failed: false,
        files: files.len(),
        n_cleanup: 1,
        n_transfer: transfer.len(),
        n_cache: 2,
    };
    SyncOperation { state, cleanup, transfer, cache, archive }
}

/// Prepares the upload of the listed local files of `config` (a patch list
/// or a change set, already resolved): each goes to the same place below
/// the remote root as it has below the local source root, after the
/// directories it needs; then the remote cache is cleared. Nothing is
/// removed first.
pub fn upload_patch(config: &SshConfig, paths: &Vec<String>) -> (r: SyncOperation)
    ensures
        r.wf(),
        r.state == initial(OperationKind::Patch, paths@.len(), 0, r.transfer@.len(), 2),
        r.cleanup@.len() == 0,
        step_views(r.transfer@) == direct_plan(
            texts(paths@),
            config.spec_git_src_path(),
            config.spec_remote_path(),
        ),
        command_views(r.cache@) == cache_commands(config.spec_remote_cache_path()),
        r.archive is None,
{
    let src_root = config.git_src_path();
    let remote_root = config.remote_path();
    let transfer = plan_direct_transfer(paths, src_root.as_str(), remote_root.as_str());
    let cache = clear_cache_commands(config.remote_cache_path().as_str());
    assert(command_views(cache@).len() == cache@.len());
    let state = SyncState {
        kind: OperationKind::Patch,
        stage: Stage::Idle,
        index: 0,
        session_open: false,
        failed: false,
        files: paths.len(),
        n_cleanup: 0,
        n_transfer: transfer.len(),
        n_cache: 2,
    };
    SyncOperation { state, cleanup: Vec::new(), transfer, cache, archive: None }
}

/// Prepares the clearing of the remote cache directory `remote_cache_path`:
/// after confirmation it is removed and created again.
pub fn clear_cache(remote_cache_path: &str) -> (r: SyncOperation)
    ensures
        r.wf(),
        r.state == initial(OperationKind::ClearCache, 0, 0, 0, 2),
        command_views(r.cache@) == cache_commands(remote_cache_path@),
        r.archive is None,
{
    let cache = clear_cache_commands(remote_cache_path);
    assert(command_views(cache@).len() == cache@.len());
    let state = SyncState {
        kind: OperationKind::ClearCache,
        stage: Stage::Idle,
        index: 0,
        session_open: false,
        failed: false,
        files: 0,
        n_cleanup: 0,
        n_transfer: 0,
        n_cache: 2,
    };
    SyncOperation { state, cleanup: Vec::new(), transfer: Vec::new(), cache, archive: None }
}

proof fn lemma_change_selection_empty(changed: Seq<Seq<char>>, repo: Seq<char>, relative: Seq<char>)
    requires
        forall|i: int| 0 <= i < changed.len() ==> !relative.is_prefix_of(#[trigger] changed[i]),
    ensures
        change_selection(changed, repo, relative) == Seq::<Seq<char>>::empty(),
    decreases changed.len(),
{
    if changed.len() > 0 {
        let init = changed.drop_last();
        assert forall|i: int| 0 <= i < init.len() implies !relative.is_prefix_of(#[trigger] init[i]) by {
            assert(init[i] == changed[i]);
        }
        lemma_change_selection_empty(init, repo, relative);
        assert(!relative.is_prefix_of(changed[changed.len() - 1]));
        assert(change_selection(changed, repo, relative) =~= Seq::<Seq<char>>::empty()
            + Seq::<Seq<char>>::empty());
    }
}

/// An empty patch list selects no file, nor does a change set none of
/// whose paths lies under the source root's relative path; and an upload
/// with no file to move ends at once as having nothing to do: it asks
/// nothing and never contacts the remote host, whatever is reported
/// afterwards.
pub proof fn lemma_nothing_selected_nothing_done(
    src_root: Seq<char>,
    repo: Seq<char>,
    relative: Seq<char>,
    changed: Seq<Seq<char>>,
    s: SyncState,
    events: Seq<Event>,
)
    requires
        forall|i: int| 0 <= i < changed.len() ==> !relative.is_prefix_of(#[trigger] changed[i]),
        s.stage == Stage::Idle,
        s.kind != OperationKind::ClearCache,
        s.files == patch_selection(src_root, seq![]).len() || s.files == change_selection(
            changed,
            repo,
            relative,
        ).len(),
    ensures
        patch_selection(src_root, seq![]) == Seq::<Seq<char>>::empty(),
        change_selection(changed, repo, relative) == Seq::<Seq<char>>::empty(),
        run(s, seq![Event::Start] + events)[0] == Action::Finish(Outcome::NothingToDo),
        forall|i: int|
            0 <= i < run(s, seq![Event::Start] + events).len() ==> !is_remote(
                #[trigger] run(s, seq![Event::Start] + events)[i],
            ),
{
    assert(patch_selection(src_root, seq![]) =~= Seq::<Seq<char>>::empty());
    lemma_change_selection_empty(changed, repo, relative);
    let evs = seq![Event::Start] + events;
    assert(evs[0] == Event::Start);
    assert(evs.drop_first() =~= events);
    let t = transition(s, Event::Start).0;
    lemma_ended_stays_quiet(t, events);
    assert forall|i: int| 0 <= i < run(s, evs).len() implies !is_remote(#[trigger] run(s, evs)[i]) by {
        if i > 0 {
            assert(run(s, evs)[i] == run(t, events)[i - 1]);
        }
    }
}

/// A failed removal of the cache directory (it may not exist) does not stop
/// the clearing: the cache is created next all the same.
pub proof fn lemma_cache_removal_failure_goes_on(s: SyncState)
    requires
        s.stage == Stage::CacheClearing,
        s.index == 0,
        s.n_cache > 1,
    ensures
        transition(s, Event::StepFinished(false)).1 == Action::ClearCache(1),
        transition(s, Event::StepFinished(false)).0.stage == Stage::CacheClearing,
{
}

/// The session is open exactly in the stages that need it, and an index
/// names an item of the list its stage works through.
pub open spec fn session_invariant(s: SyncState) -> bool {
    &&& s.session_open <==> (s.stage == Stage::Cleaning || s.stage == Stage::Transferring || s.stage
        == Stage::CacheClearing || s.stage == Stage::Closing || (s.stage == Stage::ConfirmingCache
        && s.kind != OperationKind::ClearCache))
    &&& (s.stage == Stage::Confirming || s.stage == Stage::Cleaning || s.stage
        == Stage::Transferring) ==> s.kind != OperationKind::ClearCache
    &&& s.stage == Stage::Cleaning ==> s.index < s.n_cleanup
    &&& s.stage == Stage::Transferring ==> s.index < s.n_transfer
    &&& s.stage == Stage::CacheClearing ==> s.index < s.n_cache
}

/// Every step keeps the session discipline: remote work is asked for only
/// on an open session and names an existing item; a session is opened only
/// once the operation was confirmed and reported open, and closed only
/// after the operation asked to close it; an operation ends only with its
/// session closed.
pub proof fn lemma_session_discipline(s: SyncState, e: Event)
    requires
        session_invariant(s),
    ensures
        session_invariant(transition(s, e).0),
        ({
            let (t, a) = transition(s, e);
            &&& a matches Action::Cleanup(i) ==> t.session_open && i < t.n_cleanup
            &&& a matches Action::Transfer(i) ==> t.session_open && i < t.n_transfer
            &&& a matches Action::ClearCache(i) ==> t.session_open && i < t.n_cache
            &&& a == Action::OpenSession ==> !t.session_open
            &&& a == Action::CloseSession ==> t.session_open
            &&& a matches Action::Finish(_) ==> !t.session_open && is_terminal(t.stage)
            &&& !s.session_open && t.session_open ==> e == Event::SessionOpened(true)
            &&& s.session_open && !t.session_open ==> s.stage == Stage::Closing && e
                == Event::SessionClosed
        }),
{
    match (s.stage, e) {
        (Stage::Opening, Event::SessionOpened(true)) => {
            let t = SyncState { session_open: true, ..s };
            if s.kind != OperationKind::ClearCache && s.n_cleanup == 0 {
                assert(transition(s, e) == begin_transfer(t));
            }
        },
        _ => {},
    }
}

/// A newly prepared operation satisfies the session discipline.
pub proof fn lemma_initial_discipline(kind: OperationKind, files: nat, n_cleanup: nat, n_transfer: nat, n_cache: nat)
    ensures
        session_invariant(initial(kind, files, n_cleanup, n_transfer, n_cache)),
{
}

/// The state of an operation in state `s` after the events, in order.
pub open spec fn after(s: SyncState, events: Seq<Event>) -> SyncState
    decreases events.len(),
{
    if events.len() == 0 {
        s
    } else {
        after(transition(s, events[0]).0, events.drop_first())
    }
}

/// Whatever is reported, an operation keeps the session discipline, and
/// one that has ended, successfully or not, has no session left open.
pub proof fn lemma_ended_session_closed(s: SyncState, events: Seq<Event>)
    requires
        session_invariant(s),
    ensures
        session_invariant(after(s, events)),
        is_terminal(after(s, events).stage) ==> !after(s, events).session_open,
    decreases events.len(),
{
    if events.len() > 0 {
        lemma_session_discipline(s, events[0]);
        lemma_ended_session_closed(transition(s, events[0]).0, events.drop_first());
    }
}

} // verus!
