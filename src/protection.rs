//! The protection run: process check, removal of version directories, optional
//! cache cleaning, the configuration lock and the update blockers, in that
//! order. The run decides; the caller performs each requested action on the
//! machine and hands back what came of it.
use vstd::prelude::*;
use crate::config::{rewrite_config, rewritten_config};
use crate::paths::{base_name, base_name_of};
use crate::text::{decimal, decimal_string};

verus! {

/// What a run reports when it ends.
pub struct ProtectionResult {
    pub success: bool,
    pub error: Option<String>,
    pub logs: Vec<String>,
}

/// What the caller asks of a full run.
pub struct ProtectionParams {
    pub versions_to_delete: Vec<String>,
    pub clean_cache: bool,
    pub lock_config: bool,
    pub create_blockers: bool,
}

/// The progress a front end shows, in order.
#[derive(Clone, Copy, PartialEq, Eq, Debug)]
pub enum ProgressStep {
    Scanning,
    CleaningVersions,
    LockingConfig,
    CreatingBlockers,
    Done,
}

impl ProgressStep {
    pub open spec fn position(self) -> nat {
        match self {
            ProgressStep::Scanning => 0,
            ProgressStep::CleaningVersions => 1,
            ProgressStep::LockingConfig => 2,
            ProgressStep::CreatingBlockers => 3,
            ProgressStep::Done => 4,
        }
    }

    /// The step's position in the sequence, from 0.
    pub fn index(&self) -> (r: usize)
        ensures
            r == self.position(),
    {
        match self {
            ProgressStep::Scanning => 0,
            ProgressStep::CleaningVersions => 1,
            ProgressStep::LockingConfig => 2,
            ProgressStep::CreatingBlockers => 3,
            ProgressStep::Done => 4,
        }
    }
}

/// The stage a run is in.
#[derive(Clone, Copy, PartialEq, Eq, Debug)]
pub enum Stage {
    CheckingProcess,
    CleaningVersions,
    LockingConfig,
    CreatingBlockers,
    Complete,
    Failed,
}

/// The places a run writes, each under the apps directory or the install root.
#[derive(Clone, Copy, PartialEq, Eq, Debug)]
pub enum Place {
    /// `<apps>/configure.ini`
    ConfigFile,
    /// `<apps>/ProductInfo.xml`
    ProductInfo,
    /// `<root>/User Data/Download`
    DownloadDir,
    /// `<root>/User Data/Download/update.exe`
    UpdateExe,
}

impl Place {
    pub open spec fn spec_segments(self) -> Seq<Seq<char>> {
        match self {
            Place::ConfigFile => seq!["configure.ini"@],
            Place::ProductInfo => seq!["ProductInfo.xml"@],
            Place::DownloadDir => seq!["User Data"@, "Download"@],
            Place::UpdateExe => seq!["User Data"@, "Download"@, "update.exe"@],
        }
    }

    /// Whether the place lies under the apps directory (else under the install root).
    pub fn in_apps_dir(&self) -> (r: bool)
        ensures
            r == (*self is ConfigFile || *self is ProductInfo),
    {
        match self {
            Place::ConfigFile | Place::ProductInfo => true,
            _ => false,
        }
    }

    /// The path components below its directory.
    pub fn segments(&self) -> (r: Vec<String>)
        ensures
            r.deep_view() == self.spec_segments(),
    {
        let mut r: Vec<String> = Vec::new();
        match self {
            Place::ConfigFile => {
                r.push(String::from_str("configure.ini"));
            },
            Place::ProductInfo => {
                r.push(String::from_str("ProductInfo.xml"));
            },
            Place::DownloadDir => {
                r.push(String::from_str("User Data"));
                r.push(String::from_str("Download"));
            },
            Place::UpdateExe => {
                r.push(String::from_str("User Data"));
                r.push(String::from_str("Download"));
                r.push(String::from_str("update.exe"));
            },
        }
        proof {
            assert(r.deep_view() =~= self.spec_segments());
        }
        r
    }
}

/// The process names under which the protected application runs.
pub open spec fn is_target_name(n: Seq<char>) -> bool {
    n == "CapCut"@ || n == "CapCut.exe"@
}

pub open spec fn target_running(names: Seq<Seq<char>>) -> bool {
    exists|i: int| 0 <= i < names.len() && is_target_name(#[trigger] names[i])
}

/// Whether a running process carries one of the application's names, matched
/// exactly and case-sensitively.
pub fn is_target_running(names: &Vec<String>) -> (r: bool)
    ensures
        r == target_running(names.deep_view()),
{
    let plain = String::from_str("CapCut");
    let suffixed = String::from_str("CapCut.exe");
    let mut i: usize = 0;
    while i < names.len()
        invariant
            i <= names.len(),
            plain@ == "CapCut"@,
            suffixed@ == "CapCut.exe"@,
            forall|t: int| 0 <= t < i ==> !is_target_name(#[trigger] names.deep_view()[t]),
        decreases names.len() - i,
    {
        proof {
            assert(names.deep_view()[i as int] == names@[i as int]@);
        }
        if names[i] == plain || names[i] == suffixed {
            return true;
        }
        i = i + 1;
    }
    false
}


pub open spec fn msg_checking() -> Seq<char> {
    "Checking system state..."@
}

pub open spec fn msg_not_running() -> Seq<char> {
    "[OK] No running instances"@
}

pub open spec fn err_running() -> Seq<char> {
    "CapCut is still running. Please close it."@
}

pub open spec fn err_no_location() -> Seq<char> {
    "Failed to get LOCALAPPDATA"@
}

pub open spec fn msg_deleting(name: Seq<char>) -> Seq<char> {
    "Deleting: "@ + name
}

pub open spec fn err_delete(name: Seq<char>, cause: Seq<char>) -> Seq<char> {
    "Failed to delete "@ + name + ": "@ + cause
}

pub open spec fn msg_nothing_deleted() -> Seq<char> {
    "[OK] No versions to delete"@
}

pub open spec fn msg_deleted(n: nat) -> Seq<char> {
    "[OK] Deleted "@ + decimal(n) + " version(s)"@
}

pub open spec fn msg_cleaning_cache() -> Seq<char> {
    "Cleaning cache directories..."@
}

pub open spec fn msg_skip_cache() -> Seq<char> {
    "Skipping cache cleaning (disabled)"@
}

pub open spec fn msg_modifying_config() -> Seq<char> {
    "Modifying config..."@
}

pub open spec fn msg_config_locked() -> Seq<char> {
    "[OK] Configuration locked"@
}

pub open spec fn msg_skip_config() -> Seq<char> {
    "Skipping config lock (disabled)"@
}

pub open spec fn msg_creating_blockers() -> Seq<char> {
    "Creating blockers..."@
}

pub open spec fn msg_blockers_created() -> Seq<char> {
    "[OK] Update blockers created"@
}

pub open spec fn msg_skip_blockers() -> Seq<char> {
    "Skipping blocker creation (disabled)"@
}

pub open spec fn msg_skip_protection() -> Seq<char> {
    "Skipping protection (all options disabled)"@
}

/// Which part of the sequence a run covers.
#[derive(Clone, Copy, PartialEq, Eq, Debug)]
pub enum Scope {
    /// Process check, removals, cache, configuration lock and blockers.
    Full,
    /// The removals alone.
    Removal,
    /// The configuration lock and the blockers alone.
    Lock,
}

/// The action a run waits on.
#[derive(Clone, Copy, PartialEq, Eq, Debug)]
pub enum Pending {
    CheckProcess,
    Delete(usize),
    CleanCache,
    ReadConfig,
    WriteConfig,
    ProductInfo,
    DownloadDir,
    UpdateExe,
    Done,
}

/// What the caller is asked to do next.
pub enum Action {
    /// List the names of the running processes: answer `Event::Processes`.
    ListProcesses,
    /// Clear read-only attributes under the directory (best effort), then remove
    /// it with its contents: answer `Event::Outcome`.
    DeleteVersion(String),
    /// Clean the cache directories: answer `Event::CacheLogs`.
    CleanCache,
    /// Read the configuration file, empty when absent or unreadable: answer
    /// `Event::ConfigText`.
    ReadConfig,
    /// Overwrite the configuration file with the text: answer `Event::Outcome`.
    WriteConfig(String),
    /// Replace the place by an empty read-only file: answer `Event::Outcome`.
    InstallPlaceholder(Place),
    /// Create the directory and its missing parents: answer `Event::Outcome`.
    CreateDirs(Place),
    /// The run is over: take its result.
    Stop,
}

/// What came of the last action.
pub enum Event {
    Processes(Vec<String>),
    Outcome(Result<(), String>),
    CacheLogs(Vec<String>),
    ConfigText(String),
}

/// The state of a run, as plain values.
pub struct RunView {
    pub scope: Scope,
    pub paths: Seq<Seq<char>>,
    pub clean_cache: bool,
    pub lock_config: bool,
    pub create_blockers: bool,
    pub located: bool,
    pub pending: Pending,
    pub config_text: Seq<char>,
    pub logs: Seq<Seq<char>>,
    pub error: Option<Seq<char>>,
}

/// Position of a stage in the sequence; both ends of a run share the last.
pub open spec fn stage_rank(s: Stage) -> nat {
    match s {
        Stage::CheckingProcess => 0,
        Stage::CleaningVersions => 1,
        Stage::LockingConfig => 2,
        Stage::CreatingBlockers => 3,
        Stage::Complete => 4,
        Stage::Failed => 4,
    }
}

impl RunView {
    /// A pending removal points into the paths, and only a run that is over
    /// carries an error.
    pub open spec fn wf(self) -> bool {
        &&& (self.pending matches Pending::Delete(i) ==> i < self.paths.len())
        &&& (self.error is Some ==> self.pending is Done)
    }

    pub open spec fn stage(self) -> Stage {
        match self.pending {
            Pending::CheckProcess => Stage::CheckingProcess,
            Pending::Delete(_) | Pending::CleanCache => Stage::CleaningVersions,
            Pending::ReadConfig | Pending::WriteConfig => Stage::LockingConfig,
            Pending::ProductInfo | Pending::DownloadDir | Pending::UpdateExe => Stage::CreatingBlockers,
            Pending::Done => if self.error is Some {
                Stage::Failed
            } else {
                Stage::Complete
            },
        }
    }
}

pub open spec fn logged(v: RunView, m: Seq<char>) -> RunView {
    RunView { logs: v.logs.push(m), ..v }
}

pub open spec fn waiting(v: RunView, p: Pending) -> RunView {
    RunView { pending: p, ..v }
}

pub open spec fn failed(v: RunView, e: Seq<char>) -> RunView {
    RunView { pending: Pending::Done, error: Some(e), ..v }
}

pub open spec fn finished(v: RunView) -> RunView {
    RunView { pending: Pending::Done, ..v }
}

pub open spec fn enter_blockers(v: RunView) -> RunView {
    if v.create_blockers {
        waiting(logged(v, msg_creating_blockers()), Pending::ProductInfo)
    } else {
        finished(logged(v, msg_skip_blockers()))
    }
}

pub open spec fn enter_config(v: RunView) -> RunView {
    if v.lock_config {
        waiting(logged(v, msg_modifying_config()), Pending::ReadConfig)
    } else {
        enter_blockers(logged(v, msg_skip_config()))
    }
}

pub open spec fn enter_protection(v: RunView) -> RunView {
    if v.lock_config || v.create_blockers {
        enter_config(v)
    } else {
        finished(logged(v, msg_skip_protection()))
    }
}

pub open spec fn enter_cache(v: RunView) -> RunView {
    if v.clean_cache {
        waiting(logged(v, msg_cleaning_cache()), Pending::CleanCache)
    } else {
        enter_protection(logged(v, msg_skip_cache()))
    }
}

pub open spec fn after_deletions(v: RunView) -> RunView {
    let w = logged(
        v,
        if v.paths.len() == 0 {
            msg_nothing_deleted()
        } else {
            msg_deleted(v.paths.len())
        },
    );
    if v.scope is Removal {
        finished(w)
    } else {
        enter_cache(w)
    }
}

pub open spec fn enter_delete(v: RunView, i: nat) -> RunView {
    if i < v.paths.len() {
        waiting(logged(v, msg_deleting(base_name(v.paths[i as int]))), Pending::Delete(i as usize))
    } else {
        after_deletions(v)
    }
}

/// A run before its first step; `located` tells whether the install
/// directories could be located.
pub open spec fn fresh(
    scope: Scope,
    paths: Seq<Seq<char>>,
    clean_cache: bool,
    lock_config: bool,
    create_blockers: bool,
    located: bool,
) -> RunView {
    RunView {
        scope,
        paths,
        clean_cache,
        lock_config,
        create_blockers,
        located,
        pending: Pending::Done,
        config_text: Seq::<char>::empty(),
        logs: Seq::<Seq<char>>::empty(),
        error: None,
    }
}

/// The first step of a run. A full run always opens with the process check; a
/// run of the lock alone fails at once when the install directories could not
/// be located.
pub open spec fn begin(v: RunView) -> RunView {
    match v.scope {
        Scope::Full => waiting(logged(v, msg_checking()), Pending::CheckProcess),
        Scope::Removal => enter_delete(v, 0),
        Scope::Lock => if !v.located {
            failed(v, err_no_location())
        } else {
            enter_config(v)
        },
    }
}

/// The step that an event brings about. An event that does not answer the
/// pending action, or one that comes after the run is over, changes nothing.
pub open spec fn next(v: RunView, e: Event) -> RunView {
    match v.pending {
        Pending::CheckProcess => match e {
            Event::Processes(names) => if target_running(names.deep_view()) {
                failed(v, err_running())
            } else if !v.located && (v.lock_config || v.create_blockers) {
                failed(logged(v, msg_not_running()), err_no_location())
            } else {
                enter_delete(logged(v, msg_not_running()), 0)
            },
            _ => v,
        },
        Pending::Delete(i) => match e {
            Event::Outcome(Ok(())) => enter_delete(v, (i + 1) as nat),
            Event::Outcome(Err(cause)) => failed(
                v,
                err_delete(base_name(v.paths[i as int]), cause@),
            ),
            _ => v,
        },
        Pending::CleanCache => match e {
            Event::CacheLogs(ls) => enter_protection(RunView { logs: v.logs + ls.deep_view(), ..v }),
            _ => v,
        },
        Pending::ReadConfig => match e {
            Event::ConfigText(t) => RunView {
                pending: Pending::WriteConfig,
                config_text: rewritten_config(t@),
                ..v
            },
            _ => v,
        },
        Pending::WriteConfig => match e {
            Event::Outcome(Ok(())) => enter_blockers(logged(v, msg_config_locked())),
            Event::Outcome(Err(cause)) => failed(v, cause@),
            _ => v,
        },
        Pending::ProductInfo => match e {
            Event::Outcome(Ok(())) => waiting(v, Pending::DownloadDir),
            Event::Outcome(Err(cause)) => failed(v, cause@),
            _ => v,
        },
        Pending::DownloadDir => match e {
            Event::Outcome(Ok(())) => waiting(v, Pending::UpdateExe),
            Event::Outcome(Err(cause)) => failed(v, cause@),
            _ => v,
        },
        Pending::UpdateExe => match e {
            Event::Outcome(Ok(())) => finished(logged(v, msg_blockers_created())),
            Event::Outcome(Err(cause)) => failed(v, cause@),
            _ => v,
        },
        Pending::Done => v,
    }
}

/// The action that answers to the pending step.
pub open spec fn asks(v: RunView, a: Action) -> bool {
    match v.pending {
        Pending::CheckProcess => a is ListProcesses,
        Pending::Delete(i) => a matches Action::DeleteVersion(p) && p@ == v.paths[i as int],
        Pending::CleanCache => a is CleanCache,
        Pending::ReadConfig => a is ReadConfig,
        Pending::WriteConfig => a matches Action::WriteConfig(t) && t@ == v.config_text,
        Pending::ProductInfo => a matches Action::InstallPlaceholder(p) && p == Place::ProductInfo,
        Pending::DownloadDir => a matches Action::CreateDirs(p) && p == Place::DownloadDir,
        Pending::UpdateExe => a matches Action::InstallPlaceholder(p) && p == Place::UpdateExe,
        Pending::Done => a is Stop,
    }
}


/// A protection run in progress.
pub struct ProtectionRun {
    scope: Scope,
    paths: Vec<String>,
    clean_cache: bool,
    lock_config: bool,
    create_blockers: bool,
    located: bool,
    pending: Pending,
    config_text: String,
    logs: Vec<String>,
    error: Option<String>,
}

pub open spec fn opt_view(o: Option<String>) -> Option<Seq<char>> {
    match o {
        Some(s) => Some(s@),
        None => None,
    }
}

impl View for ProtectionRun {
    type V = RunView;

    closed spec fn view(&self) -> RunView {
        RunView {
            scope: self.scope,
            paths: self.paths.deep_view(),
            clean_cache: self.clean_cache,
            lock_config: self.lock_config,
            create_blockers: self.create_blockers,
            located: self.located,
            pending: self.pending,
            config_text: self.config_text@,
            logs: self.logs.deep_view(),
            error: opt_view(self.error),
        }
    }
}

impl ProtectionRun {
    fn log(&mut self, m: String)
        ensures
            final(self)@ == logged(old(self)@, m@),
    {
        let ghost before = self.logs.deep_view();
        self.logs.push(m);
        proof {
            assert(self.logs.deep_view() =~= before.push(m@));
        }
    }

    fn fail(&mut self, e: String)
        ensures
            final(self)@ == failed(old(self)@, e@),
    {
        self.pending = Pending::Done;
        self.error = Some(e);
    }

    fn enter_blockers(&mut self)
        requires
            old(self)@.error is None,
        ensures
            final(self)@ == enter_blockers(old(self)@),
    {
        if self.create_blockers {
            self.log(String::from_str("Creating blockers..."));
            self.pending = Pending::ProductInfo;
        } else {
            self.log(String::from_str("Skipping blocker creation (disabled)"));
            self.pending = Pending::Done;
        }
    }

    fn enter_config(&mut self)
        requires
            old(self)@.error is None,
        ensures
            final(self)@ == enter_config(old(self)@),
    {
        if self.lock_config {
            self.log(String::from_str("Modifying config..."));
            self.pending = Pending::ReadConfig;
        } else {
            self.log(String::from_str("Skipping config lock (disabled)"));
            self.enter_blockers();
        }
    }

    fn enter_protection(&mut self)
        requires
            old(self)@.error is None,
        ensures
            final(self)@ == enter_protection(old(self)@),
    {
        if self.lock_config || self.create_blockers {
            self.enter_config();
        } else {
            self.log(String::from_str("Skipping protection (all options disabled)"));
            self.pending = Pending::Done;
        }
    }

    fn enter_cache(&mut self)
        requires
            old(self)@.error is None,
        ensures
            final(self)@ == enter_cache(old(self)@),
    {
        if self.clean_cache {
            self.log(String::from_str("Cleaning cache directories..."));
            self.pending = Pending::CleanCache;
        } else {
            self.log(String::from_str("Skipping cache cleaning (disabled)"));
            self.enter_protection();
        }
    }

    fn after_deletions(&mut self)
        requires
            old(self)@.error is None,
        ensures
            final(self)@ == after_deletions(old(self)@),
    {
        if self.paths.len() == 0 {
            self.log(String::from_str("[OK] No versions to delete"));
        } else {
            let mut m = String::from_str("[OK] Deleted ");
            let count = decimal_string(self.paths.len());
            m.append(count.as_str());
            m.append(" version(s)");
            self.log(m);
        }
        match self.scope {
            Scope::Removal => {
                self.pending = Pending::Done;
            },
            _ => {
                self.enter_cache();
            },
        }
    }

    fn enter_delete(&mut self, i: usize)
        requires
            old(self)@.error is None,
            i <= old(self)@.paths.len(),
        ensures
            final(self)@ == enter_delete(old(self)@, i as nat),
    {
        if i < self.paths.len() {
            proof {
                assert(self.paths.deep_view()[i as int] == self.paths@[i as int]@);
            }
            let mut m = String::from_str("Deleting: ");
            let name = base_name_of(self.paths[i].as_str());
            m.append(name.as_str());
            self.log(m);
            self.pending = Pending::Delete(i);
        } else {
            self.after_deletions();
        }
    }
}


impl ProtectionRun {
    fn fresh(
        scope: Scope,
        paths: Vec<String>,
        clean_cache: bool,
        lock_config: bool,
        create_blockers: bool,
        located: bool,
    ) -> (r: Self)
        ensures
            r@ == fresh(scope, paths.deep_view(), clean_cache, lock_config, create_blockers, located),
    {
        let r = ProtectionRun {
            scope,
            paths,
            clean_cache,
            lock_config,
            create_blockers,
            located,
            pending: Pending::Done,
            config_text: String::new(),
            logs: Vec::new(),
            error: None,
        };
        proof {
            assert(r.logs.deep_view() =~= Seq::<Seq<char>>::empty());
        }
        r
    }

    fn begin(&mut self)
        requires
            old(self)@.error is None,
        ensures
            final(self)@ == begin(old(self)@),
    {
        match self.scope {
            Scope::Full => {
                self.log(String::from_str("Checking system state..."));
                self.pending = Pending::CheckProcess;
            },
            Scope::Removal => {
                self.enter_delete(0);
            },
            Scope::Lock => {
                if !self.located {
                    self.fail(String::from_str("Failed to get LOCALAPPDATA"));
                } else {
                    self.enter_config();
                }
            },
        }
    }

    /// The whole sequence: process check, removal of `params.versions_to_delete`,
    /// then the optional stages as `params` enables them. `located` tells whether
    /// the install directories could be located; without them a run that would
    /// write there fails right after the process check, before any removal.
    pub fn full(params: ProtectionParams, located: bool) -> (r: Self)
        ensures
            r@ == begin(
                fresh(
                    Scope::Full,
                    params.versions_to_delete.deep_view(),
                    params.clean_cache,
                    params.lock_config,
                    params.create_blockers,
                    located,
                ),
            ),
            r@.wf(),
    {
        let mut r = ProtectionRun::fresh(
            Scope::Full,
            params.versions_to_delete,
            params.clean_cache,
            params.lock_config,
            params.create_blockers,
            located,
        );
        r.begin();
        r
    }

    /// The removal of the directories at `paths` alone.
    pub fn removal(paths: Vec<String>) -> (r: Self)
        ensures
            r@ == begin(fresh(Scope::Removal, paths.deep_view(), false, false, false, true)),
            r@.wf(),
    {
        let mut r = ProtectionRun::fresh(Scope::Removal, paths, false, false, false, true);
        r.begin();
        r
    }

    /// The configuration lock and the blockers alone, each as enabled; without
    /// the install directories it fails at once.
    pub fn lock(lock_config: bool, create_blockers: bool, located: bool) -> (r: Self)
        ensures
            r@ == begin(
                fresh(
                    Scope::Lock,
                    Seq::<Seq<char>>::empty(),
                    false,
                    lock_config,
                    create_blockers,
                    located,
                ),
            ),
            r@.wf(),
    {
        let none: Vec<String> = Vec::new();
        proof {
            assert(none.deep_view() =~= Seq::<Seq<char>>::empty());
        }
        let mut r = ProtectionRun::fresh(
            Scope::Lock,
            none,
            false,
            lock_config,
            create_blockers,
            located,
        );
        r.begin();
        r
    }

    /// What the caller is asked to do next.
    pub fn action(&self) -> (r: Action)
        requires
            self@.wf(),
        ensures
            asks(self@, r),
    {
        match self.pending {
            Pending::CheckProcess => Action::ListProcesses,
            Pending::Delete(i) => {
                proof {
                    assert(self.paths.deep_view()[i as int] == self.paths@[i as int]@);
                }
                Action::DeleteVersion(self.paths[i].clone())
            },
            Pending::CleanCache => Action::CleanCache,
            Pending::ReadConfig => Action::ReadConfig,
            Pending::WriteConfig => Action::WriteConfig(self.config_text.clone()),
            Pending::ProductInfo => Action::InstallPlaceholder(Place::ProductInfo),
            Pending::DownloadDir => Action::CreateDirs(Place::DownloadDir),
            Pending::UpdateExe => Action::InstallPlaceholder(Place::UpdateExe),
            Pending::Done => Action::Stop,
        }
    }

    /// Takes in what came of the pending action.
    pub fn advance(&mut self, e: Event)
        requires
            old(self)@.wf(),
        ensures
            final(self)@ == next(old(self)@, e),
            final(self)@.wf(),
    {
        match self.pending {
            Pending::CheckProcess => match e {
                Event::Processes(names) => {
                    if is_target_running(&names) {
                        self.fail(String::from_str("CapCut is still running. Please close it."));
                    } else {
                        self.log(String::from_str("[OK] No running instances"));
                        if !self.located && (self.lock_config || self.create_blockers) {
                            self.fail(String::from_str("Failed to get LOCALAPPDATA"));
                        } else {
                            self.enter_delete(0);
                        }
                    }
                },
                _ => {},
            },
            Pending::Delete(i) => match e {
                Event::Outcome(Ok(())) => {
                    proof {
                        assert(self.paths.deep_view().len() == self.paths.len());
                    }
                    self.enter_delete(i + 1);
                },
                Event::Outcome(Err(cause)) => {
                    proof {
                        assert(self.paths.deep_view()[i as int] == self.paths@[i as int]@);
                    }
                    let mut m = String::from_str("Failed to delete ");
                    let name = base_name_of(self.paths[i].as_str());
                    m.append(name.as_str());
                    m.append(": ");
                    m.append(cause.as_str());
                    self.fail(m);
                },
                _ => {},
            },
            Pending::CleanCache => match e {
                Event::CacheLogs(ls) => {
                    let ghost before = self.logs.deep_view();
                    let mut ls = ls;
                    let ghost added = ls.deep_view();
                    self.logs.append(&mut ls);
                    proof {
                        assert(self.logs.deep_view() =~= before + added);
                    }
                    self.enter_protection();
                },
                _ => {},
            },
            Pending::ReadConfig => match e {
                Event::ConfigText(t) => {
                    self.config_text = rewrite_config(t.as_str());
                    self.pending = Pending::WriteConfig;
                },
                _ => {},
            },
            Pending::WriteConfig => match e {
                Event::Outcome(Ok(())) => {
                    self.log(String::from_str("[OK] Configuration locked"));
                    self.enter_blockers();
                },
                Event::Outcome(Err(cause)) => {
                    self.fail(cause);
                },
                _ => {},
            },
            Pending::ProductInfo => match e {
                Event::Outcome(Ok(())) => {
                    self.pending = Pending::DownloadDir;
                },
                Event::Outcome(Err(cause)) => {
                    self.fail(cause);
                },
                _ => {},
            },
            Pending::DownloadDir => match e {
                Event::Outcome(Ok(())) => {
                    self.pending = Pending::UpdateExe;
                },
                Event::Outcome(Err(cause)) => {
                    self.fail(cause);
                },
                _ => {},
            },
            Pending::UpdateExe => match e {
                Event::Outcome(Ok(())) => {
                    self.log(String::from_str("[OK] Update blockers created"));
                    self.pending = Pending::Done;
                },
                Event::Outcome(Err(cause)) => {
                    self.fail(cause);
                },
                _ => {},
            },
            Pending::Done => {},
        }
    }

    /// The stage the run is in.
    pub fn stage(&self) -> (r: Stage)
        ensures
            r == self@.stage(),
    {
        match self.pending {
            Pending::CheckProcess => Stage::CheckingProcess,
            Pending::Delete(_) | Pending::CleanCache => Stage::CleaningVersions,
            Pending::ReadConfig | Pending::WriteConfig => Stage::LockingConfig,
            Pending::ProductInfo | Pending::DownloadDir | Pending::UpdateExe => Stage::CreatingBlockers,
            Pending::Done => if self.error.is_some() {
                Stage::Failed
            } else {
                Stage::Complete
            },
        }
    }

    /// The log so far, oldest entry first.
    pub fn logs(&self) -> (r: &Vec<String>)
        ensures
            r.deep_view() == self@.logs,
    {
        &self.logs
    }

    /// The result of a run that is over.
    pub fn into_result(self) -> (r: ProtectionResult)
        requires
            self@.pending is Done,
        ensures
            r.success == (self@.error is None),
            opt_view(r.error) == self@.error,
            r.logs.deep_view() == self@.logs,
    {
        let success = self.error.is_none();
        ProtectionResult { success, error: self.error, logs: self.logs }
    }
}


/// When the process check finds the application running, a full run stops
/// there as failed with the fixed message; its log holds the check's opening
/// entry alone, and from then on it asks for no action but to stop, so it
/// touches nothing on disk.
pub proof fn lemma_running_application_halts(
    paths: Seq<Seq<char>>,
    clean_cache: bool,
    lock_config: bool,
    create_blockers: bool,
    located: bool,
    names: Vec<String>,
    a: Action,
)
    requires
        target_running(names.deep_view()),
    ensures
        ({
            let start = begin(
                fresh(Scope::Full, paths, clean_cache, lock_config, create_blockers, located),
            );
            let v = next(start, Event::Processes(names));
            &&& start.pending is CheckProcess
            &&& v.stage() == Stage::Failed
            &&& v.error == Some(err_running())
            &&& v.logs == seq![msg_checking()]
            &&& (asks(v, a) <==> a is Stop)
        }),
{
    lemma_full_run_opens_with_check(paths, clean_cache, lock_config, create_blockers, located);
}

/// Every full run, whatever its parameters and whether or not the install
/// directories were located, opens with the process check: its log starts
/// with that check's entry and its first action is to list the processes.
/// As the log only grows, every later log of the run starts with that entry.
pub proof fn lemma_full_run_opens_with_check(
    paths: Seq<Seq<char>>,
    clean_cache: bool,
    lock_config: bool,
    create_blockers: bool,
    located: bool,
)
    ensures
        ({
            let start = begin(
                fresh(Scope::Full, paths, clean_cache, lock_config, create_blockers, located),
            );
            &&& start.pending is CheckProcess
            &&& start.error is None
            &&& start.logs == seq![msg_checking()]
        }),
{
    let start = begin(
        fresh(Scope::Full, paths, clean_cache, lock_config, create_blockers, located),
    );
    assert(start.logs =~= seq![msg_checking()]);
}

/// The configuration and blocker stages only append to the log.
proof fn lemma_lock_stages_append(v: RunView)
    ensures
        v.logs.is_prefix_of(enter_blockers(v).logs),
        v.logs.is_prefix_of(enter_config(v).logs),
        v.logs.is_prefix_of(enter_protection(v).logs),
{
    let w = logged(v, msg_skip_config());
    assert(w.logs.is_prefix_of(enter_blockers(w).logs));
}

/// The cache stage, and all that follows it, only appends to the log.
proof fn lemma_cache_stage_appends(v: RunView)
    ensures
        v.logs.is_prefix_of(enter_blockers(v).logs),
        v.logs.is_prefix_of(enter_config(v).logs),
        v.logs.is_prefix_of(enter_protection(v).logs),
        v.logs.is_prefix_of(enter_cache(v).logs),
{
    lemma_lock_stages_append(v);
    lemma_lock_stages_append(logged(v, msg_skip_cache()));
}

/// Entering any later stage only appends to the log.
proof fn lemma_enter_appends(v: RunView)
    ensures
        v.logs.is_prefix_of(enter_blockers(v).logs),
        v.logs.is_prefix_of(enter_config(v).logs),
        v.logs.is_prefix_of(enter_protection(v).logs),
        v.logs.is_prefix_of(enter_cache(v).logs),
        v.logs.is_prefix_of(after_deletions(v).logs),
        forall|i: nat| v.logs.is_prefix_of(#[trigger] enter_delete(v, i).logs),
{
    lemma_cache_stage_appends(v);
    lemma_cache_stage_appends(logged(v, msg_nothing_deleted()));
    lemma_cache_stage_appends(logged(v, msg_deleted(v.paths.len())));
}

/// A run only moves forward: every step keeps each earlier log entry in its
/// place, never returns to an earlier stage, and a run that is over stays as
/// it is.
pub proof fn lemma_run_moves_forward(v: RunView, e: Event)
    requires
        v.wf(),
    ensures
        v.logs.is_prefix_of(next(v, e).logs),
        stage_rank(v.stage()) <= stage_rank(next(v, e).stage()),
        v.pending is Done ==> next(v, e) == v,
        next(v, e).wf(),
{
    lemma_enter_appends(v);
    let w = logged(v, msg_not_running());
    lemma_enter_appends(w);
    let b = logged(v, msg_config_locked());
    lemma_enter_appends(b);
    match e {
        Event::CacheLogs(ls) => {
            let c = RunView { logs: v.logs + ls.deep_view(), ..v };
            lemma_enter_appends(c);
        },
        _ => {},
    }
}

} // verus!
