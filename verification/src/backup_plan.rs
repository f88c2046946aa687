//! The decisions of a host backup, as a machine that is told what each
//! step found and answers with the next thing to do: check the mount, make
//! the backup directory, stop the containers, save each Docker volume and
//! each bind-mounted directory, write the description, restart what ran.
use vstd::prelude::*;
use crate::maintenance::{
    backup_dir, backup_info, backup_metadata, bind_mount_archive, bind_mount_backup_command, bind_mount_command,
    last_segment, last_segment_exec,
};
use crate::text::{
    chars_of, decimal, ends_with, has_suffix, push_str, string_of_range, to_string, trim, trimmed, views,
};

verus! {

/// Where a backup stands, with the positions in the lists being worked on.
#[derive(PartialEq, Eq, Structural, Clone, Copy, Debug)]
pub enum BackupStep {
    CheckParent,
    CheckBase,
    CreateBase,
    CreateDir,
    StopContainers,
    ListVolumes,
    BackupVolume { volume: usize },
    ListContainers,
    ReadMounts { container: usize },
    CheckMount { container: usize, mount: usize },
    Archive { container: usize, mount: usize, sudo: bool },
    WriteMetadata,
    StartContainers,
    Finished,
}

/// A backup in progress.
#[derive(Debug)]
pub struct BackupState {
    pub hostname: String,
    /// The directory holding the host's backups.
    pub base: String,
    /// The directory above `base`, when it has one.
    pub parent: Option<String>,
    /// This backup's directory: `<base>/<stamp>`.
    pub dir: String,
    pub stamp: String,
    /// The date written into the description.
    pub date: String,
    pub step: BackupStep,
    /// The containers that were running and were stopped.
    pub running: Vec<String>,
    pub volumes: Vec<String>,
    pub containers: Vec<String>,
    /// The bind mounts of the container being worked on.
    pub mounts: Vec<String>,
}

/// A backup in progress as plain values.
pub struct BackupModel {
    pub hostname: Seq<char>,
    pub base: Seq<char>,
    pub parent: Option<Seq<char>>,
    pub dir: Seq<char>,
    pub stamp: Seq<char>,
    pub date: Seq<char>,
    pub step: BackupStep,
    pub running: Seq<Seq<char>>,
    pub volumes: Seq<Seq<char>>,
    pub containers: Seq<Seq<char>>,
    pub mounts: Seq<Seq<char>>,
}

impl View for BackupState {
    type V = BackupModel;

    open spec fn view(&self) -> BackupModel {
        BackupModel {
            hostname: self.hostname@,
            base: self.base@,
            parent: crate::config::opt_view(self.parent),
            dir: self.dir@,
            stamp: self.stamp@,
            date: self.date@,
            step: self.step,
            running: views(self.running@),
            volumes: views(self.volumes@),
            containers: views(self.containers@),
            mounts: views(self.mounts@),
        }
    }
}

/// What the last action found: a yes or no (a directory exists, a command
/// succeeded; also the plain completion of an action), or a list of names.
#[derive(Debug)]
pub enum BackupEvent {
    Answer(bool),
    Names(Vec<String>),
}

/// A finding as plain values.
pub enum EventModel {
    Answer(bool),
    Names(Seq<Seq<char>>),
}

impl View for BackupEvent {
    type V = EventModel;

    open spec fn view(&self) -> EventModel {
        match self {
            BackupEvent::Answer(b) => EventModel::Answer(*b),
            BackupEvent::Names(v) => EventModel::Names(views(v@)),
        }
    }
}

/// The next thing to do on the host.
#[derive(Debug)]
pub enum BackupAction {
    CheckDirectory(String),
    CreateDirectory(String),
    StopAllContainers,
    ListVolumes,
    BackupVolume { volume: String, dir: String },
    ListContainers,
    ReadBindMounts(String),
    RunShell(String),
    WriteFile { path: String, contents: String },
    StartContainers(Vec<String>),
    Fail(String),
    Finish,
}

/// An action as plain values.
pub enum ActionModel {
    CheckDirectory(Seq<char>),
    CreateDirectory(Seq<char>),
    StopAllContainers,
    ListVolumes,
    BackupVolume { volume: Seq<char>, dir: Seq<char> },
    ListContainers,
    ReadBindMounts(Seq<char>),
    RunShell(Seq<char>),
    WriteFile { path: Seq<char>, contents: Seq<char> },
    StartContainers(Seq<Seq<char>>),
    Fail(Seq<char>),
    Finish,
}

impl View for BackupAction {
    type V = ActionModel;

    open spec fn view(&self) -> ActionModel {
        match self {
            BackupAction::CheckDirectory(p) => ActionModel::CheckDirectory(p@),
            BackupAction::CreateDirectory(p) => ActionModel::CreateDirectory(p@),
            BackupAction::StopAllContainers => ActionModel::StopAllContainers,
            BackupAction::ListVolumes => ActionModel::ListVolumes,
            BackupAction::BackupVolume { volume, dir } => ActionModel::BackupVolume { volume: volume@, dir: dir@ },
            BackupAction::ListContainers => ActionModel::ListContainers,
            BackupAction::ReadBindMounts(c) => ActionModel::ReadBindMounts(c@),
            BackupAction::RunShell(c) => ActionModel::RunShell(c@),
            BackupAction::WriteFile { path, contents } => ActionModel::WriteFile { path: path@, contents: contents@ },
            BackupAction::StartContainers(v) => ActionModel::StartContainers(views(v@)),
            BackupAction::Fail(m) => ActionModel::Fail(m@),
            BackupAction::Finish => ActionModel::Finish,
        }
    }
}

/// The positions a step refers to are within their lists.
pub open spec fn backup_wf(s: BackupModel) -> bool {
    match s.step {
        BackupStep::BackupVolume { volume } => volume < s.volumes.len(),
        BackupStep::ReadMounts { container } => container < s.containers.len(),
        BackupStep::CheckMount { container, mount } => container < s.containers.len() && mount < s.mounts.len(),
        BackupStep::Archive { container, mount, sudo } => container < s.containers.len() && mount < s.mounts.len(),
        _ => true,
    }
}

/// The refusal when the directory above the backup base is missing.
pub open spec fn parent_missing_message(parent: Seq<char>, hostname: Seq<char>) -> Seq<char> {
    "Error: Backup base directory "@ + parent + " does not exist or is not mounted\nMake sure SMB mount is set up: hal smb "@
        + hostname + " setup"@
}

/// The state at a step.
pub open spec fn at_step(s: BackupModel, step: BackupStep) -> BackupModel {
    BackupModel { step, ..s }
}

/// The description of the backup, written into its directory.
pub open spec fn metadata_write(s: BackupModel) -> ActionModel {
    ActionModel::WriteFile {
        path: s.dir + "/backup-info.txt"@,
        contents: backup_info(s.hostname, s.stamp, s.date, decimal(s.volumes.len()), s.volumes),
    }
}

/// Moving on to container `c`: read its bind mounts, or, past the last
/// container, write the description.
pub open spec fn next_container(s: BackupModel, c: int) -> (BackupModel, ActionModel) {
    if 0 <= c < s.containers.len() {
        (at_step(s, BackupStep::ReadMounts { container: c as usize }), ActionModel::ReadBindMounts(s.containers[c]))
    } else {
        (at_step(s, BackupStep::WriteMetadata), metadata_write(s))
    }
}

/// Moving on to mount `m` of container `c`: check that it is a directory,
/// or, past the last mount, go to the next container.
pub open spec fn next_mount(s: BackupModel, c: int, m: int) -> (BackupModel, ActionModel) {
    if 0 <= m < s.mounts.len() {
        (
            at_step(s, BackupStep::CheckMount { container: c as usize, mount: m as usize }),
            ActionModel::CheckDirectory(s.mounts[m]),
        )
    } else {
        next_container(s, c + 1)
    }
}

/// The command archiving mount `m` of container `c`.
pub open spec fn archive_command(s: BackupModel, c: int, m: int, sudo: bool) -> ActionModel {
    ActionModel::RunShell(
        bind_mount_command(sudo, s.mounts[m], s.dir, s.containers[c] + "_"@ + last_segment(s.mounts[m])),
    )
}

/// A backup of `hostname` into `<base>/<stamp>` before anything is done.
pub open spec fn fresh_backup(
    hostname: Seq<char>,
    base: Seq<char>,
    parent: Option<Seq<char>>,
    stamp: Seq<char>,
    date: Seq<char>,
) -> BackupModel {
    BackupModel {
        hostname,
        base,
        parent,
        dir: base + "/"@ + stamp,
        stamp,
        date,
        step: BackupStep::CheckBase,
        running: seq![],
        volumes: seq![],
        containers: seq![],
        mounts: seq![],
    }
}

/// The first step of a backup: check the directory above the base when
/// there is one, else the base itself.
pub open spec fn backup_begin(s: BackupModel) -> (BackupModel, ActionModel) {
    match s.parent {
        Some(p) => (at_step(s, BackupStep::CheckParent), ActionModel::CheckDirectory(p)),
        None => (at_step(s, BackupStep::CheckBase), ActionModel::CheckDirectory(s.base)),
    }
}

/// The next state and action after what the last action found.  A missing
/// parent directory ends the backup with an error; a missing base is
/// created; each volume is saved in turn (a failed save is only reported);
/// each bind mount that is a directory is archived, again with `sudo` when
/// the plain command fails; then the description is written and the
/// stopped containers are started again.  A finding of the wrong kind ends
/// the backup with an error.
pub open spec fn backup_next(s: BackupModel, e: EventModel) -> (BackupModel, ActionModel) {
    let unexpected = (at_step(s, BackupStep::Finished), ActionModel::Fail("unexpected reply"@));
    match e {
        EventModel::Answer(yes) => match s.step {
            BackupStep::CheckParent => if yes {
                (at_step(s, BackupStep::CheckBase), ActionModel::CheckDirectory(s.base))
            } else {
                (
                    at_step(s, BackupStep::Finished),
                    ActionModel::Fail(
                        parent_missing_message(
                            match s.parent {
                                Some(p) => p,
                                None => s.base,
                            },
                            s.hostname,
                        ),
                    ),
                )
            },
            BackupStep::CheckBase => if yes {
                (at_step(s, BackupStep::CreateDir), ActionModel::CreateDirectory(s.dir))
            } else {
                (at_step(s, BackupStep::CreateBase), ActionModel::CreateDirectory(s.base))
            },
            BackupStep::CreateBase => (at_step(s, BackupStep::CreateDir), ActionModel::CreateDirectory(s.dir)),
            BackupStep::CreateDir => (at_step(s, BackupStep::StopContainers), ActionModel::StopAllContainers),
            BackupStep::BackupVolume { volume } => if volume + 1 < s.volumes.len() {
                (
                    at_step(s, BackupStep::BackupVolume { volume: (volume + 1) as usize }),
                    ActionModel::BackupVolume { volume: s.volumes[volume + 1], dir: s.dir },
                )
            } else {
                (at_step(s, BackupStep::ListContainers), ActionModel::ListContainers)
            },
            BackupStep::CheckMount { container, mount } => if yes {
                (
                    at_step(s, BackupStep::Archive { container, mount, sudo: false }),
                    archive_command(s, container as int, mount as int, false),
                )
            } else {
                next_mount(s, container as int, mount + 1)
            },
            BackupStep::Archive { container, mount, sudo } => if !yes && !sudo {
                (
                    at_step(s, BackupStep::Archive { container, mount, sudo: true }),
                    archive_command(s, container as int, mount as int, true),
                )
            } else {
                next_mount(s, container as int, mount + 1)
            },
            BackupStep::WriteMetadata => if s.running.len() > 0 {
                (at_step(s, BackupStep::StartContainers), ActionModel::StartContainers(s.running))
            } else {
                (at_step(s, BackupStep::Finished), ActionModel::Finish)
            },
            BackupStep::StartContainers => (at_step(s, BackupStep::Finished), ActionModel::Finish),
            BackupStep::Finished => (s, ActionModel::Finish),
            _ => unexpected,
        },
        EventModel::Names(names) => match s.step {
            BackupStep::StopContainers => (
                BackupModel { step: BackupStep::ListVolumes, running: names, ..s },
                ActionModel::ListVolumes,
            ),
            BackupStep::ListVolumes => if names.len() > 0 {
                (
                    BackupModel { step: BackupStep::BackupVolume { volume: 0 }, volumes: names, ..s },
                    ActionModel::BackupVolume { volume: names[0], dir: s.dir },
                )
            } else {
                (BackupModel { step: BackupStep::ListContainers, volumes: names, ..s }, ActionModel::ListContainers)
            },
            BackupStep::ListContainers => next_container(BackupModel { containers: names, ..s }, 0),
            BackupStep::ReadMounts { container } => next_mount(
                BackupModel { mounts: names, ..s },
                container as int,
                0,
            ),
            BackupStep::Finished => (s, ActionModel::Finish),
            _ => unexpected,
        },
    }
}


/// The containers that were stopped are remembered from the moment they are
/// stopped and never changed afterwards; once the description is written,
/// exactly those are started again (when there are any).
pub proof fn stopped_containers_restarted(s: BackupModel, e: EventModel)
    requires
        backup_wf(s),
    ensures
        s.step != BackupStep::StopContainers ==> backup_next(s, e).0.running == s.running,
        s.step == BackupStep::WriteMetadata && s.running.len() > 0 && e is Answer ==> backup_next(s, e).1
            == ActionModel::StartContainers(s.running),
{
}

/// Every step keeps the positions it refers to within their lists.
pub proof fn backup_steps_stay_well_formed(s: BackupModel, e: EventModel)
    requires
        backup_wf(s),
    ensures
        backup_wf(backup_next(s, e).0),
{
}

// ---------------------------------------------------------------------------
// The machine
// ---------------------------------------------------------------------------

fn with_step(s: BackupState, step: BackupStep) -> (r: BackupState)
    ensures
        r@ == at_step(s@, step),
{
    BackupState { step, ..s }
}

fn go_next_container(s: BackupState, c: usize) -> (r: (BackupState, BackupAction))
    requires
        c <= s.containers@.len(),
    ensures
        (r.0@, r.1@) == next_container(s@, c as int),
        backup_wf(r.0@),
{
    if c < s.containers.len() {
        let name = to_string(s.containers[c].as_str());
        (with_step(s, BackupStep::ReadMounts { container: c }), BackupAction::ReadBindMounts(name))
    } else {
        let contents = backup_metadata(s.hostname.as_str(), s.stamp.as_str(), s.date.as_str(), &s.volumes);
        let mut path = to_string(s.dir.as_str());
        push_str(&mut path, "/backup-info.txt");
        (with_step(s, BackupStep::WriteMetadata), BackupAction::WriteFile { path, contents })
    }
}

fn go_next_mount(s: BackupState, c: usize, m: usize) -> (r: (BackupState, BackupAction))
    requires
        c < s.containers@.len(),
        m <= s.mounts@.len(),
    ensures
        (r.0@, r.1@) == next_mount(s@, c as int, m as int),
        backup_wf(r.0@),
{
    if m < s.mounts.len() {
        let path = to_string(s.mounts[m].as_str());
        (with_step(s, BackupStep::CheckMount { container: c, mount: m }), BackupAction::CheckDirectory(path))
    } else {
        let n = s.containers.len();
        assert(c < n);
        go_next_container(s, c + 1)
    }
}

fn archive(s: &BackupState, c: usize, m: usize, sudo: bool) -> (r: BackupAction)
    requires
        c < s.containers@.len(),
        m < s.mounts@.len(),
    ensures
        r@ == archive_command(s@, c as int, m as int, sudo),
{
    let name = bind_mount_archive(s.containers[c].as_str(), s.mounts[m].as_str());
    BackupAction::RunShell(bind_mount_backup_command(sudo, s.mounts[m].as_str(), s.dir.as_str(), name.as_str()))
}

/// Starts a backup of `hostname` into `<base>/<stamp>`; `parent` is the
/// directory above `base`, if it has one, and `date` goes into the
/// description.
pub fn backup_start(hostname: &str, base: &str, parent: Option<&str>, stamp: &str, date: &str) -> (r: (
    BackupState,
    BackupAction,
))
    ensures
        (r.0@, r.1@) == backup_begin(
            fresh_backup(
                hostname@,
                base@,
                match parent {
                    Some(p) => Some(p@),
                    None => None,
                },
                stamp@,
                date@,
            ),
        ),
        backup_wf(r.0@),
{
    let first = match parent {
        Some(p) => BackupAction::CheckDirectory(to_string(p)),
        None => BackupAction::CheckDirectory(to_string(base)),
    };
    let step = match parent {
        Some(_) => BackupStep::CheckParent,
        None => BackupStep::CheckBase,
    };
    let s = BackupState {
        hostname: to_string(hostname),
        base: to_string(base),
        parent: match parent {
            Some(p) => Some(to_string(p)),
            None => None,
        },
        dir: backup_dir(base, stamp),
        stamp: to_string(stamp),
        date: to_string(date),
        step,
        running: Vec::new(),
        volumes: Vec::new(),
        containers: Vec::new(),
        mounts: Vec::new(),
    };
    assert(views(s.running@) =~= Seq::<Seq<char>>::empty());
    assert(views(s.volumes@) =~= Seq::<Seq<char>>::empty());
    assert(views(s.containers@) =~= Seq::<Seq<char>>::empty());
    assert(views(s.mounts@) =~= Seq::<Seq<char>>::empty());
    (s, first)
}

/// The next state and action of a backup after what the last action found
/// (see `backup_next`).
pub fn backup_step(s: BackupState, e: BackupEvent) -> (r: (BackupState, BackupAction))
    requires
        backup_wf(s@),
    ensures
        (r.0@, r.1@) == backup_next(s@, e@),
        backup_wf(r.0@),
{
    let nv = s.volumes.len();
    let nc = s.containers.len();
    let nm = s.mounts.len();
    assert(views(s.volumes@).len() == nv && views(s.containers@).len() == nc && views(s.mounts@).len() == nm);
    match e {
        BackupEvent::Answer(yes) => match s.step {
            BackupStep::CheckParent => if yes {
                let base = to_string(s.base.as_str());
                (with_step(s, BackupStep::CheckBase), BackupAction::CheckDirectory(base))
            } else {
                let mut m = to_string("Error: Backup base directory ");
                match &s.parent {
                    Some(p) => push_str(&mut m, p.as_str()),
                    None => push_str(&mut m, s.base.as_str()),
                }
                push_str(&mut m, " does not exist or is not mounted\nMake sure SMB mount is set up: hal smb ");
                push_str(&mut m, s.hostname.as_str());
                push_str(&mut m, " setup");
                (with_step(s, BackupStep::Finished), BackupAction::Fail(m))
            },
            BackupStep::CheckBase => if yes {
                let dir = to_string(s.dir.as_str());
                (with_step(s, BackupStep::CreateDir), BackupAction::CreateDirectory(dir))
            } else {
                let base = to_string(s.base.as_str());
                (with_step(s, BackupStep::CreateBase), BackupAction::CreateDirectory(base))
            },
            BackupStep::CreateBase => {
                let dir = to_string(s.dir.as_str());
                (with_step(s, BackupStep::CreateDir), BackupAction::CreateDirectory(dir))
            },
            BackupStep::CreateDir => (with_step(s, BackupStep::StopContainers), BackupAction::StopAllContainers),
            BackupStep::BackupVolume { volume } => if volume + 1 < s.volumes.len() {
                let v = to_string(s.volumes[volume + 1].as_str());
                let dir = to_string(s.dir.as_str());
                (
                    with_step(s, BackupStep::BackupVolume { volume: volume + 1 }),
                    BackupAction::BackupVolume { volume: v, dir },
                )
            } else {
                (with_step(s, BackupStep::ListContainers), BackupAction::ListContainers)
            },
            BackupStep::CheckMount { container, mount } => if yes {
                let a = archive(&s, container, mount, false);
                (with_step(s, BackupStep::Archive { container, mount, sudo: false }), a)
            } else {
                go_next_mount(s, container, mount + 1)
            },
            BackupStep::Archive { container, mount, sudo } => if !yes && !sudo {
                let a = archive(&s, container, mount, true);
                (with_step(s, BackupStep::Archive { container, mount, sudo: true }), a)
            } else {
                go_next_mount(s, container, mount + 1)
            },
            BackupStep::WriteMetadata => if s.running.len() > 0 {
                let mut running: Vec<String> = Vec::new();
                let mut i: usize = 0;
                while i < s.running.len()
                    invariant
                        i <= s.running@.len(),
                        views(running@) == views(s.running@).take(i as int),
                    decreases s.running@.len() - i,
                {
                    let ghost before = running@;
                    running.push(to_string(s.running[i].as_str()));
                    assert(views(running@) =~= views(before).push(s.running@[i as int]@));
                    assert(views(s.running@).take(i + 1) =~= views(s.running@).take(i as int).push(
                        s.running@[i as int]@,
                    ));
                    i = i + 1;
                }
                assert(views(s.running@).take(i as int) =~= views(s.running@));
                (with_step(s, BackupStep::StartContainers), BackupAction::StartContainers(running))
            } else {
                (with_step(s, BackupStep::Finished), BackupAction::Finish)
            },
            BackupStep::StartContainers => (with_step(s, BackupStep::Finished), BackupAction::Finish),
            BackupStep::Finished => (s, BackupAction::Finish),
            _ => (with_step(s, BackupStep::Finished), BackupAction::Fail(to_string("unexpected reply"))),
        },
        BackupEvent::Names(names) => match s.step {
            BackupStep::StopContainers => (
                BackupState { step: BackupStep::ListVolumes, running: names, ..s },
                BackupAction::ListVolumes,
            ),
            BackupStep::ListVolumes => if names.len() > 0 {
                let v = to_string(names[0].as_str());
                let dir = to_string(s.dir.as_str());
                (
                    BackupState { step: BackupStep::BackupVolume { volume: 0 }, volumes: names, ..s },
                    BackupAction::BackupVolume { volume: v, dir },
                )
            } else {
                (BackupState { step: BackupStep::ListContainers, volumes: names, ..s }, BackupAction::ListContainers)
            },
            BackupStep::ListContainers => go_next_container(BackupState { containers: names, ..s }, 0),
            BackupStep::ReadMounts { container } => go_next_mount(BackupState { mounts: names, ..s }, container, 0),
            BackupStep::Finished => (s, BackupAction::Finish),
            _ => (with_step(s, BackupStep::Finished), BackupAction::Fail(to_string("unexpected reply"))),
        },
    }
}


// ---------------------------------------------------------------------------
// Restoring a backup
// ---------------------------------------------------------------------------

/// Where a restore stands.
#[derive(PartialEq, Eq, Structural, Clone, Copy, Debug)]
pub enum RestoreStep {
    CheckParent,
    CheckBase,
    CreateBase,
    CheckBackup,
    ListAvailable,
    StopContainers,
    ListFiles,
    RestoreVolume { volume: usize },
    StartContainers,
    Finished,
}

/// A restore in progress.
#[derive(Debug)]
pub struct RestoreState {
    pub hostname: String,
    pub base: String,
    pub parent: Option<String>,
    /// The backup's directory: `<base>/<backup>`.
    pub dir: String,
    pub step: RestoreStep,
    /// The containers that were running and were stopped.
    pub running: Vec<String>,
    /// The volumes found in the backup.
    pub volumes: Vec<String>,
}

/// A restore in progress as plain values.
pub struct RestoreModel {
    pub hostname: Seq<char>,
    pub base: Seq<char>,
    pub parent: Option<Seq<char>>,
    pub dir: Seq<char>,
    pub step: RestoreStep,
    pub running: Seq<Seq<char>>,
    pub volumes: Seq<Seq<char>>,
}

impl View for RestoreState {
    type V = RestoreModel;

    open spec fn view(&self) -> RestoreModel {
        RestoreModel {
            hostname: self.hostname@,
            base: self.base@,
            parent: crate::config::opt_view(self.parent),
            dir: self.dir@,
            step: self.step,
            running: views(self.running@),
            volumes: views(self.volumes@),
        }
    }
}

/// The next thing to do on the host during a restore.
#[derive(Debug)]
pub enum RestoreAction {
    CheckDirectory(String),
    CreateDirectory(String),
    ListDirectory(String),
    StopAllContainers,
    /// List the archives (`*.tar.gz`) of the backup directory.
    ListArchives(String),
    RestoreVolume { volume: String, dir: String },
    StartContainers(Vec<String>),
    /// Print the notes, then fail with the message.
    Fail { notes: Vec<String>, message: String },
    Finish,
}

/// A restore action as plain values.
pub enum RestoreActionModel {
    CheckDirectory(Seq<char>),
    CreateDirectory(Seq<char>),
    ListDirectory(Seq<char>),
    StopAllContainers,
    ListArchives(Seq<char>),
    RestoreVolume { volume: Seq<char>, dir: Seq<char> },
    StartContainers(Seq<Seq<char>>),
    Fail { notes: Seq<Seq<char>>, message: Seq<char> },
    Finish,
}

impl View for RestoreAction {
    type V = RestoreActionModel;

    open spec fn view(&self) -> RestoreActionModel {
        match self {
            RestoreAction::CheckDirectory(p) => RestoreActionModel::CheckDirectory(p@),
            RestoreAction::CreateDirectory(p) => RestoreActionModel::CreateDirectory(p@),
            RestoreAction::ListDirectory(p) => RestoreActionModel::ListDirectory(p@),
            RestoreAction::StopAllContainers => RestoreActionModel::StopAllContainers,
            RestoreAction::ListArchives(d) => RestoreActionModel::ListArchives(d@),
            RestoreAction::RestoreVolume { volume, dir } => RestoreActionModel::RestoreVolume {
                volume: volume@,
                dir: dir@,
            },
            RestoreAction::StartContainers(v) => RestoreActionModel::StartContainers(views(v@)),
            RestoreAction::Fail { notes, message } => RestoreActionModel::Fail { notes: views(notes@), message: message@ },
            RestoreAction::Finish => RestoreActionModel::Finish,
        }
    }
}

/// The volume position of a restore is within the volumes found.
pub open spec fn restore_wf(s: RestoreModel) -> bool {
    match s.step {
        RestoreStep::RestoreVolume { volume } => volume < s.volumes.len(),
        _ => true,
    }
}

/// A name with every trailing `.tar.gz` removed.
pub open spec fn strip_archive_suffixes(s: Seq<char>) -> Seq<char>
    decreases s.len(),
{
    if has_suffix(s, ".tar.gz"@) && ".tar.gz"@.len() > 0 {
        strip_archive_suffixes(s.take(s.len() - ".tar.gz"@.len()))
    } else {
        s
    }
}

/// The volume an archive listing line names, if any: a non-blank line
/// ending in `.tar.gz`, its last `/`-segment without the `.tar.gz` endings,
/// when that is not empty.
pub open spec fn archive_volume(line: Seq<char>) -> Option<Seq<char>> {
    if trimmed(line).len() > 0 && has_suffix(line, ".tar.gz"@) {
        let v = strip_archive_suffixes(last_segment(line));
        if v.len() > 0 {
            Some(v)
        } else {
            None
        }
    } else {
        None
    }
}

/// The volumes named by the lines of an archive listing, in order.
pub open spec fn archive_volumes(lines: Seq<Seq<char>>) -> Seq<Seq<char>>
    decreases lines.len(),
{
    if lines.len() == 0 {
        seq![]
    } else {
        let rest = archive_volumes(lines.drop_last());
        match archive_volume(lines.last()) {
            Some(v) => rest.push(v),
            None => rest,
        }
    }
}

/// The state at a restore step.
pub open spec fn restore_at(s: RestoreModel, step: RestoreStep) -> RestoreModel {
    RestoreModel { step, ..s }
}

/// A restore of backup `<base>/<backup>` of `hostname` before anything is done.
pub open spec fn fresh_restore(hostname: Seq<char>, base: Seq<char>, parent: Option<Seq<char>>, backup: Seq<char>) -> RestoreModel {
    RestoreModel {
        hostname,
        base,
        parent,
        dir: base + "/"@ + backup,
        step: RestoreStep::CheckBase,
        running: seq![],
        volumes: seq![],
    }
}

/// The first step of a restore: check the directory above the base when
/// there is one, else the base itself.
pub open spec fn restore_begin(s: RestoreModel) -> (RestoreModel, RestoreActionModel) {
    match s.parent {
        Some(p) => (restore_at(s, RestoreStep::CheckParent), RestoreActionModel::CheckDirectory(p)),
        None => (restore_at(s, RestoreStep::CheckBase), RestoreActionModel::CheckDirectory(s.base)),
    }
}

/// After the containers are handled: start the stopped ones again, if any.
pub open spec fn restore_restart(s: RestoreModel) -> (RestoreModel, RestoreActionModel) {
    if s.running.len() > 0 {
        (restore_at(s, RestoreStep::StartContainers), RestoreActionModel::StartContainers(s.running))
    } else {
        (restore_at(s, RestoreStep::Finished), RestoreActionModel::Finish)
    }
}

/// The next state and action of a restore after what the last action found.
/// A missing parent directory or backup ends the restore with an error (the
/// backups that do exist listed first); a missing base is created; the
/// running containers are stopped, each volume archived in the backup is
/// restored in turn (a failed restore is only reported), and the stopped
/// containers are started again.  A finding of the wrong kind ends the
/// restore with an error.
pub open spec fn restore_next(s: RestoreModel, e: EventModel) -> (RestoreModel, RestoreActionModel) {
    let unexpected = (
        restore_at(s, RestoreStep::Finished),
        RestoreActionModel::Fail { notes: seq![], message: "unexpected reply"@ },
    );
    match e {
        EventModel::Answer(yes) => match s.step {
            RestoreStep::CheckParent => if yes {
                (restore_at(s, RestoreStep::CheckBase), RestoreActionModel::CheckDirectory(s.base))
            } else {
                (
                    restore_at(s, RestoreStep::Finished),
                    RestoreActionModel::Fail {
                        notes: seq![],
                        message: "Error: Backup base directory "@ + (match s.parent {
                            Some(p) => p,
                            None => s.base,
                        }) + " does not exist or is not mounted\nMake sure SMB mount is set up: hal smb <hostname> setup"@,
                    },
                )
            },
            RestoreStep::CheckBase => if yes {
                (restore_at(s, RestoreStep::CheckBackup), RestoreActionModel::CheckDirectory(s.dir))
            } else {
                (restore_at(s, RestoreStep::CreateBase), RestoreActionModel::CreateDirectory(s.base))
            },
            RestoreStep::CreateBase => (restore_at(s, RestoreStep::CheckBackup), RestoreActionModel::CheckDirectory(s.dir)),
            RestoreStep::CheckBackup => if yes {
                (restore_at(s, RestoreStep::StopContainers), RestoreActionModel::StopAllContainers)
            } else {
                (restore_at(s, RestoreStep::ListAvailable), RestoreActionModel::ListDirectory(s.base))
            },
            RestoreStep::RestoreVolume { volume } => if volume + 1 < s.volumes.len() {
                (
                    restore_at(s, RestoreStep::RestoreVolume { volume: (volume + 1) as usize }),
                    RestoreActionModel::RestoreVolume { volume: s.volumes[volume + 1], dir: s.dir },
                )
            } else {
                restore_restart(s)
            },
            RestoreStep::StartContainers => (restore_at(s, RestoreStep::Finished), RestoreActionModel::Finish),
            RestoreStep::Finished => (s, RestoreActionModel::Finish),
            _ => unexpected,
        },
        EventModel::Names(names) => match s.step {
            RestoreStep::ListAvailable => (
                restore_at(s, RestoreStep::Finished),
                RestoreActionModel::Fail {
                    notes: seq!["Error: Backup directory does not exist: "@ + s.dir, "Available backups:"@] + (if names.len()
                        == 0 {
                        seq!["  (none)"@]
                    } else {
                        names.map_values(|d: Seq<char>| "  "@ + d)
                    }),
                    message: "Backup directory does not exist: "@ + s.dir,
                },
            ),
            RestoreStep::StopContainers => (
                RestoreModel { step: RestoreStep::ListFiles, running: names, ..s },
                RestoreActionModel::ListArchives(s.dir),
            ),
            RestoreStep::ListFiles => {
                let vols = archive_volumes(names);
                if vols.len() > 0 {
                    (
                        RestoreModel { step: RestoreStep::RestoreVolume { volume: 0 }, volumes: vols, ..s },
                        RestoreActionModel::RestoreVolume { volume: vols[0], dir: s.dir },
                    )
                } else {
                    restore_restart(RestoreModel { volumes: vols, ..s })
                }
            },
            RestoreStep::Finished => (s, RestoreActionModel::Finish),
            _ => unexpected,
        },
    }
}


/// Every restore step keeps its volume position within the volumes found,
/// and the containers stopped are remembered unchanged until they are
/// started again.
pub proof fn restore_steps_keep_running(s: RestoreModel, e: EventModel)
    requires
        restore_wf(s),
    ensures
        restore_wf(restore_next(s, e).0),
        s.step != RestoreStep::StopContainers ==> restore_next(s, e).0.running == s.running,
{
}

fn strip_archive_suffixes_exec(s: &str) -> (r: String)
    ensures
        r@ == strip_archive_suffixes(s@),
    decreases s@.len(),
{
    if ends_with(s, ".tar.gz") {
        proof {
            reveal_strlit(".tar.gz");
        }
        let v = chars_of(s);
        let n = v.len() - 7;
        let shorter = string_of_range(&v, 0, n);
        assert(shorter@ == s@.take(s@.len() - ".tar.gz"@.len()));
        strip_archive_suffixes_exec(shorter.as_str())
    } else {
        to_string(s)
    }
}

fn archive_volume_exec(line: &str) -> (r: Option<String>)
    ensures
        crate::config::opt_view(r) == archive_volume(line@),
{
    let t = trim(line);
    if t.unicode_len() > 0 && ends_with(line, ".tar.gz") {
        let seg = last_segment_exec(line);
        let v = strip_archive_suffixes_exec(seg.as_str());
        if v.unicode_len() > 0 {
            Some(v)
        } else {
            None
        }
    } else {
        None
    }
}

fn archive_volumes_exec(lines: &Vec<String>) -> (r: Vec<String>)
    ensures
        views(r@) == archive_volumes(views(lines@)),
{
    let ghost lv = views(lines@);
    let mut out: Vec<String> = Vec::new();
    let mut i: usize = 0;
    while i < lines.len()
        invariant
            i <= lines@.len(),
            lv == views(lines@),
            views(out@) == archive_volumes(lv.take(i as int)),
        decreases lines@.len() - i,
    {
        proof {
            assert(lv.take(i + 1).drop_last() =~= lv.take(i as int));
            assert(lv.take(i + 1).last() == lines@[i as int]@);
        }
        match archive_volume_exec(lines[i].as_str()) {
            Some(v) => {
                let ghost before = out@;
                out.push(v);
                assert(views(out@) =~= views(before).push(out@[before.len() as int]@));
            },
            None => {},
        }
        i = i + 1;
    }
    assert(lv.take(i as int) =~= lv);
    out
}

fn restore_with_step(s: RestoreState, step: RestoreStep) -> (r: RestoreState)
    ensures
        r@ == restore_at(s@, step),
{
    RestoreState { step, ..s }
}

fn copy_names(v: &Vec<String>) -> (r: Vec<String>)
    ensures
        views(r@) == views(v@),
{
    let mut out: Vec<String> = Vec::new();
    let mut i: usize = 0;
    while i < v.len()
        invariant
            i <= v@.len(),
            views(out@) == views(v@).take(i as int),
        decreases v@.len() - i,
    {
        let ghost before = out@;
        out.push(to_string(v[i].as_str()));
        assert(views(out@) =~= views(before).push(v@[i as int]@));
        assert(views(v@).take(i + 1) =~= views(v@).take(i as int).push(v@[i as int]@));
        i = i + 1;
    }
    assert(views(v@).take(i as int) =~= views(v@));
    out
}

fn go_restart(s: RestoreState) -> (r: (RestoreState, RestoreAction))
    ensures
        (r.0@, r.1@) == restore_restart(s@),
        restore_wf(r.0@),
{
    if s.running.len() > 0 {
        let running = copy_names(&s.running);
        (restore_with_step(s, RestoreStep::StartContainers), RestoreAction::StartContainers(running))
    } else {
        (restore_with_step(s, RestoreStep::Finished), RestoreAction::Finish)
    }
}

/// Starts restoring backup `<base>/<backup>` of `hostname`; `parent` is the
/// directory above `base`, if it has one.
pub fn restore_start(hostname: &str, base: &str, parent: Option<&str>, backup: &str) -> (r: (
    RestoreState,
    RestoreAction,
))
    ensures
        (r.0@, r.1@) == restore_begin(
            fresh_restore(
                hostname@,
                base@,
                match parent {
                    Some(p) => Some(p@),
                    None => None,
                },
                backup@,
            ),
        ),
        restore_wf(r.0@),
{
    let first = match parent {
        Some(p) => RestoreAction::CheckDirectory(to_string(p)),
        None => RestoreAction::CheckDirectory(to_string(base)),
    };
    let step = match parent {
        Some(_) => RestoreStep::CheckParent,
        None => RestoreStep::CheckBase,
    };
    let s = RestoreState {
        hostname: to_string(hostname),
        base: to_string(base),
        parent: match parent {
            Some(p) => Some(to_string(p)),
            None => None,
        },
        dir: backup_dir(base, backup),
        step,
        running: Vec::new(),
        volumes: Vec::new(),
    };
    assert(views(s.running@) =~= Seq::<Seq<char>>::empty());
    assert(views(s.volumes@) =~= Seq::<Seq<char>>::empty());
    (s, first)
}

/// The next state and action of a restore after what the last action found
/// (see `restore_next`).
pub fn restore_step(s: RestoreState, e: BackupEvent) -> (r: (RestoreState, RestoreAction))
    requires
        restore_wf(s@),
    ensures
        (r.0@, r.1@) == restore_next(s@, e@),
        restore_wf(r.0@),
{
    let nv = s.volumes.len();
    assert(views(s.volumes@).len() == nv);
    match e {
        BackupEvent::Answer(yes) => match s.step {
            RestoreStep::CheckParent => if yes {
                let base = to_string(s.base.as_str());
                (restore_with_step(s, RestoreStep::CheckBase), RestoreAction::CheckDirectory(base))
            } else {
                let mut m = to_string("Error: Backup base directory ");
                match &s.parent {
                    Some(p) => push_str(&mut m, p.as_str()),
                    None => push_str(&mut m, s.base.as_str()),
                }
                push_str(&mut m, " does not exist or is not mounted\nMake sure SMB mount is set up: hal smb <hostname> setup");
                let notes: Vec<String> = Vec::new();
                assert(views(notes@) =~= Seq::<Seq<char>>::empty());
                (restore_with_step(s, RestoreStep::Finished), RestoreAction::Fail { notes, message: m })
            },
            RestoreStep::CheckBase => if yes {
                let dir = to_string(s.dir.as_str());
                (restore_with_step(s, RestoreStep::CheckBackup), RestoreAction::CheckDirectory(dir))
            } else {
                let base = to_string(s.base.as_str());
                (restore_with_step(s, RestoreStep::CreateBase), RestoreAction::CreateDirectory(base))
            },
            RestoreStep::CreateBase => {
                let dir = to_string(s.dir.as_str());
                (restore_with_step(s, RestoreStep::CheckBackup), RestoreAction::CheckDirectory(dir))
            },
            RestoreStep::CheckBackup => if yes {
                (restore_with_step(s, RestoreStep::StopContainers), RestoreAction::StopAllContainers)
            } else {
                let base = to_string(s.base.as_str());
                (restore_with_step(s, RestoreStep::ListAvailable), RestoreAction::ListDirectory(base))
            },
            RestoreStep::RestoreVolume { volume } => if volume + 1 < s.volumes.len() {
                let v = to_string(s.volumes[volume + 1].as_str());
                let dir = to_string(s.dir.as_str());
                (
                    restore_with_step(s, RestoreStep::RestoreVolume { volume: volume + 1 }),
                    RestoreAction::RestoreVolume { volume: v, dir },
                )
            } else {
                go_restart(s)
            },
            RestoreStep::StartContainers => (restore_with_step(s, RestoreStep::Finished), RestoreAction::Finish),
            RestoreStep::Finished => (s, RestoreAction::Finish),
            _ => {
                let notes: Vec<String> = Vec::new();
                assert(views(notes@) =~= Seq::<Seq<char>>::empty());
                (
                    restore_with_step(s, RestoreStep::Finished),
                    RestoreAction::Fail { notes, message: to_string("unexpected reply") },
                )
            },
        },
        BackupEvent::Names(names) => match s.step {
            RestoreStep::ListAvailable => {
                let mut notes: Vec<String> = Vec::new();
                let mut first = to_string("Error: Backup directory does not exist: ");
                push_str(&mut first, s.dir.as_str());
                notes.push(first);
                notes.push(to_string("Available backups:"));
                let ghost head = views(notes@);
                let ghost nv2 = views(names@);
                if names.len() == 0 {
                    notes.push(to_string("  (none)"));
                } else {
                    let mut i: usize = 0;
                    while i < names.len()
                        invariant
                            i <= names@.len(),
                            nv2 == views(names@),
                            views(notes@) == head + nv2.take(i as int).map_values(|d: Seq<char>| "  "@ + d),
                        decreases names@.len() - i,
                    {
                        let mut l = to_string("  ");
                        push_str(&mut l, names[i].as_str());
                        let ghost before = notes@;
                        notes.push(l);
                        proof {
                            assert(views(notes@) =~= views(before).push(l@));
                            assert(nv2.take(i + 1).map_values(|d: Seq<char>| "  "@ + d) =~= nv2.take(i as int).map_values(
                                |d: Seq<char>| "  "@ + d,
                            ).push("  "@ + names@[i as int]@));
                        }
                        i = i + 1;
                    }
                    assert(nv2.take(i as int) =~= nv2);
                }
                let mut m = to_string("Backup directory does not exist: ");
                push_str(&mut m, s.dir.as_str());
                assert(views(notes@) =~= seq!["Error: Backup directory does not exist: "@ + s@.dir, "Available backups:"@]
                    + (if nv2.len() == 0 {
                    seq!["  (none)"@]
                } else {
                    nv2.map_values(|d: Seq<char>| "  "@ + d)
                }));
                (restore_with_step(s, RestoreStep::Finished), RestoreAction::Fail { notes, message: m })
            },
            RestoreStep::StopContainers => {
                let dir = to_string(s.dir.as_str());
                (RestoreState { step: RestoreStep::ListFiles, running: names, ..s }, RestoreAction::ListArchives(dir))
            },
            RestoreStep::ListFiles => {
                let vols = archive_volumes_exec(&names);
                if vols.len() > 0 {
                    let v = to_string(vols[0].as_str());
                    let dir = to_string(s.dir.as_str());
                    (
                        RestoreState { step: RestoreStep::RestoreVolume { volume: 0 }, volumes: vols, ..s },
                        RestoreAction::RestoreVolume { volume: v, dir },
                    )
                } else {
                    go_restart(RestoreState { volumes: vols, ..s })
                }
            },
            RestoreStep::Finished => (s, RestoreAction::Finish),
            _ => {
                let notes: Vec<String> = Vec::new();
                assert(views(notes@) =~= Seq::<Seq<char>>::empty());
                (
                    restore_with_step(s, RestoreStep::Finished),
                    RestoreAction::Fail { notes, message: to_string("unexpected reply") },
                )
            },
        },
    }
}

} // verus!
