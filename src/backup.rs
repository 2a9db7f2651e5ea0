//! Backups of a remote directory and of the target's database: which
//! commands run remotely and where the artifact is written locally.

use crate::clock::{stamp_text, time_for_filename, ClockTime};
use crate::paths::{join, joined, texts};
use crate::ssh_config::SshConfig;
use crate::text::{decimal, push_char, push_padded};
use crate::transfer::{command_view, CommandView, RemoteCommand};
use vstd::prelude::*;

verus! {

/// `base`, followed by `_` and `part` when `part` is not empty.
pub open spec fn with_part(base: Seq<char>, part: Seq<char>) -> Seq<char> {
    if part.len() > 0 {
        base + seq!['_'] + part
    } else {
        base
    }
}

/// The artifact name: `<project>[_<part>]_<YYYYMMDD_HHMMSS>.<ext>`.
pub open spec fn artifact_name(
    project: Seq<char>,
    part: Seq<char>,
    now: ClockTime,
    ext: Seq<char>,
) -> Seq<char> {
    with_part(project, part) + seq!['_'] + stamp_text(now) + seq!['.'] + ext
}

fn artifact(project: &str, part: &str, now: &ClockTime, ext: &str) -> (r: String)
    ensures
        r@ == artifact_name(project@, part@, *now, ext@),
{
    let mut r = String::from_str(project);
    if part.unicode_len() > 0 {
        push_char(&mut r, '_');
        r.append(part);
    }
    push_char(&mut r, '_');
    let stamp = time_for_filename(now);
    r.append(stamp.as_str());
    push_char(&mut r, '.');
    r.append(ext);
    r
}

/// One step of a directory backup.
#[derive(Debug, PartialEq, Eq)]
pub enum BackupStep {
    /// Run a command on the remote host.
    Run { command: RemoteCommand },
    /// Copy the remote file to the local path.
    Fetch { remote: String, local: String },
}

/// The text of a backup step.
pub enum BackupStepView {
    Run(CommandView),
    Fetch(Seq<char>, Seq<char>),
}

impl View for BackupStep {
    type V = BackupStepView;

    open spec fn view(&self) -> BackupStepView {
        match self {
            BackupStep::Run { command } => BackupStepView::Run(command@),
            BackupStep::Fetch { remote, local } => BackupStepView::Fetch(remote@, local@),
        }
    }
}

/// The texts of a list of backup steps.
pub open spec fn backup_step_views(v: Seq<BackupStep>) -> Seq<BackupStepView> {
    v.map_values(|s: BackupStep| s@)
}

/// A directory backup: the archive's name in the remote home, the local
/// file it is fetched to, and the remote steps in the order they run.
pub struct BackupPlan {
    pub remote_file: String,
    pub local_file: String,
    pub steps: Vec<BackupStep>,
}

/// Plans the backup of the remote root of `config` (of its `target_path`
/// part, when one is given) at time `now`: the archive is named
/// `<project>[_<target_path>]_<YYYYMMDD_HHMMSS>.zip`, made remotely with
/// `zip -r`, fetched into the backup directory, and only then, as the last
/// step, removed remotely.
pub fn backup(project: &str, config: &SshConfig, target_path: &str, now: &ClockTime) -> (r:
    BackupPlan)
    ensures
        r.remote_file@ == artifact_name(project@, target_path@, *now, "zip"@),
        r.local_file@ == join(config.spec_backup_path(), r.remote_file@),
        backup_step_views(r.steps@) == seq![
            BackupStepView::Run(
                command_view(
                    "zip"@,
                    seq!["-r"@, r.remote_file@, config.spec_remote_target(target_path@)],
                ),
            ),
            BackupStepView::Fetch(r.remote_file@, r.local_file@),
            BackupStepView::Run(command_view("rm"@, seq![r.remote_file@])),
        ],
{
    let source = config.remote_target(target_path);
    let file = artifact(project, target_path, now, "zip");
    let local_file = joined(config.backup_path().as_str(), file.as_str());
    let archive = RemoteCommand {
        program: String::from_str("zip"),
        args: vec![String::from_str("-r"), file.clone(), source],
    };
    let cleanup = RemoteCommand { program: String::from_str("rm"), args: vec![file.clone()] };
    proof {
        assert(archive@.args =~= seq!["-r"@, file@, config.spec_remote_target(target_path@)]);
        assert(cleanup@.args =~= seq![file@]);
    }
    let fetch = BackupStep::Fetch { remote: file.clone(), local: local_file.clone() };
    let steps = vec![BackupStep::Run { command: archive }, fetch, BackupStep::Run { command: cleanup }];
    assert(backup_step_views(steps@) =~= seq![
        BackupStepView::Run(
            command_view("zip"@, seq!["-r"@, file@, config.spec_remote_target(target_path@)]),
        ),
        BackupStepView::Fetch(file@, local_file@),
        BackupStepView::Run(command_view("rm"@, seq![file@])),
    ]);
    BackupPlan { remote_file: file, local_file, steps }
}

/// A database backup: the dump command, whose standard output is written
/// as it is to the local file.
pub struct DumpPlan {
    pub dump: RemoteCommand,
    pub local_file: String,
}

/// The arguments of the dump command: connection to the reader host as the
/// database administrator, the database, then the tables, in order.
pub open spec fn dump_args(config: SshConfig, tables: Seq<Seq<char>>) -> Seq<Seq<char>> {
    seq![
        "-h"@,
        config.spec_db_host_reader(),
        "-P"@,
        decimal(config.spec_db_port() as nat),
        "-u"@,
        config.spec_db_root_user(),
        "-p"@ + config.spec_db_root_password(),
        config.spec_db_name(),
    ] + tables
}

/// Plans the dump of the database of `config` at time `now` (of the tables
/// `target_tables` only, when some are given) with `mysqldump` on the
/// reader host, into `<backup_path>/<project>_<YYYYMMDD_HHMMSS>.sql`.
pub fn backup_db(project: &str, config: &SshConfig, target_tables: &Vec<String>, now: &ClockTime) -> (r:
    DumpPlan)
    ensures
        r.dump@ == command_view("mysqldump"@, dump_args(*config, texts(target_tables@))),
        r.local_file@ == join(
            config.spec_backup_path(),
            artifact_name(project@, seq![], *now, "sql"@),
        ),
{
    proof {
        reveal_strlit("");
    }
    let file = artifact(project, "", now, "sql");
    let local_file = joined(config.backup_path().as_str(), file.as_str());
    let mut port = String::new();
    push_padded(&mut port, config.db_port() as u64, 1);
    let mut password = String::from_str("-p");
    password.append(config.db_root_password().as_str());
    let mut args: Vec<String> = vec![
        String::from_str("-h"),
        config.db_host_reader(),
        String::from_str("-P"),
        port,
        String::from_str("-u"),
        config.db_root_user(),
        password,
        config.db_name(),
    ];
    let ghost head = texts(args@);
    assert(head =~= dump_args(*config, seq![]));
    let mut i: usize = 0;
    while i < target_tables.len()
        invariant
            i <= target_tables@.len(),
            texts(args@) == head + texts(target_tables@).subrange(0, i as int),
        decreases target_tables@.len() - i,
    {
        let ghost before = args@;
        let t = target_tables[i].clone();
        assert(texts(target_tables@)[i as int] == t@);
        args.push(t);
        assert(texts(args@) =~= texts(before).push(t@));
        assert(texts(target_tables@).subrange(0, i + 1) =~= texts(target_tables@).subrange(
            0,
            i as int,
        ).push(t@));
        i = i + 1;
    }
    assert(texts(target_tables@).subrange(0, target_tables@.len() as int) =~= texts(target_tables@));
    assert(head + texts(target_tables@) =~= dump_args(*config, texts(target_tables@)));
    DumpPlan { dump: RemoteCommand { program: String::from_str("mysqldump"), args }, local_file }
}

} // verus!
