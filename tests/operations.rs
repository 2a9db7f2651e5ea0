use resm::backup::{backup, backup_db, BackupStep};
use resm::clock::{get_current_time_for_filename, time_for_filename, ClockTime};
use resm::connect_info::ConnectInfo;
use resm::ssh_config::SshConfig;
use resm::sync::{
    clear_cache, next, upload_all, upload_patch, Action, Event, OperationKind, Outcome, Prompt, Stage,
    SyncOperation,
};
use resm::transfer::{RemoteCommand, TransferStep};

fn strings(v: &[&str]) -> Vec<String> {
    v.iter().map(|s| s.to_string()).collect()
}

fn command(program: &str, args: &[&str]) -> RemoteCommand {
    RemoteCommand { program: program.to_string(), args: strings(args) }
}

fn config() -> SshConfig {
    SshConfig {
        project: "myproj".to_string(),
        environment: "prod".to_string(),
        remote_path: Some("/app/".to_string()),
        remote_cache_path: Some("/app/cache".to_string()),
        git_path: Some("/repo".to_string()),
        git_src_path: Some("/src".to_string()),
        backup_path: Some("/backups/".to_string()),
        db_host: Some("db-main".to_string()),
        db_host_reader: Some("db-replica".to_string()),
        db_port: None,
        db_name: Some("shop".to_string()),
        db_user: None,
        db_password: None,
        db_root_user: Some("admin".to_string()),
        db_root_password: Some("pw".to_string()),
        connect_info: ConnectInfo {
            host: "web".to_string(),
            port: None,
            user: None,
            password: None,
            identity_file: None,
        },
        tunnels: None,
    }
}

fn noon() -> ClockTime {
    ClockTime { year: 2024, month: 1, day: 1, hour: 12, minute: 0, second: 0 }
}

fn drive(op: &mut SyncOperation, events: &[Event]) -> Vec<Action> {
    events.iter().map(|e| op.step(*e)).collect()
}

#[test]
fn timestamp_format() {
    assert_eq!(time_for_filename(&noon()), "20240101_120000");
    let t = ClockTime { year: 987, month: 12, day: 31, hour: 3, minute: 4, second: 59 };
    assert_eq!(time_for_filename(&t), "09871231_030459");
    let far = ClockTime { year: 12345, month: 2, day: 3, hour: 0, minute: 0, second: 0 };
    assert_eq!(time_for_filename(&far), "+123450203_000000");
    let past = ClockTime { year: -7, month: 2, day: 3, hour: 0, minute: 0, second: 0 };
    assert_eq!(time_for_filename(&past), "-00070203_000000");
}

#[test]
fn timestamp_now_has_fixed_shape() {
    let s = get_current_time_for_filename();
    assert_eq!(s.len(), 15);
    assert_eq!(&s[8..9], "_");
    assert!(s.chars().enumerate().all(|(i, c)| i == 8 || c.is_ascii_digit()));
}

#[test]
fn backup_directory_scenario() {
    let plan = backup("myproj", &config(), "uploads", &noon());
    assert_eq!(plan.remote_file, "myproj_uploads_20240101_120000.zip");
    assert_eq!(plan.local_file, "/backups/myproj_uploads_20240101_120000.zip");
    assert_eq!(
        plan.steps,
        vec![
            BackupStep::Run {
                command: command("zip", &["-r", "myproj_uploads_20240101_120000.zip", "/app/uploads"])
            },
            BackupStep::Fetch {
                remote: "myproj_uploads_20240101_120000.zip".to_string(),
                local: "/backups/myproj_uploads_20240101_120000.zip".to_string(),
            },
            BackupStep::Run { command: command("rm", &["myproj_uploads_20240101_120000.zip"]) },
        ]
    );
}

#[test]
fn backup_whole_root() {
    let plan = backup("myproj", &config(), "", &noon());
    assert_eq!(plan.remote_file, "myproj_20240101_120000.zip");
    assert_eq!(
        plan.steps[0],
        BackupStep::Run { command: command("zip", &["-r", "myproj_20240101_120000.zip", "/app"]) }
    );
}

#[test]
fn backup_database_scenario() {
    let plan = backup_db("myproj", &config(), &strings(&["users", "orders"]), &noon());
    assert_eq!(plan.local_file, "/backups/myproj_20240101_120000.sql");
    assert_eq!(
        plan.dump,
        command(
            "mysqldump",
            &["-h", "db-replica", "-P", "3306", "-u", "admin", "-ppw", "shop", "users", "orders"]
        )
    );
}

#[test]
fn backup_database_all_tables_on_primary() {
    let mut c = config();
    c.db_host_reader = None;
    c.db_port = Some(13306);
    c.db_root_user = None;
    c.db_root_password = None;
    let plan = backup_db("p", &c, &Vec::new(), &noon());
    assert_eq!(plan.dump, command("mysqldump", &["-h", "db-main", "-P", "13306", "-u", "root", "-p", "shop"]));
}

#[test]
fn replace_operation_contents() {
    let tree = strings(&["/src/a.txt", "/src/sub/b.txt"]);
    let op = upload_all(&config(), "", false, &tree, 0);
    assert_eq!(op.state.kind, OperationKind::Replace);
    assert_eq!(op.state.files, 2);
    assert_eq!(op.cleanup, vec![command("rm", &["-rf", "/app"])]);
    assert_eq!(
        op.transfer,
        vec![
            TransferStep::MakeDir { path: "/app".to_string() },
            TransferStep::MakeDir { path: "/app/sub".to_string() },
            TransferStep::Write { local: "/src/a.txt".to_string(), remote: "/app/a.txt".to_string() },
            TransferStep::Write { local: "/src/sub/b.txt".to_string(), remote: "/app/sub/b.txt".to_string() },
        ]
    );
    assert_eq!(op.cache, vec![command("rm", &["-r", "/app/cache"]), command("mkdir", &["/app/cache", "-m", "777"])]);
    assert!(op.archive.is_none());
}

#[test]
fn replace_with_archive_and_target() {
    let tree = strings(&["/src/a.txt", "/src/uploads/x.png"]);
    let op = upload_all(&config(), "uploads", true, &tree, 1700000000);
    assert_eq!(op.state.files, 1);
    assert_eq!(op.cleanup, vec![command("rm", &["-rf", "/app/uploads"])]);
    let archive = op.archive.as_ref().unwrap();
    assert_eq!(archive.name, "temp_1700000000.zip");
    assert_eq!(archive.entries.len(), 1);
    assert_eq!(archive.entries[0].name, "uploads/x.png");
    assert_eq!(
        op.transfer,
        vec![
            TransferStep::MakeDir { path: "/app".to_string() },
            TransferStep::MakeDir { path: "/app/uploads".to_string() },
            TransferStep::Write {
                local: "temp_1700000000.zip".to_string(),
                remote: "/app/temp_1700000000.zip".to_string()
            },
            TransferStep::Exec {
                command: command("unzip", &["-o", "/app/temp_1700000000.zip", "-d", "/app"])
            },
            TransferStep::Exec { command: command("rm", &["-r", "/app/temp_1700000000.zip"]) },
        ]
    );
}

#[test]
fn replace_runs_to_completion() {
    let tree = strings(&["/src/a.txt"]);
    let mut op = upload_all(&config(), "", false, &tree, 0);
    let actions = drive(
        &mut op,
        &[
            Event::Start,
            Event::Answer(true),
            Event::SessionOpened(true),
            Event::StepFinished(true),
            Event::StepFinished(true),
            Event::StepFinished(true),
            Event::Answer(true),
            Event::StepFinished(true),
            Event::StepFinished(true),
            Event::SessionClosed,
        ],
    );
    assert_eq!(
        actions,
        vec![
            Action::Ask(Prompt::RemoveRemote),
            Action::OpenSession,
            Action::Cleanup(0),
            Action::Transfer(0),
            Action::Transfer(1),
            Action::Ask(Prompt::ClearCache),
            Action::ClearCache(0),
            Action::ClearCache(1),
            Action::CloseSession,
            Action::Finish(Outcome::Completed),
        ]
    );
    assert_eq!(op.state.stage, Stage::Done);
    assert!(!op.state.session_open);
}

#[test]
fn declining_replace_does_nothing_remote() {
    let tree = strings(&["/src/a.txt"]);
    let mut op = upload_all(&config(), "", false, &tree, 0);
    let actions = drive(
        &mut op,
        &[Event::Start, Event::Answer(false), Event::SessionOpened(true), Event::StepFinished(true), Event::Answer(true)],
    );
    assert_eq!(
        actions,
        vec![
            Action::Ask(Prompt::RemoveRemote),
            Action::Finish(Outcome::Declined),
            Action::Wait,
            Action::Wait,
            Action::Wait,
        ]
    );
    assert_eq!(op.state.stage, Stage::Aborted);
}

#[test]
fn transfer_failure_closes_session() {
    let mut op = upload_patch(&config(), &strings(&["/src/a.txt", "/src/b.txt"]));
    let actions = drive(
        &mut op,
        &[Event::Start, Event::Answer(true), Event::SessionOpened(true), Event::StepFinished(false), Event::SessionClosed],
    );
    assert_eq!(
        actions,
        vec![
            Action::Ask(Prompt::UploadFiles),
            Action::OpenSession,
            Action::Transfer(0),
            Action::CloseSession,
            Action::Finish(Outcome::Failed),
        ]
    );
    assert_eq!(op.state.stage, Stage::Failed);
}

#[test]
fn failed_open_ends_without_close() {
    let mut op = upload_patch(&config(), &strings(&["/src/a.txt"]));
    let actions = drive(&mut op, &[Event::Start, Event::Answer(true), Event::SessionOpened(false)]);
    assert_eq!(actions, vec![Action::Ask(Prompt::UploadFiles), Action::OpenSession, Action::Finish(Outcome::Failed)]);
}

#[test]
fn patch_keeps_cache_when_declined() {
    let mut op = upload_patch(&config(), &strings(&["/src/a.txt"]));
    assert!(op.cleanup.is_empty());
    let actions = drive(
        &mut op,
        &[Event::Start, Event::Answer(true), Event::SessionOpened(true), Event::StepFinished(true), Event::Answer(false), Event::SessionClosed],
    );
    assert_eq!(
        actions,
        vec![
            Action::Ask(Prompt::UploadFiles),
            Action::OpenSession,
            Action::Transfer(0),
            Action::Ask(Prompt::ClearCache),
            Action::CloseSession,
            Action::Finish(Outcome::Completed),
        ]
    );
}

#[test]
fn empty_patch_contacts_nothing() {
    let mut op = upload_patch(&config(), &Vec::new());
    let actions = drive(&mut op, &[Event::Start, Event::Answer(true), Event::SessionOpened(true)]);
    assert_eq!(actions, vec![Action::Finish(Outcome::NothingToDo), Action::Wait, Action::Wait]);
}

#[test]
fn clear_cache_asks_before_opening() {
    let mut op = clear_cache("/app/cache");
    let actions = drive(
        &mut op,
        &[Event::Start, Event::Answer(true), Event::SessionOpened(true), Event::StepFinished(true), Event::StepFinished(true), Event::SessionClosed],
    );
    assert_eq!(
        actions,
        vec![
            Action::Ask(Prompt::ClearCache),
            Action::OpenSession,
            Action::ClearCache(0),
            Action::ClearCache(1),
            Action::CloseSession,
            Action::Finish(Outcome::Completed),
        ]
    );
    let mut declined = clear_cache("/app/cache");
    assert_eq!(drive(&mut declined, &[Event::Start, Event::Answer(false)]), vec![Action::Ask(Prompt::ClearCache), Action::Finish(Outcome::Declined)]);
}

#[test]
fn unexpected_event_waits() {
    let op = clear_cache("/c");
    let (s, a) = next(op.state, Event::SessionClosed);
    assert_eq!(a, Action::Wait);
    assert_eq!(s, op.state);
}

#[test]
fn nested_target_is_created_top_down() {
    let tree = strings(&["/src/x/y/f"]);
    let op = upload_all(&config(), "x/y", false, &tree, 0);
    assert_eq!(op.cleanup, vec![command("rm", &["-rf", "/app/x/y"])]);
    assert_eq!(
        op.transfer,
        vec![
            TransferStep::MakeDir { path: "/app".to_string() },
            TransferStep::MakeDir { path: "/app/x".to_string() },
            TransferStep::MakeDir { path: "/app/x/y".to_string() },
            TransferStep::MakeDir { path: "/app/x".to_string() },
            TransferStep::MakeDir { path: "/app/x/y".to_string() },
            TransferStep::Write { local: "/src/x/y/f".to_string(), remote: "/app/x/y/f".to_string() },
        ]
    );
}

#[test]
fn failed_cleanup_fails_replace() {
    let tree = strings(&["/src/a.txt"]);
    let mut op = upload_all(&config(), "", false, &tree, 0);
    let actions = drive(
        &mut op,
        &[Event::Start, Event::Answer(true), Event::SessionOpened(true), Event::StepFinished(false), Event::SessionClosed],
    );
    assert_eq!(
        actions,
        vec![
            Action::Ask(Prompt::RemoveRemote),
            Action::OpenSession,
            Action::Cleanup(0),
            Action::CloseSession,
            Action::Finish(Outcome::Failed),
        ]
    );
}

#[test]
fn failed_cache_removal_still_recreates() {
    let mut op = clear_cache("/app/cache");
    let actions = drive(
        &mut op,
        &[Event::Start, Event::Answer(true), Event::SessionOpened(true), Event::StepFinished(false), Event::StepFinished(true), Event::SessionClosed],
    );
    assert_eq!(
        actions,
        vec![
            Action::Ask(Prompt::ClearCache),
            Action::OpenSession,
            Action::ClearCache(0),
            Action::ClearCache(1),
            Action::CloseSession,
            Action::Finish(Outcome::Completed),
        ]
    );
}

#[test]
fn failed_cache_creation_fails() {
    let mut op = clear_cache("/app/cache");
    let actions = drive(
        &mut op,
        &[Event::Start, Event::Answer(true), Event::SessionOpened(true), Event::StepFinished(true), Event::StepFinished(false), Event::SessionClosed],
    );
    assert_eq!(actions[4], Action::CloseSession);
    assert_eq!(actions[5], Action::Finish(Outcome::Failed));
}
