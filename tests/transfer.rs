use resm::paths::{change_set_paths, patch_paths, select_target, to_remote};
use resm::text::{is_affirmative, trim_start_slashes_of};
use resm::transfer::{plan_archive_transfer, plan_direct_transfer, ArchiveEntry, RemoteCommand, TransferStep};

fn strings(v: &[&str]) -> Vec<String> {
    v.iter().map(|s| s.to_string()).collect()
}

fn make_dir(p: &str) -> TransferStep {
    TransferStep::MakeDir { path: p.to_string() }
}

fn write(l: &str, r: &str) -> TransferStep {
    TransferStep::Write { local: l.to_string(), remote: r.to_string() }
}

fn exec(program: &str, args: &[&str]) -> TransferStep {
    TransferStep::Exec { command: RemoteCommand { program: program.to_string(), args: strings(args) } }
}

#[test]
fn affirmative_answers() {
    assert!(is_affirmative("y"));
    assert!(is_affirmative("y\n"));
    assert!(is_affirmative("  y \r\n"));
    assert!(!is_affirmative("Y"));
    assert!(!is_affirmative("yes"));
    assert!(!is_affirmative(""));
    assert!(!is_affirmative("\n"));
    assert!(!is_affirmative("y y"));
}

#[test]
fn leading_slashes_trimmed() {
    assert_eq!(trim_start_slashes_of("//src/x"), "src/x");
}

#[test]
fn translate_path() {
    assert_eq!(to_remote("/src/a.txt", "/src", "/app"), Some("/app/a.txt".to_string()));
    assert_eq!(to_remote("/src/sub/b.txt/", "/src//", "/app/"), Some("/app/sub/b.txt".to_string()));
    assert_eq!(to_remote("/srcx/a.txt", "/src", "/app"), None);
    assert_eq!(to_remote("/src", "/src", "/app"), None);
    assert_eq!(to_remote("/etc/passwd", "/src", "/app"), None);
}

#[test]
fn translation_keeps_paths_apart() {
    let a = to_remote("/src/a/b", "/src", "/app");
    let b = to_remote("/src/a_b", "/src", "/app");
    let c = to_remote("/src/ab", "/src", "/app");
    assert_ne!(a, b);
    assert_ne!(b, c);
    assert_ne!(a, c);
}

#[test]
fn full_tree_target_selection() {
    let tree = strings(&["/src/a.txt", "/src/uploads/x.png", "/src/uploadsx/y", "/src/sub/b.txt"]);
    assert_eq!(select_target(&tree, "/src", ""), tree);
    assert_eq!(select_target(&tree, "/src", "uploads"), strings(&["/src/uploads/x.png", "/src/uploadsx/y"]));
    assert_eq!(select_target(&tree, "/src", "none"), Vec::<String>::new());
}

#[test]
fn patch_list_lines() {
    let text = "a.txt\r\n\nsub/b.txt\n  \nlast";
    assert_eq!(patch_paths("/src", text), strings(&["/src/a.txt", "/src/sub/b.txt", "/src/  ", "/src/last"]));
}

#[test]
fn empty_patch_list_selects_nothing() {
    assert_eq!(patch_paths("/src", ""), Vec::<String>::new());
    assert_eq!(patch_paths("/src", "\n\r\n\n"), Vec::<String>::new());
}

#[test]
fn change_set_under_source() {
    let changed = strings(&["src/a.rs", "README.md", "src/sub/b.rs"]);
    assert_eq!(change_set_paths("/repo", "src", &changed), strings(&["/repo/src/a.rs", "/repo/src/sub/b.rs"]));
    assert_eq!(change_set_paths("/repo", "src", &Vec::new()), Vec::<String>::new());
}

#[test]
fn direct_plan_scenario() {
    let files = strings(&["/src/a.txt", "/src/sub/b.txt"]);
    let plan = plan_direct_transfer(&files, "/src", "/app");
    assert_eq!(
        plan,
        vec![make_dir("/app/sub"), write("/src/a.txt", "/app/a.txt"), write("/src/sub/b.txt", "/app/sub/b.txt")]
    );
}

#[test]
fn direct_plan_creates_each_directory_once_top_down() {
    let files = strings(&["/src/x/y/z/f1", "/src/x/y/f2", "/src/x/w/f3", "/other/f4"]);
    let plan = plan_direct_transfer(&files, "/src", "/app");
    assert_eq!(
        plan,
        vec![
            make_dir("/app/x"),
            make_dir("/app/x/y"),
            make_dir("/app/x/y/z"),
            make_dir("/app/x/w"),
            write("/src/x/y/z/f1", "/app/x/y/z/f1"),
            write("/src/x/y/f2", "/app/x/y/f2"),
            write("/src/x/w/f3", "/app/x/w/f3"),
        ]
    );
}

#[test]
fn archive_plan_entries_and_steps() {
    let files = strings(&["/src/a.txt", "/src/sub/b.txt", "/elsewhere/c"]);
    let plan = plan_archive_transfer(&files, "/src/", "/app", "temp_17.zip");
    assert_eq!(
        plan.entries,
        vec![
            ArchiveEntry { local: "/src/a.txt".to_string(), name: "a.txt".to_string() },
            ArchiveEntry { local: "/src/sub/b.txt".to_string(), name: "sub/b.txt".to_string() },
        ]
    );
    assert_eq!(
        plan.steps,
        vec![
            write("temp_17.zip", "/app/temp_17.zip"),
            exec("unzip", &["-o", "/app/temp_17.zip", "-d", "/app"]),
            exec("rm", &["-r", "/app/temp_17.zip"]),
        ]
    );
}

#[test]
fn strategies_deliver_to_same_places() {
    let files = strings(&["/src/a.txt", "/src/sub/b.txt", "/src/sub/deep/c"]);
    let direct = plan_direct_transfer(&files, "/src", "/app");
    let archive = plan_archive_transfer(&files, "/src", "/app", "t.zip");
    let writes: Vec<(String, String)> = direct
        .iter()
        .filter_map(|s| match s {
            TransferStep::Write { local, remote } => Some((local.clone(), remote.clone())),
            _ => None,
        })
        .collect();
    let extracted: Vec<(String, String)> =
        archive.entries.iter().map(|e| (e.local.clone(), format!("/app/{}", e.name))).collect();
    assert_eq!(writes, extracted);
}
