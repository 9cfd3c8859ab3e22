use sourcetrait_backup::bak::error::{Error, IoOp};
use sourcetrait_backup::bak::xattr::xattr_names;
use sourcetrait_backup::bak::rotation::{
    determine_destination, find_last_bak, list_bak_n_files, shift_bak_files, wipe, BakOp, DirEntry,
};
use sourcetrait_backup::bak::session::{
    confirm_answer, diff_commands, diff_target, git_diff_body, list_targets, print_list_backups,
    remove_app_data_subdir, retry_in_app_data, wipe_targets,
};

fn file(name: &str) -> DirEntry {
    DirEntry { name: name.to_string(), is_file: true }
}

fn dir(name: &str) -> DirEntry {
    DirEntry { name: name.to_string(), is_file: false }
}

fn op_text(op: &BakOp) -> String {
    match op {
        BakOp::Remove(n) => format!("rm {n}"),
        BakOp::Shift(a, b) => format!("shift {a} {b}"),
        BakOp::Rename(a, b) => format!("mv {a} {b}"),
    }
}

#[test]
fn first_copy_is_plain_bak() {
    let listing = vec![file("a.txt")];
    let plan = determine_destination("/w/a.txt", &listing, true, 10).unwrap();
    assert!(plan.ops.is_empty());
    assert_eq!("a.txt.bak", plan.dest);
}

#[test]
fn second_copy_moves_bak_to_one() {
    let listing = vec![file("a.txt"), file("a.txt.bak")];
    let plan = determine_destination("/w/a.txt", &listing, true, 10).unwrap();
    let ops: Vec<String> = plan.ops.iter().map(op_text).collect();
    assert_eq!(vec!["mv a.txt.bak a.txt.bak.1".to_string()], ops);
    assert_eq!("a.txt.bak.0", plan.dest);
}

#[test]
fn unchanged_source_is_not_copied() {
    let listing = vec![file("a.txt.bak.0")];
    assert!(determine_destination("a.txt", &listing, false, 10).is_none());
}

#[test]
fn rotation_shifts_and_prunes() {
    let listing = vec![file("a.txt.bak.0"), file("a.txt.bak.1"), file("a.txt.bak.2")];
    let plan = determine_destination("a.txt", &listing, true, 3).unwrap();
    let ops: Vec<String> = plan.ops.iter().map(op_text).collect();
    assert_eq!(
        vec![
            "rm a.txt.bak.2".to_string(),
            "shift a.txt.bak.1 a.txt.bak.2".to_string(),
            "shift a.txt.bak.0 a.txt.bak.1".to_string(),
        ],
        ops
    );
    assert_eq!("a.txt.bak.0", plan.dest);
}

#[test]
fn single_copy_mode_wipes_all() {
    let listing = vec![file("a.txt.bak.0"), file("a.txt.bak.1")];
    let plan = determine_destination("a.txt", &listing, true, 1).unwrap();
    let ops: Vec<String> = plan.ops.iter().map(op_text).collect();
    assert_eq!(vec!["rm a.txt.bak.0".to_string(), "rm a.txt.bak.1".to_string()], ops);
    assert_eq!("a.txt.bak", plan.dest);
}

#[test]
fn numbered_copies_are_sorted_and_filtered() {
    let listing = vec![
        file("a.txt.bak.10"),
        file("a.txt.bak.2"),
        file("a.txt.bak.x"),
        dir("a.txt.bak.3"),
        file("b.txt.bak.0"),
        file("a.txt.bak.+4"),
    ];
    let names = list_bak_n_files("/w/a.txt", &listing);
    assert_eq!(vec!["a.txt.bak.+4", "a.txt.bak.10", "a.txt.bak.2"], names);
}

#[test]
fn last_bak_prefers_plain_copy() {
    let listing = vec![file("a.txt.bak.0"), file("a.txt.bak")];
    assert_eq!(Some("a.txt.bak".to_string()), find_last_bak("a.txt", &listing));
    let listing = vec![file("a.txt.bak.0")];
    assert_eq!(Some("a.txt.bak.0".to_string()), find_last_bak("a.txt", &listing));
    assert_eq!(None, find_last_bak("a.txt", &[]));
}

#[test]
fn wipe_removes_numbered_then_plain() {
    let listing = vec![file("a.txt.bak"), file("a.txt.bak.1"), file("a.txt.bak.0")];
    let ops: Vec<String> = wipe("a.txt", &listing).iter().map(op_text).collect();
    assert_eq!(
        vec!["rm a.txt.bak.0".to_string(), "rm a.txt.bak.1".to_string(), "rm a.txt.bak".to_string()],
        ops
    );
}

#[test]
fn shift_increments_from_the_last() {
    let listing = vec![file("a.txt.bak.0"), file("a.txt.bak.1")];
    let ops: Vec<String> = shift_bak_files("a.txt", &listing, 10).iter().map(op_text).collect();
    assert_eq!(
        vec!["shift a.txt.bak.1 a.txt.bak.2".to_string(), "shift a.txt.bak.0 a.txt.bak.1".to_string()],
        ops
    );
}

#[test]
fn wipe_targets_follow_the_data_directory() {
    let t = wipe_targets("/home/u/.local/share/sourcetrait/bak", "/home/u/.local/share/sourcetrait/bak/", false);
    assert!(t.dir.is_none());
    assert!(t.app_data_mirror);
    let t = wipe_targets("/tmp", "/home/u/.local/share/sourcetrait/bak", true);
    assert_eq!(Some("/tmp".to_string()), t.dir);
    assert!(!t.app_data_mirror);
    let t = wipe_targets("/tmp", "/data", false);
    assert!(t.app_data_mirror);
    let t = list_targets("/tmp", "/data");
    assert_eq!(Some("/tmp".to_string()), t.dir);
    assert!(t.app_data_mirror);
}

#[test]
fn cleanup_climbs_to_the_data_directory() {
    let dirs = remove_app_data_subdir("/data/bak", "/data/bak/home/u/tmp");
    assert_eq!(vec!["/data/bak/home/u/tmp", "/data/bak/home/u", "/data/bak/home"], dirs);
    assert!(remove_app_data_subdir("/data/bak", "/data/bak").is_empty());
    assert!(remove_app_data_subdir("/data/bak", "/elsewhere/x").is_empty());
}

#[test]
fn list_shows_all_copies_sorted() {
    let listing = vec![file("a.txt.bak.1"), file("a.txt.bak"), file("a.txt.bak.0"), file("other")];
    assert_eq!(vec!["a.txt.bak", "a.txt.bak.0", "a.txt.bak.1"], print_list_backups("a.txt", &listing));
}

#[test]
fn diff_picks_the_copy_by_index() {
    let listing = vec![file("a.txt.bak.1"), file("a.txt.bak.0")];
    assert_eq!("/d/a.txt.bak.1", diff_target("/w/a.txt", "/d", &listing, 1).unwrap());
    match diff_target("/w/a.txt", "/d", &listing, 2) {
        Err(Error::Index { index, .. }) => assert_eq!(2, index),
        _ => panic!("expected an index error"),
    }
    let listing = vec![file("a.txt.bak")];
    assert_eq!("/d/a.txt.bak", diff_target("/w/a.txt", "/d", &listing, 0).unwrap());
    assert!(diff_target("/w/a.txt", "/d", &listing, 1).is_err());
}

#[test]
fn confirmation_accepts_only_y() {
    assert!(confirm_answer("y\n"));
    assert!(confirm_answer("  Y "));
    assert!(!confirm_answer("yes"));
    assert!(!confirm_answer(""));
}

#[test]
fn git_diff_body_drops_the_header() {
    let out = "diff --git a/x b/x\nindex 1..2\n--- a/x\r\n+++ b/x\n-old\n+new\n\n";
    assert_eq!("--- a/x\n+++ b/x\n-old\n+new", git_diff_body(out));
    assert_eq!("", git_diff_body("one line only\n"));
}

#[test]
fn diff_commands_prefer_git() {
    let cmds = diff_commands("src.txt", "src.txt.bak", false);
    assert_eq!("git", cmds[0].program);
    assert_eq!(vec!["diff", "--no-index", "--color", "src.txt.bak", "src.txt"], cmds[0].args);
    assert_eq!("diff", cmds[1].program);
    let cmds = diff_commands("s", "b", true);
    assert_eq!(vec!["compare-object", "(get-content b)", "(get-content s)"], cmds[1].args);
}

#[test]
fn permission_denied_retries_in_data_directory() {
    assert!(retry_in_app_data(true, false));
    assert!(!retry_in_app_data(true, true));
    assert!(!retry_in_app_data(false, false));
}

#[test]
fn error_messages() {
    let e = Error::msg("boom");
    assert_eq!("boom", e.to_string());
    let e = Error::io(IoOp::Delete, "/x", "denied");
    let text = e.to_string();
    assert!(text.starts_with("Unable to delete "));
    assert!(text.ends_with(": denied"));
    assert!(text.contains("/x"));
    assert_eq!("rename", IoOp::Rename.as_str());
}

#[test]
fn eleven_copies_shift_by_number() {
    let listing: Vec<DirEntry> = (0..=10).map(|i| file(&format!("a.txt.bak.{}", i))).collect();
    let ops: Vec<String> = shift_bak_files("a.txt", &listing, 255).iter().map(op_text).collect();
    let want: Vec<String> =
        (0..=10).rev().map(|i| format!("shift a.txt.bak.{} a.txt.bak.{}", i, i + 1)).collect();
    assert_eq!(want, ops);
}

#[test]
fn eleven_copies_prune_the_highest() {
    let listing: Vec<DirEntry> = (0..=10).map(|i| file(&format!("a.txt.bak.{}", i))).collect();
    let ops: Vec<String> = shift_bak_files("a.txt", &listing, 5).iter().map(op_text).collect();
    let mut want: Vec<String> = (4..=10).rev().map(|i| format!("rm a.txt.bak.{}", i)).collect();
    want.extend((0..=3).rev().map(|i| format!("shift a.txt.bak.{} a.txt.bak.{}", i, i + 1)));
    assert_eq!(want, ops);
}

#[test]
fn listing_and_diff_follow_path_order() {
    let listing: Vec<DirEntry> = (0..=10).map(|i| file(&format!("a.txt.bak.{}", i))).collect();
    let names = list_bak_n_files("a.txt", &listing);
    assert_eq!("a.txt.bak.0", names[0]);
    assert_eq!("a.txt.bak.1", names[1]);
    assert_eq!("a.txt.bak.10", names[2]);
    assert_eq!("a.txt.bak.2", names[3]);
    assert_eq!("/d/a.txt.bak.10", diff_target("/w/a.txt", "/d", &listing, 2).unwrap());
}

#[test]
fn attribute_names_split_at_nul() {
    let names = xattr_names(b"user.a\0security.selinux\0");
    assert_eq!(vec![b"user.a".to_vec(), b"security.selinux".to_vec()], names);
    assert_eq!(vec![b"a".to_vec()], xattr_names(b"a\0\0b\0"));
    assert!(xattr_names(b"").is_empty());
}
