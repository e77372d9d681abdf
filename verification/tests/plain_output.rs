use graft::manifest::{Rule, Strategy};
use graft::mode::ci_check::drift_source_path;
use graft::mode::sync::sync_fetch_path_of;
use graft::output::{colorize_diff_with, emit_diff_with, emit_status_with, StatusTag};
use graft::repo::print::preview_tags_with;
use graft::strategy::markers::MarkerError;
use graft::strategy::patch::patch_input;

fn rule(path: &str, strategy: Strategy, source: Option<&str>) -> Rule {
    Rule {
        path: path.to_owned(),
        strategy,
        source: source.map(str::to_owned),
        patch: None,
        preserve_markers: None,
    }
}

#[test]
fn styled_tag_without_colors_is_the_padded_tag() {
    assert_eq!(StatusTag::Changed.styled_with(false), "[CHANGED]");
    assert_eq!(StatusTag::UpToDate.styled_with(false), "[OK     ]");
    assert_eq!(StatusTag::Fail.styled_with(false), "[FAIL   ]");
}

#[test]
fn styled_tag_with_colors_is_plain_or_painted() {
    let s = StatusTag::Deleted.styled_with(true);
    assert!(s == "[DELETED]" || s == "\x1b[31m\x1b[1m[DELETED]\x1b[0m", "{s:?}");
}

#[test]
fn status_line_without_colors_is_exact() {
    let mut w: Vec<u8> = Vec::new();
    emit_status_with(&mut w, StatusTag::Changed, ".github/ci.yml", Strategy::Replace, None, false)
        .unwrap();
    assert_eq!(String::from_utf8(w).unwrap(), "[CHANGED]  .github/ci.yml (replace)\n");
    let mut w: Vec<u8> = Vec::new();
    emit_status_with(&mut w, StatusTag::Skipped, "a", Strategy::CreateOnly, Some("exists"), false)
        .unwrap();
    assert_eq!(String::from_utf8(w).unwrap(), "[SKIPPED]  a (create_only): exists\n");
}

#[test]
fn diff_without_colors_is_the_diff_and_a_blank_line() {
    let diff = "--- a/x\n+++ b/x\n@@ -1 +1 @@\n-old\n+new\n";
    let mut w: Vec<u8> = Vec::new();
    emit_diff_with(&mut w, diff, false).unwrap();
    assert_eq!(String::from_utf8(w).unwrap(), format!("{diff}\n"));
    let mut w: Vec<u8> = Vec::new();
    emit_diff_with(&mut w, "", false).unwrap();
    assert!(w.is_empty());
}

#[test]
fn colorized_diff_paints_each_kind_or_leaves_it_plain() {
    assert_eq!(colorize_diff_with("+a\n-b", false), "+a\n-b");
    let out = colorize_diff_with("+a\n-b\n ctx", true);
    assert!(
        out == "+a\n-b\n ctx\n" || out == "\x1b[32m+a\x1b[0m\n\x1b[31m-b\x1b[0m\n ctx\n",
        "{out:?}"
    );
}

#[test]
fn preview_tags_without_colors_are_plain() {
    let t = preview_tags_with(false);
    assert_eq!(t.ok, "[OK     ]");
    assert_eq!(t.changed, "[CHANGED]");
    assert_eq!(t.add, "[ADD    ]");
    assert_eq!(t.delete, "[DELETE ]");
}

#[test]
fn fetched_paths_follow_the_rule() {
    let r = rule("a.txt", Strategy::Replace, Some("templates/a.txt"));
    assert_eq!(drift_source_path(&r), "templates/a.txt");
    assert_eq!(sync_fetch_path_of(&r), "templates/a.txt");
    let c = rule("c.txt", Strategy::CreateOnly, Some("templates/c.txt"));
    assert_eq!(drift_source_path(&c), "c.txt");
    assert_eq!(sync_fetch_path_of(&c), "templates/c.txt");
    let p = rule("p.txt", Strategy::Patch, Some("ignored.txt"));
    assert_eq!(drift_source_path(&p), "p.txt");
    assert_eq!(sync_fetch_path_of(&p), "p.txt");
    let plain = rule("b.txt", Strategy::Replace, None);
    assert_eq!(drift_source_path(&plain), "b.txt");
}

#[test]
fn patch_input_strips_markers_when_preserved() {
    let up = b"a\n# graft:keep-start\nx\n# graft:keep-end\nb\n";
    assert_eq!(patch_input(up, true).unwrap(), b"a\nb\n".to_vec());
    assert_eq!(patch_input(up, false).unwrap(), up.to_vec());
    assert_eq!(
        patch_input(b"# graft:keep-end\n", true),
        Err(MarkerError::Unbalanced)
    );
}
