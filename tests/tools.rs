use scribe::commands::confirms;
use scribe::slug::slug_redirect;
use scribe::watch::{should_regenerate, ChangeKind, ChangedPath};

fn path(ext: Option<&str>, name: Option<&str>) -> ChangedPath {
    ChangedPath { extension: ext.map(|e| e.to_string()), file_name: name.map(|n| n.to_string()) }
}

#[test]
fn redirect_only_for_unsanitized_segments() {
    assert_eq!(slug_redirect("My_Post").as_deref(), Some("my-post"));
    assert_eq!(slug_redirect("my-post"), None);
    assert_eq!(slug_redirect("").as_deref(), Some("untitled"));
}

#[test]
fn regenerate_on_relevant_changes_after_debounce() {
    let md = vec![path(Some("md"), Some("a.md"))];
    let cfg = vec![path(Some("json"), Some("config.json"))];
    let other = vec![path(Some("txt"), Some("notes.txt")), path(None, None)];
    assert!(should_regenerate(&ChangeKind::Modify, &md, 1500));
    assert!(should_regenerate(&ChangeKind::Create, &cfg, 2000));
    assert!(should_regenerate(&ChangeKind::Remove, &md, 1001));
    assert!(!should_regenerate(&ChangeKind::Modify, &md, 1000));
    assert!(!should_regenerate(&ChangeKind::Other, &md, 5000));
    assert!(!should_regenerate(&ChangeKind::Modify, &other, 5000));
    assert!(!should_regenerate(&ChangeKind::Modify, &Vec::new(), 5000));
}

#[test]
fn typed_answers() {
    assert!(confirms("  Yes\n", 'y'));
    assert!(confirms("y", 'y'));
    assert!(!confirms("", 'y'));
    assert!(!confirms("no", 'y'));
    assert!(confirms(" N ", 'n'));
}
