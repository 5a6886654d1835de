use window_shim::inject::inject;
use window_shim::inject::InjectError;
use window_shim::reconcile::labels_to_close;
use window_shim::reconcile::reconcile;
use window_shim::registry::main_label_string;
use window_shim::registry::Registry;

fn registry_of(labels: &[&str]) -> Registry {
    let mut r = Registry::new();
    for l in labels {
        r.open_window((*l).to_string());
    }
    r
}

fn keep_of(labels: &[&str]) -> Vec<String> {
    labels.iter().map(|l| (*l).to_string()).collect()
}

#[test]
fn main_label_reads_main() {
    assert_eq!(main_label_string(), "main".to_string());
}

#[test]
fn empty_registry_has_no_windows() {
    let r = Registry::new();
    assert_eq!(r.window_count(), 0);
    assert!(!r.contains_label(&"main".to_string()));
}

#[test]
fn open_window_registers_label_once() {
    let mut r = Registry::new();
    assert!(r.open_window("main".to_string()));
    assert!(r.open_window("settings".to_string()));
    assert!(!r.open_window("settings".to_string()));
    assert_eq!(r.window_count(), 2);
    assert!(r.contains_label(&"main".to_string()));
    assert!(r.contains_label(&"settings".to_string()));
}

#[test]
fn inject_fails_when_window_absent() {
    let r = registry_of(&["main"]);
    let res = inject(
        &r,
        &"settings".to_string(),
        &"document.title='x'".to_string(),
        true,
    );
    assert_eq!(res, Err(InjectError::WindowNotFound));
    // The registry is a snapshot the operation only reads: it is unchanged.
    assert_eq!(r.window_count(), 1);
    assert!(r.contains_label(&"main".to_string()));
}

#[test]
fn inject_fails_on_empty_registry() {
    let r = Registry::new();
    let res = inject(&r, &"main".to_string(), &"1+1".to_string(), true);
    assert_eq!(res, Err(InjectError::WindowNotFound));
}

#[test]
fn inject_succeeds_when_window_accepts_evaluation() {
    let r = registry_of(&["main", "settings"]);
    let res = inject(
        &r,
        &"settings".to_string(),
        &"console.log('hi')".to_string(),
        true,
    );
    assert_eq!(res, Ok(true));
}

#[test]
fn inject_reports_rejected_evaluation() {
    let r = registry_of(&["main", "settings"]);
    let res = inject(&r, &"settings".to_string(), &"1+1".to_string(), false);
    assert_eq!(res, Err(InjectError::EvaluationFailed));
}

#[test]
fn reconcile_empty_keep_closes_all_but_main() {
    let r = registry_of(&["main", "settings", "about"]);
    let after = reconcile(&r, &keep_of(&[]));
    assert_eq!(after.window_count(), 1);
    assert!(after.contains_label(&"main".to_string()));
    assert!(!after.contains_label(&"settings".to_string()));
    assert!(!after.contains_label(&"about".to_string()));
}

#[test]
fn reconcile_keeping_every_non_main_window_closes_nothing() {
    let r = registry_of(&["main", "settings", "about"]);
    let after = reconcile(&r, &keep_of(&["settings", "about"]));
    assert_eq!(after.window_count(), 3);
    assert!(after.contains_label(&"main".to_string()));
    assert!(after.contains_label(&"settings".to_string()));
    assert!(after.contains_label(&"about".to_string()));
}

#[test]
fn reconcile_never_closes_main_window() {
    // "main" absent from the keep-list: the primary window still stays open.
    let r = registry_of(&["main", "logs"]);
    let after = reconcile(&r, &keep_of(&["logs"]));
    assert!(after.contains_label(&"main".to_string()));
    let after2 = reconcile(&r, &keep_of(&[]));
    assert!(after2.contains_label(&"main".to_string()));
    // And its label is never on the closure list.
    let to_close = labels_to_close(&r, &keep_of(&[]));
    assert!(!to_close.contains(&"main".to_string()));
}

#[test]
fn reconcile_is_idempotent() {
    let r = registry_of(&["main", "settings", "about", "logs"]);
    let keep = keep_of(&["about"]);
    let once = reconcile(&r, &keep);
    let twice = reconcile(&once, &keep);
    assert_eq!(once.window_count(), twice.window_count());
    for l in ["main", "settings", "about", "logs"] {
        assert_eq!(
            once.contains_label(&l.to_string()),
            twice.contains_label(&l.to_string())
        );
    }
    // And the second pass finds nothing left to close.
    assert_eq!(labels_to_close(&once, &keep).len(), 0);
}

#[test]
fn reconcile_concrete_scenario_keeps_settings() {
    let r = registry_of(&["main", "settings", "about"]);
    let after = reconcile(&r, &keep_of(&["settings"]));
    assert_eq!(after.window_count(), 2);
    assert!(after.contains_label(&"main".to_string()));
    assert!(after.contains_label(&"settings".to_string()));
    assert!(!after.contains_label(&"about".to_string()));
}

#[test]
fn reconcile_tolerates_duplicate_and_unknown_keep_labels() {
    let r = registry_of(&["main", "settings", "about"]);
    let after = reconcile(&r, &keep_of(&["settings", "settings", "ghost", "main"]));
    assert_eq!(after.window_count(), 2);
    assert!(after.contains_label(&"main".to_string()));
    assert!(after.contains_label(&"settings".to_string()));
    assert!(!after.contains_label(&"about".to_string()));
    assert!(!after.contains_label(&"ghost".to_string()));
}

#[test]
fn reconcile_without_primary_window_closes_everything_unkept() {
    let r = registry_of(&["settings", "about"]);
    let after = reconcile(&r, &keep_of(&[]));
    assert_eq!(after.window_count(), 0);
}

#[test]
fn labels_to_close_lists_exactly_the_unkept_windows() {
    let r = registry_of(&["main", "a", "b", "c"]);
    let to_close = labels_to_close(&r, &keep_of(&["b"]));
    assert_eq!(to_close.len(), 2);
    assert!(to_close.contains(&"a".to_string()));
    assert!(to_close.contains(&"c".to_string()));
    assert!(!to_close.contains(&"b".to_string()));
    assert!(!to_close.contains(&"main".to_string()));
}
