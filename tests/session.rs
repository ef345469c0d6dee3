use logical_node::commands::{
    finish_save, plan_save_file, plan_save_file_as, selected_path, CommandError, SaveStep,
};
use logical_node::handoff::{HandoffStore, PendingFileData};
use logical_node::identity::{decimal_string, label_for, IdentityGenerator};
use logical_node::paths::{open_file_name, opened_file};
use logical_node::registry::SessionRegistry;
use logical_node::title::{display_file_name, window_title};

fn s(text: &str) -> String {
    text.to_string()
}

fn payload(content: &str, name: &str) -> PendingFileData {
    PendingFileData { content: s(content), file_name: s(name) }
}

#[test]
fn unregistered_window_has_no_path() {
    let reg = SessionRegistry::new();
    assert_eq!(reg.get_path(&s("main")), None);
    assert_eq!(reg.count(), 0);
}

#[test]
fn register_and_rebind() {
    let mut reg = SessionRegistry::new();
    reg.register(s("window-0"), None);
    assert!(reg.is_registered(&s("window-0")));
    assert_eq!(reg.get_path(&s("window-0")), None);
    reg.set_path(s("window-0"), s("/tmp/x.tree"));
    assert_eq!(reg.get_path(&s("window-0")), Some(s("/tmp/x.tree")));
    reg.register(s("window-0"), Some(s("/tmp/y.tree")));
    assert_eq!(reg.get_path(&s("window-0")), Some(s("/tmp/y.tree")));
    assert_eq!(reg.count(), 1);
}

#[test]
fn key_isolation_between_windows() {
    let mut reg = SessionRegistry::new();
    reg.register(s("a"), Some(s("/tmp/a.tree")));
    reg.register(s("b"), None);
    reg.set_path(s("b"), s("/tmp/b.tree"));
    reg.register(s("c"), Some(s("/tmp/c.tree")));
    reg.set_path(s("c"), s("/tmp/c2.tree"));
    assert_eq!(reg.get_path(&s("a")), Some(s("/tmp/a.tree")));
    assert_eq!(reg.get_path(&s("b")), Some(s("/tmp/b.tree")));
    assert_eq!(reg.get_path(&s("c")), Some(s("/tmp/c2.tree")));
    assert_eq!(reg.count(), 3);
}

#[test]
fn unregister_forgets_window() {
    let mut reg = SessionRegistry::new();
    reg.register(s("a"), Some(s("/tmp/a.tree")));
    reg.register(s("b"), None);
    reg.unregister(&s("a"));
    assert!(!reg.is_registered(&s("a")));
    assert!(reg.is_registered(&s("b")));
    assert_eq!(reg.get_path(&s("a")), None);
    assert_eq!(reg.count(), 1);
    reg.unregister(&s("a"));
    assert_eq!(reg.count(), 1);
}

#[test]
fn take_twice_returns_empty() {
    let mut store = HandoffStore::new();
    store.deposit(s("w"), payload("y", "b.tree"));
    let first = store.take(&s("w")).unwrap();
    assert_eq!(first.content, "y");
    assert_eq!(first.file_name, "b.tree");
    assert!(store.take(&s("w")).is_none());
}

#[test]
fn second_deposit_overwrites_first() {
    let mut store = HandoffStore::new();
    store.deposit(s("w"), payload("one", "1.tree"));
    store.deposit(s("w"), payload("two", "2.tree"));
    assert_eq!(store.get_pending_file_data(&s("w")), Some((s("two"), s("2.tree"))));
    assert_eq!(store.get_pending_file_data(&s("w")), None);
}

#[test]
fn take_leaves_other_windows() {
    let mut store = HandoffStore::new();
    store.deposit(s("a"), payload("x", "a.tree"));
    store.deposit(s("b"), payload("y", "b.tree"));
    assert_eq!(store.get_pending_file_data(&s("a")), Some((s("x"), s("a.tree"))));
    assert_eq!(store.get_pending_file_data(&s("b")), Some((s("y"), s("b.tree"))));
    assert_eq!(store.get_pending_file_data(&s("c")), None);
}

#[test]
fn bound_windows_save_to_their_own_files() {
    let mut reg = SessionRegistry::new();
    reg.register(s("a"), Some(s("/tmp/a.tree")));
    reg.register(s("b"), Some(s("/tmp/b.tree")));
    let step_a = plan_save_file(&reg, &s("a"), s("content a"), s("untitled.tree"));
    let step_b = plan_save_file(&reg, &s("b"), s("content b"), s("untitled.tree"));
    let done_b = finish_save(&mut reg, s("b"), s("/tmp/b.tree"), Ok(()));
    let done_a = finish_save(&mut reg, s("a"), s("/tmp/a.tree"), Ok(()));
    match step_a {
        SaveStep::Write { path, content } => {
            assert_eq!(path, "/tmp/a.tree");
            assert_eq!(content, "content a");
        }
        SaveStep::Prompt { .. } => panic!("a bound window must not prompt"),
    }
    match step_b {
        SaveStep::Write { path, content } => {
            assert_eq!(path, "/tmp/b.tree");
            assert_eq!(content, "content b");
        }
        SaveStep::Prompt { .. } => panic!("a bound window must not prompt"),
    }
    assert!(matches!(done_a, Ok(ref p) if p == "/tmp/a.tree"));
    assert!(matches!(done_b, Ok(ref p) if p == "/tmp/b.tree"));
    assert_eq!(reg.get_path(&s("a")), Some(s("/tmp/a.tree")));
    assert_eq!(reg.get_path(&s("b")), Some(s("/tmp/b.tree")));
}

#[test]
fn save_untitled_window_through_dialog() {
    let mut reg = SessionRegistry::new();
    reg.register(s("A"), None);
    let step = plan_save_file(&reg, &s("A"), s("x"), s("untitled.tree"));
    match step {
        SaveStep::Prompt { content, default_filename } => {
            assert_eq!(content, "x");
            assert_eq!(default_filename, "untitled.tree");
        }
        SaveStep::Write { .. } => panic!("an untitled window must prompt"),
    }
    let path = selected_path(Some(s("/tmp/a.tree"))).ok().unwrap();
    let result = finish_save(&mut reg, s("A"), path, Ok(()));
    assert!(matches!(result, Ok(ref p) if p == "/tmp/a.tree"));
    assert_eq!(reg.get_path(&s("A")), Some(s("/tmp/a.tree")));
}

#[test]
fn open_file_hands_content_to_new_window() {
    let mut ids = IdentityGenerator::new();
    let mut reg = SessionRegistry::new();
    let mut store = HandoffStore::new();
    let path = selected_path(Some(s("/tmp/b.tree"))).ok().unwrap();
    let label = ids.allocate().unwrap();
    assert!(!reg.is_registered(&label));
    let data = opened_file(&path, s("y"));
    reg.register(label.clone(), Some(path.clone()));
    store.deposit(label.clone(), data);
    assert_eq!(reg.get_path(&label), Some(s("/tmp/b.tree")));
    assert_eq!(store.get_pending_file_data(&label), Some((s("y"), s("b.tree"))));
    assert_eq!(store.get_pending_file_data(&label), None);
}

#[test]
fn save_as_prompts_even_when_bound() {
    let mut reg = SessionRegistry::new();
    reg.register(s("w"), Some(s("/tmp/old.tree")));
    let step = plan_save_file_as(s("data"), s("old.tree"));
    assert!(matches!(step, SaveStep::Prompt { .. }));
    let path = selected_path(Some(s("/tmp/new.tree"))).ok().unwrap();
    let result = finish_save(&mut reg, s("w"), path, Ok(()));
    assert!(matches!(result, Ok(ref p) if p == "/tmp/new.tree"));
    assert_eq!(reg.get_path(&s("w")), Some(s("/tmp/new.tree")));
    let next = plan_save_file(&reg, &s("w"), s("data"), s("old.tree"));
    assert!(matches!(next, SaveStep::Write { ref path, .. } if path == "/tmp/new.tree"));
}

#[test]
fn cancelled_dialog_is_no_file_selected() {
    let r = selected_path(None);
    assert!(matches!(r, Err(CommandError::NoFileSelected)));
    assert_eq!(r.err().unwrap().message(), "No file selected");
}

#[test]
fn failed_write_leaves_registry_unchanged() {
    let mut reg = SessionRegistry::new();
    reg.register(s("w"), None);
    let r = finish_save(&mut reg, s("w"), s("/tmp/a.tree"), Err(s("permission denied")));
    match r {
        Err(CommandError::Io(m)) => assert_eq!(m, "permission denied"),
        _ => panic!("expected an I/O error"),
    }
    assert_eq!(reg.get_path(&s("w")), None);
}

#[test]
fn error_messages() {
    assert_eq!(CommandError::Io(s("disk full")).message(), "disk full");
    assert_eq!(CommandError::Window(s("no window")).message(), "no window");
}

#[test]
fn labels_are_sequential_and_distinct() {
    let mut ids = IdentityGenerator::new();
    assert_eq!(ids.allocate(), Some(s("window-0")));
    assert_eq!(ids.allocate(), Some(s("window-1")));
    assert_eq!(ids.allocate(), Some(s("window-2")));
}

#[test]
fn decimal_forms() {
    assert_eq!(decimal_string(0), "0");
    assert_eq!(decimal_string(7), "7");
    assert_eq!(decimal_string(10), "10");
    assert_eq!(decimal_string(1234567890), "1234567890");
    assert_eq!(decimal_string(u64::MAX), "18446744073709551615");
    assert_eq!(label_for(42), "window-42");
}

#[test]
fn titles() {
    assert_eq!(window_title(None, false), "Untitled  -  Logical Node 3");
    assert_eq!(window_title(Some(s("b.tree")), false), "b.tree  -  Logical Node 3");
    assert_eq!(window_title(Some(s("b.tree")), true), "● b.tree  -  Logical Node 3");
    assert_eq!(window_title(None, true), "● Untitled  -  Logical Node 3");
    assert_eq!(display_file_name(None), "Untitled");
}

#[test]
fn file_names_from_paths() {
    assert_eq!(open_file_name(&s("/tmp/b.tree")), "b.tree");
    assert_eq!(open_file_name(&s("notes.json")), "notes.json");
    assert_eq!(open_file_name(&s("/")), "Untitled");
    assert_eq!(open_file_name(&s("/tmp/..")), "Untitled");
}
