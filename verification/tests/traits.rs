use std::collections::HashMap;

use caesar::traits::{Context, FileKind, GitState};

#[test]
fn context_can_be_created() {
    let ctx = Context {
        path: "/tmp/test".to_string(),
        file_kind: Some(FileKind::Text),
        project_type: None,
        git_state: None,
        environment: HashMap::new(),
    };
    assert_eq!(ctx.path, "/tmp/test".to_string());
    assert_eq!(ctx.file_kind, Some(FileKind::Text));
}

#[test]
fn git_state_defaults() {
    let state = GitState { branch: Some("main".into()), is_dirty: false, has_staged: false };
    assert_eq!(state.branch.as_deref(), Some("main"));
    assert!(!state.is_dirty);
}
