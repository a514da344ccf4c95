use superzed_session::command_palette::{
    merge_intercepted, CommandInterceptItem, CommandInterceptResult, CommandPaletteFilter,
    GlobalCommandPaletteInterceptor, InterceptorOwner,
};
use superzed_session::context_server_registry::{
    ContextServerDescriptorRegistry, DescriptorHandle,
};
use superzed_session::host_resources::{HostResourceRegistry, ResourceHandle};
use superzed_session::path::HostPath;

fn handle(value: u64) -> ResourceHandle {
    ResourceHandle { value }
}

#[test]
fn overlapping_projects_share_resources() {
    let mut registry = HostResourceRegistry::default();
    let code = || HostPath::new("/shared");
    assert_eq!(registry.acquire_worktree(code(), || handle(1)), handle(1));
    assert_eq!(
        registry.acquire_worktree(HostPath::new("/shared/"), || handle(2)),
        handle(1)
    );
    let main = || "main.rs".to_string();
    assert_eq!(registry.acquire_buffer(1, main(), || handle(3)), handle(3));
    assert_eq!(registry.acquire_buffer(1, main(), || handle(4)), handle(3));
    assert_eq!(registry.acquire_buffer(2, main(), || handle(5)), handle(5));
    assert_eq!(registry.repository(&code()), None);
    assert_eq!(registry.insert_repository(&code(), handle(6)), handle(6));
    assert_eq!(registry.insert_repository(&code(), handle(7)), handle(6));
    assert_eq!(registry.repository(&code()), Some(handle(6)));
    assert_eq!(registry.resource_user_counts_for_test(), (2, 3, 3));

    registry.release_worktree(&code());
    assert_eq!(registry.acquire_worktree(code(), || handle(8)), handle(1));
    registry.release_worktree(&code());
    registry.release_worktree(&code());
    registry.release_buffer(1, main());
    registry.release_buffer(1, main());
    registry.release_buffer(2, main());
    for _ in 0..3 {
        registry.release_repository(&code());
    }
    assert_eq!(registry.resource_user_counts_for_test(), (0, 0, 0));
    registry.release_worktree(&code());
    assert_eq!(registry.resource_user_counts_for_test(), (0, 0, 0));
    assert_eq!(registry.acquire_worktree(code(), || handle(9)), handle(9));
}

#[test]
fn shared_resources_are_made_once() {
    let mut registry = HostResourceRegistry::default();
    let mut made = 0;
    for _ in 0..3 {
        let worktree = registry.acquire_worktree(HostPath::new("/shared"), || {
            made += 1;
            handle(made)
        });
        assert_eq!(worktree, handle(1));
    }
    assert_eq!(made, 1);
    for _ in 0..3 {
        let buffer = registry.acquire_buffer(1, "main.rs".to_string(), || {
            made += 1;
            handle(made)
        });
        assert_eq!(buffer, handle(2));
    }
    assert_eq!(made, 2);
    for _ in 0..3 {
        registry.release_worktree(&HostPath::new("/shared"));
    }
    let again = registry.acquire_worktree(HostPath::new("/shared"), || {
        made += 1;
        handle(made)
    });
    assert_eq!((again, made), (handle(3), 3));
}

#[test]
fn repositories_are_numbered() {
    let mut registry = HostResourceRegistry::default();
    assert_eq!(registry.next_repository_id().value, 1);
    assert_eq!(registry.next_repository_id().value, 2);
    registry.next_repository = u64::MAX;
    assert_eq!(registry.next_repository_id().value, u64::MAX);
    assert_eq!(registry.next_repository_id().value, 0);
}

#[test]
fn descriptors_have_revisions() {
    let mut registry = ContextServerDescriptorRegistry::new();
    let descriptor = |value: u64| DescriptorHandle { value };
    assert_eq!(registry.descriptor_revision("a"), 0);
    registry.register_context_server_descriptor("a".to_string(), descriptor(1));
    assert_eq!(registry.descriptor_revision("a"), 1);
    assert_eq!(registry.context_server_descriptor("a"), Some(descriptor(1)));
    registry.register_context_server_descriptor("a".to_string(), descriptor(2));
    registry.register_context_server_descriptor("b".to_string(), descriptor(3));
    assert_eq!(registry.descriptor_revision("a"), 2);
    assert_eq!(registry.context_server_descriptors().len(), 2);
    registry.unregister_context_server_descriptor_by_id("a");
    assert_eq!(registry.context_server_descriptor("a"), None);
    assert_eq!(registry.descriptor_revision("a"), 3);
    assert_eq!(registry.descriptor_revision("b"), 1);
}

#[test]
fn actions_are_hidden_and_shown() {
    let mut filter = CommandPaletteFilter::new();
    assert!(!filter.is_hidden("git::Commit", 1));
    filter.hide_namespace("git");
    assert!(filter.is_hidden("git::Commit", 1));
    assert!(!filter.is_hidden("github::Commit", 2));
    filter.show_action_types(&vec![1]);
    assert!(!filter.is_hidden("git::Commit", 1));
    filter.show_namespace("git");
    filter.hide_action_types(&vec![1, 2]);
    assert!(filter.is_hidden("git::Commit", 1));
    assert!(filter.is_hidden("other::Action", 2));
    filter.show_action_types(&vec![2]);
    assert!(!filter.is_hidden("other::Action", 2));
}

#[test]
fn interceptors_have_owners() {
    let mut global = GlobalCommandPaletteInterceptor::new();
    assert_eq!(global.intercept(), None);
    global.set(1);
    global.set_for_type(InterceptorOwner::Type(7), 2);
    global.set_for_type(InterceptorOwner::Type(7), 3);
    assert_eq!(global.intercept(), Some(vec![1, 3]));
    global.clear_for_type(InterceptorOwner::Type(7));
    assert_eq!(global.intercept(), Some(vec![1]));
    global.clear();
    assert_eq!(global.intercept(), None);
}

#[test]
fn intercepted_commands_are_put_together() {
    let item = |action: u64| CommandInterceptItem {
        action,
        string: format!("action {action}"),
        positions: vec![0],
    };
    let merged = merge_intercepted(vec![
        CommandInterceptResult {
            results: vec![item(1)],
            append_results: vec![item(2)],
            exclusive: false,
        },
        CommandInterceptResult {
            results: vec![item(3)],
            append_results: Vec::new(),
            exclusive: true,
        },
    ]);
    assert_eq!(merged.results, vec![item(1), item(3)]);
    assert_eq!(merged.append_results, vec![item(2)]);
    assert!(merged.exclusive);
    assert!(!merge_intercepted(Vec::new()).exclusive);
}
