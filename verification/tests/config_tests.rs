use worktrunk::config::{
    command_config_to_vec, ApprovedCommand, CommandConfig, CommandEnv, WorktrunkConfig,
};

#[test]
fn test_command_config_to_vec_single() {
    let config = CommandConfig::Single("echo test".to_string());
    let result = command_config_to_vec(&config, "cmd");
    assert_eq!(result, vec![("cmd".to_string(), "echo test".to_string())]);
}

#[test]
fn test_command_config_to_vec_multiple() {
    let config = CommandConfig::Multiple(vec!["cmd1".to_string(), "cmd2".to_string()]);
    let result = command_config_to_vec(&config, "check");
    assert_eq!(
        result,
        vec![
            ("check-1".to_string(), "cmd1".to_string()),
            ("check-2".to_string(), "cmd2".to_string())
        ]
    );
}

#[test]
fn test_command_config_to_vec_named() {
    let pairs = vec![
        ("zebra".to_string(), "z".to_string()),
        ("alpha".to_string(), "a".to_string()),
    ];
    let config = CommandConfig::Named(pairs);
    let result = command_config_to_vec(&config, "cmd");
    // Should be sorted alphabetically
    assert_eq!(
        result,
        vec![
            ("alpha".to_string(), "a".to_string()),
            ("zebra".to_string(), "z".to_string())
        ]
    );
}

#[test]
fn test_command_config_to_vec_different_prefix() {
    let config = CommandConfig::Single("test".to_string());
    let result1 = command_config_to_vec(&config, "cmd");
    let result2 = command_config_to_vec(&config, "check");
    assert_eq!(result1[0].0, "cmd");
    assert_eq!(result2[0].0, "check");
}

#[test]
fn approval_lookup_and_recording() {
    let mut config = WorktrunkConfig {
        approved_commands: vec![ApprovedCommand {
            project: "proj".to_string(),
            command: "make".to_string(),
        }],
    };
    assert!(config.is_command_approved("proj", "make"));
    assert!(!config.is_command_approved("proj", "make test"));
    assert!(!config.is_command_approved("other", "make"));

    let batch = vec![
        ("a".to_string(), "make".to_string()),
        ("b".to_string(), "make test".to_string()),
        ("c".to_string(), "make test".to_string()),
    ];
    let needing = worktrunk::config::commands_needing_approval(&batch, &config, "proj");
    assert_eq!(
        needing,
        vec![
            ("b".to_string(), "make test".to_string()),
            ("c".to_string(), "make test".to_string())
        ]
    );

    worktrunk::config::record_approvals(&mut config, "proj", &batch);
    // the duplicate within the batch is recorded once
    assert_eq!(config.approved_commands.len(), 2);
    assert!(config.is_command_approved("proj", "make test"));
}

#[test]
fn command_env_context_carries_fields() {
    let env = CommandEnv {
        branch: "main".to_string(),
        config: WorktrunkConfig {
            approved_commands: vec![],
        },
        worktree_path: "/repo".to_string(),
        repo_root: "/repo".to_string(),
    };
    let ctx = env.context(true);
    assert_eq!(ctx.branch, "main");
    assert_eq!(ctx.worktree_path, "/repo");
    assert_eq!(ctx.repo_root, "/repo");
    assert!(ctx.force);
}
