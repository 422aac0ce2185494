use file_mcp::state::{
    choose_git_cmd, read_project_meta, settings_for_new, settings_from_meta, AppState, BuildJob,
    JobStatus, KillTarget, ProjectMeta, ProjectSize, job_id_text, job_id_from_text,
};

#[test]
fn size_presets() {
    assert_eq!(ProjectSize::Small.max_files(), 50);
    assert_eq!(ProjectSize::Medium.max_files(), 200);
    assert_eq!(ProjectSize::Large.max_files(), 1000);
    assert_eq!(ProjectSize::Small.max_depth("rust"), 2);
    assert_eq!(ProjectSize::Small.max_depth("JAVA"), 4);
    assert_eq!(ProjectSize::Medium.max_depth("go"), 3);
    assert_eq!(ProjectSize::Medium.max_depth("java"), 4);
    assert_eq!(ProjectSize::Large.max_depth("c"), 5);
    assert_eq!(ProjectSize::Large.max_depth("Java"), 7);
}

#[test]
fn size_names_round_trip() {
    for s in [ProjectSize::Small, ProjectSize::Medium, ProjectSize::Large] {
        assert_eq!(ProjectSize::from_str(s.as_str()), Ok(s));
    }
    assert_eq!(ProjectSize::from_str("LARGE"), Ok(ProjectSize::Large));
    assert_eq!(ProjectSize::from_str("huge"), Err(()));
    assert_eq!(ProjectSize::default(), ProjectSize::Medium);
}

#[test]
fn new_project_settings() {
    let s = settings_for_new("Java", "small");
    assert_eq!((s.language.as_str(), s.max_files, s.max_depth, s.size), ("java", 50, 4, ProjectSize::Small));
    let s = settings_for_new("rust", "gigantic");
    assert_eq!((s.max_files, s.max_depth, s.size), (200, 3, ProjectSize::Medium));
}

#[test]
fn meta_limits_are_clamped() {
    let meta = ProjectMeta {
        language: Some("Rust".to_string()),
        max_files: Some(1_000_000),
        max_depth: Some(99),
        size: Some("Large".to_string()),
    };
    let s = settings_from_meta(&meta);
    assert_eq!((s.language.as_str(), s.max_files, s.max_depth, s.size), ("Rust", 5000, 10, ProjectSize::Large));
}

#[test]
fn meta_defaults() {
    let meta = ProjectMeta { language: None, max_files: None, max_depth: None, size: None };
    let s = settings_from_meta(&meta);
    assert_eq!((s.language.as_str(), s.max_files, s.max_depth, s.size), ("unknown", 200, 3, ProjectSize::Medium));
}

#[test]
fn meta_is_parsed_from_json() {
    let s = read_project_meta(
        r#"{"name":"p","language":"go","size":"small","max_files":12,"max_depth":-1}"#,
    )
    .unwrap();
    assert_eq!((s.language.as_str(), s.max_files, s.max_depth, s.size), ("go", 12, 3, ProjectSize::Small));
    let s = read_project_meta(r#"{"max_files":9000,"max_depth":12,"size":"LARGE"}"#).unwrap();
    assert_eq!((s.language.as_str(), s.max_files, s.max_depth, s.size), ("unknown", 5000, 10, ProjectSize::Large));
    assert!(read_project_meta("{not json").is_err());
}

#[test]
fn git_command_choice() {
    assert_eq!(choose_git_cmd(Some("/opt/git")), "/opt/git");
    assert_eq!(choose_git_cmd(Some("git")), "/usr/bin/git");
    assert_eq!(choose_git_cmd(None), "/usr/bin/git");
}

#[test]
fn fresh_state() {
    let st = AppState::new("/base".to_string(), "/usr/bin/git".to_string());
    assert!(!st.has_project());
    assert_eq!((st.max_files, st.max_depth, st.size), (200, 3, ProjectSize::Medium));
    assert!(st.jobs.is_empty());
}

#[test]
fn activation() {
    let mut st = AppState::new("/base".to_string(), "/usr/bin/git".to_string());
    st.activate("/base/p".to_string(), "p".to_string(), settings_for_new("go", "large"));
    assert!(st.has_project());
    assert_eq!(st.project_dir.as_deref(), Some("/base/p"));
    assert_eq!((st.max_files, st.max_depth), (1000, 5));
    assert_eq!(st.language.as_deref(), Some("go"));
}

#[test]
fn build_job_lifecycle() {
    let mut st = AppState::new("/b".to_string(), "/usr/bin/git".to_string());
    assert!(!st.build_running());
    let id = st.register_build(42);
    assert_eq!((id >> 76) & 0xF, 4);
    assert!(st.build_running());
    assert_eq!(st.kill_target(id), KillTarget::Pid(42));
    assert!(matches!(st.take_build_status(id), JobStatus::Running));
    st.finish_build(id, 0, "ok".to_string(), String::new());
    assert!(!st.build_running());
    assert_eq!(st.kill_target(id), KillTarget::AlreadyFinished);
    match st.take_build_status(id) {
        JobStatus::Finished { exit_code, stdout, .. } => assert_eq!((exit_code, stdout.as_str()), (0, "ok")),
        _ => panic!("expected a finished job"),
    }
    // A finished job is reported once.
    assert!(matches!(st.take_build_status(id), JobStatus::Unknown));
    assert_eq!(st.kill_target(id), KillTarget::Unknown);
}

#[test]
fn job_without_pid() {
    let mut st = AppState::new("/b".to_string(), "/usr/bin/git".to_string());
    let id = st.register_build(0);
    assert_eq!(st.kill_target(id), KillTarget::NoPid);
    assert!(matches!(st.jobs.get(&id), Some(BuildJob::Running { pid: 0 })));
}

#[test]
fn job_id_texts() {
    let id: u128 = 0x0123456789abcdef0123456789ABCDEF;
    assert_eq!(job_id_text(id), "01234567-89ab-cdef-0123-456789abcdef");
    assert_eq!(job_id_text(0), "00000000-0000-0000-0000-000000000000");
    assert_eq!(job_id_from_text("01234567-89ab-cdef-0123-456789abcdef"), Some(id));
    assert_eq!(job_id_from_text("01234567-89AB-CDEF-0123-456789ABCDEF"), None);
    assert_eq!(job_id_from_text("0123456789abcdef0123456789abcdef"), None);
    assert_eq!(job_id_from_text("{01234567-89ab-cdef-0123-456789abcdef}"), None);
    assert_eq!(job_id_from_text("nope"), None);
}
