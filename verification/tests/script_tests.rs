use oneshell::scripts::{
    build_local_runner, build_remote_command, command_for_script, execution_result,
    is_supported_script, render_command, script_kind, shell_quote, ScriptError, ScriptFile,
    ScriptWorkspace,
};

#[test]
fn script_kind_follows_the_extension() {
    assert_eq!(script_kind("/root/NexusScripts/deploy.py"), "python");
    assert_eq!(script_kind("/root/NexusScripts/a/b/run.sh"), "shell");
    assert_eq!(script_kind("/root/NexusScripts/notes.txt"), "unknown");
    assert_eq!(script_kind("/root/NexusScripts/.sh"), "unknown");
    assert_eq!(script_kind("/root/NexusScripts/archive.tar.sh"), "shell");
    assert_eq!(script_kind("/root/NexusScripts/py"), "unknown");
}

#[test]
fn only_py_and_sh_are_supported() {
    assert!(is_supported_script("/w/x.py"));
    assert!(is_supported_script("/w/x.sh"));
    assert!(!is_supported_script("/w/x.rb"));
    assert!(!is_supported_script("/w/x.PY"));
    assert!(!is_supported_script("/w/dir.py/file"));
}

#[test]
fn interpreter_per_kind() {
    let (p, base) = command_for_script("/w/a.py").ok().unwrap();
    assert_eq!(p, "python3");
    assert!(base.is_empty());
    let (p, _) = command_for_script("/w/a.sh").ok().unwrap();
    assert_eq!(p, "bash");
    assert!(matches!(command_for_script("/w/a.txt"), Err(ScriptError::UnsupportedType)));
}

#[test]
fn shell_quote_cases() {
    assert_eq!(shell_quote(""), "''");
    assert_eq!(shell_quote("/usr/local/bin/run-1.sh"), "/usr/local/bin/run-1.sh");
    assert_eq!(shell_quote("host:22"), "host:22");
    assert_eq!(shell_quote("a b"), "'a b'");
    assert_eq!(shell_quote("it's"), "'it'\"'\"'s'");
    assert_eq!(shell_quote("$HOME"), "'$HOME'");
    assert_eq!(shell_quote("中文"), "'中文'");
}

#[test]
fn remote_command_wraps_content_in_a_heredoc() {
    assert_eq!(
        build_remote_command("python", "print(1)\n\n"),
        "python3 - <<'PY'\nprint(1)\nPY"
    );
    assert_eq!(
        build_remote_command("shell", "echo hi\n"),
        "bash -s <<'SH'\necho hi\nSH"
    );
    assert_eq!(build_remote_command("unknown", "raw\n"), "raw\n");
}

#[test]
fn local_runner_quotes_the_path() {
    assert_eq!(build_local_runner("/w/a.py"), "python3 /w/a.py");
    assert_eq!(build_local_runner("/w/my script.sh"), "bash '/w/my script.sh'");
}

#[test]
fn rendered_command_quotes_target_and_arguments() {
    let args = vec!["plain".to_string(), "two words".to_string(), String::new()];
    assert_eq!(
        render_command("python3", &Vec::new(), "/w/a b.py", &args),
        "python3 '/w/a b.py' plain 'two words' ''"
    );
    assert_eq!(render_command("bash", &vec!["-x".to_string()], "/w/s.sh", &Vec::new()), "bash -x /w/s.sh");
}

#[test]
fn resolve_accepts_scripts_inside_the_root() {
    let ws = ScriptWorkspace::new("/home/u/NexusScripts".to_string());
    assert_eq!(ws.candidate_path("tools/a.py"), "/home/u/NexusScripts/tools/a.py");
    assert_eq!(ws.candidate_path("/etc/passwd"), "/etc/passwd");
    let r = ws.resolve_script_path(
        "tools/a.py",
        Some("/home/u/NexusScripts/tools/a.py".to_string()),
        Some("/home/u/NexusScripts".to_string()),
    );
    assert_eq!(r.ok().unwrap(), "/home/u/NexusScripts/tools/a.py");
}

#[test]
fn resolve_errors() {
    let ws = ScriptWorkspace::new("/home/u/NexusScripts".to_string());
    let root = Some("/home/u/NexusScripts".to_string());
    match ws.resolve_script_path("missing.py", None, root.clone()) {
        Err(ScriptError::NotFound(p)) => assert_eq!(p, "/home/u/NexusScripts/missing.py"),
        _ => panic!("expected NotFound"),
    }
    match ws.resolve_script_path("a.py", Some("/home/u/NexusScripts/a.py".to_string()), None) {
        Err(e) => assert_eq!(e.message(), "failed to canonicalize script workspace root: /home/u/NexusScripts"),
        _ => panic!("expected RootUnavailable"),
    }
    assert!(matches!(
        ws.resolve_script_path("../x.py", Some("/home/u/x.py".to_string()), root.clone()),
        Err(ScriptError::EscapesRoot)
    ));
    assert!(matches!(
        ws.resolve_script_path("x.py", Some("/home/u/NexusScriptsEvil/x.py".to_string()), root.clone()),
        Err(ScriptError::EscapesRoot)
    ));
    assert!(matches!(
        ws.resolve_script_path("notes.txt", Some("/home/u/NexusScripts/notes.txt".to_string()), root),
        Err(ScriptError::UnsupportedType)
    ));
    assert_eq!(ScriptError::EscapesRoot.message(), "script path escapes workspace root");
    assert_eq!(ScriptError::UnsupportedType.message(), "unsupported script type");
    assert_eq!(ScriptError::NotFound("/x".to_string()).message(), "script path not found: /x");
}

#[test]
fn summary_of_a_script() {
    let ws = ScriptWorkspace::new("/home/u/NexusScripts".to_string());
    let s = ws.build_summary("/home/u/NexusScripts/ops/deploy.sh", 120, Some(1700000000));
    assert_eq!(s.id, "ops/deploy.sh");
    assert_eq!(s.relative_path, "ops/deploy.sh");
    assert_eq!(s.name, "deploy.sh");
    assert_eq!(s.path, "/home/u/NexusScripts/ops/deploy.sh");
    assert_eq!(s.kind, "shell");
    assert_eq!(s.size_bytes, 120);
    assert_eq!(s.modified_at, 1700000000);
    let outside = ws.build_summary("/private/home/u/NexusScripts/a.py", 1, None);
    assert_eq!(outside.relative_path, "/private/home/u/NexusScripts/a.py");
    assert_eq!(outside.modified_at, 0);
}

#[test]
fn listing_keeps_scripts_only_in_relative_path_order() {
    let ws = ScriptWorkspace::new("/r".to_string());
    let file = |p: &str| ScriptFile { path: p.to_string(), size_bytes: 1, modified_secs: None };
    let listed = ws.list_scripts(vec![
        file("/r/zeta.sh"),
        file("/r/readme.md"),
        file("/r/b/alpha.py"),
        file("/r/Alpha.py"),
        file("/r/a.py"),
    ]);
    let order: Vec<&str> = listed.iter().map(|s| s.relative_path.as_str()).collect();
    assert_eq!(order, vec!["Alpha.py", "a.py", "b/alpha.py", "zeta.sh"]);
}

#[test]
fn detail_of_a_script() {
    let ws = ScriptWorkspace::new("/r".to_string());
    let d = ws.script_detail("/r/x.py", 9, Some(5), "print(1)\n".to_string());
    assert_eq!(d.summary.name, "x.py");
    assert_eq!(d.content, "print(1)\n");
    assert_eq!(d.suggested_remote_command, "python3 - <<'PY'\nprint(1)\nPY");
    assert_eq!(d.local_runner, "python3 /r/x.py");
}

#[test]
fn local_run_plan_for_a_script() {
    let ws = ScriptWorkspace::new("/r".to_string());
    let plan = ws
        .local_run_plan("/r/x y.sh", Some(vec!["--flag".to_string(), "a b".to_string()]))
        .ok()
        .unwrap();
    assert_eq!(plan.program, "bash");
    assert_eq!(plan.args, vec!["/r/x y.sh".to_string(), "--flag".to_string(), "a b".to_string()]);
    assert_eq!(plan.current_dir, "/r");
    assert_eq!(plan.command, "bash '/r/x y.sh' --flag 'a b'");
    assert!(ws.local_run_plan("/r/x.txt", None).is_err());
}

#[test]
fn execution_result_defaults_exit_code() {
    let r = execution_result("cmd".to_string(), None, "out".to_string(), "err".to_string());
    assert_eq!(r.exit_code, -1);
    assert_eq!(r.stdout, "out");
    let r = execution_result("cmd".to_string(), Some(3), String::new(), String::new());
    assert_eq!(r.exit_code, 3);
}
