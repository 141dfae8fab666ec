use sidecar_bridge::error::SupervisorError;
use sidecar_bridge::resolver::{
    launch_plan, resolve, resolve_interpreter, resolve_root, LaunchPlan, Layout, RootProbe,
    RootResolution, RootSurvey, ENTRY_FILE, FALLBACK_INTERPRETER, INTERPRETER_VARIABLE,
    MARKER_DIR, MAX_WALK_LEVELS, ROOT_VARIABLE, VENV_BIN_DIR, VENV_DIR, VENV_INTERPRETER_FILE,
};

fn probe(dir: &str, has_marker: bool) -> RootProbe {
    RootProbe { dir: dir.to_string(), has_marker }
}

fn walk(marks: &[bool]) -> RootSurvey {
    let mut ancestors = Vec::new();
    for (level, mark) in marks.iter().enumerate() {
        ancestors.push(probe(&format!("/level{}", level), *mark));
    }
    RootSurvey { root_override: None, ancestors }
}

fn layout(entry_exists: bool, interpreter: Option<&str>, venv_exists: bool) -> Layout {
    Layout {
        entry_point: "/proj/sidecar/main.py".to_string(),
        entry_exists,
        interpreter_override: interpreter.map(|path| path.to_string()),
        venv_interpreter: "/proj/venv/Scripts/python.exe".to_string(),
        venv_exists,
    }
}

#[test]
fn names_of_the_configuration() {
    assert_eq!(MAX_WALK_LEVELS, 5);
    assert_eq!(ROOT_VARIABLE, "NAI_ROOT");
    assert_eq!(INTERPRETER_VARIABLE, "NAI_PYTHON");
    assert_eq!(MARKER_DIR, "sidecar");
    assert_eq!(ENTRY_FILE, "main.py");
    assert_eq!(FALLBACK_INTERPRETER, "python");
    assert_eq!(VENV_DIR, "venv");
    assert_eq!(VENV_BIN_DIR, "Scripts");
    assert_eq!(VENV_INTERPRETER_FILE, "python.exe");
}

#[test]
fn override_is_trusted_without_a_look_at_the_disk() {
    let survey = RootSurvey { root_override: Some("/nowhere".to_string()), ancestors: vec![] };
    assert_eq!(resolve_root(&survey), Ok("/nowhere".to_string()));
}

#[test]
fn override_wins_over_the_walk() {
    let survey = RootSurvey {
        root_override: Some("/chosen".to_string()),
        ancestors: vec![probe("/cwd", true)],
    };
    assert_eq!(resolve_root(&survey), Ok("/chosen".to_string()));
}

#[test]
fn walk_takes_the_working_directory_if_marked() {
    assert_eq!(resolve_root(&walk(&[true, true])), Ok("/level0".to_string()));
}

#[test]
fn walk_takes_the_nearest_marked_ancestor() {
    assert_eq!(resolve_root(&walk(&[false, false, true, true])), Ok("/level2".to_string()));
}

#[test]
fn walk_reaches_the_fifth_directory() {
    assert_eq!(
        resolve_root(&walk(&[false, false, false, false, true])),
        Ok("/level4".to_string())
    );
}

#[test]
fn walk_does_not_reach_the_sixth_directory() {
    assert_eq!(
        resolve_root(&walk(&[false, false, false, false, false, true])),
        Err(SupervisorError::RootNotFound)
    );
}

#[test]
fn walk_without_a_marker_fails_with_root_not_found() {
    assert_eq!(resolve_root(&walk(&[false, false, false])), Err(SupervisorError::RootNotFound));
}

#[test]
fn walk_over_no_directory_fails_with_root_not_found() {
    assert_eq!(resolve_root(&walk(&[])), Err(SupervisorError::RootNotFound));
}

#[test]
fn interpreter_override_wins() {
    assert_eq!(resolve_interpreter(&layout(true, Some("/opt/py"), true)), "/opt/py");
}

#[test]
fn interpreter_of_the_virtual_environment_is_next() {
    assert_eq!(resolve_interpreter(&layout(true, None, true)), "/proj/venv/Scripts/python.exe");
}

#[test]
fn interpreter_falls_back_to_the_bare_command() {
    assert_eq!(resolve_interpreter(&layout(true, None, false)), "python");
}

#[test]
fn resolve_fails_when_the_entry_point_is_missing() {
    assert_eq!(
        resolve("/proj".to_string(), &layout(false, Some("/opt/py"), true)),
        Err(SupervisorError::EntryPointMissing { path: "/proj/sidecar/main.py".to_string() })
    );
}

#[test]
fn resolve_gives_root_entry_point_and_interpreter() {
    assert_eq!(
        resolve("/proj".to_string(), &layout(true, None, false)),
        Ok(RootResolution {
            root_dir: "/proj".to_string(),
            entry_point: "/proj/sidecar/main.py".to_string(),
            interpreter: "python".to_string(),
        })
    );
}

#[test]
fn launch_plan_runs_the_entry_point_in_the_root() {
    let plan = launch_plan(RootResolution {
        root_dir: "/proj".to_string(),
        entry_point: "/proj/sidecar/main.py".to_string(),
        interpreter: "/opt/py".to_string(),
    });
    assert_eq!(
        plan,
        LaunchPlan {
            program: "/opt/py".to_string(),
            argument: "/proj/sidecar/main.py".to_string(),
            working_dir: "/proj".to_string(),
            environment: vec![
                ("PYTHONIOENCODING".to_string(), "utf-8".to_string()),
                ("PYTHONUTF8".to_string(), "1".to_string()),
            ],
        }
    );
}

#[test]
fn error_messages() {
    assert_eq!(
        SupervisorError::RootNotFound.message(),
        "cannot resolve project root (set NAI_ROOT)"
    );
    assert_eq!(
        SupervisorError::EntryPointMissing { path: "/p/sidecar/main.py".to_string() }.message(),
        "sidecar not found: /p/sidecar/main.py"
    );
    assert_eq!(
        SupervisorError::SpawnFailed { reason: "no such file".to_string() }.message(),
        "failed to spawn sidecar: no such file"
    );
    assert_eq!(
        SupervisorError::WriteFailed { reason: "broken pipe".to_string() }.message(),
        "failed to write to sidecar: broken pipe"
    );
    assert_eq!(
        SupervisorError::WaitFailed { reason: "interrupted".to_string() }.message(),
        "failed to wait for sidecar: interrupted"
    );
    assert_eq!(SupervisorError::OutOfTurn.message(), "sidecar host answered out of turn");
}
