//! Where the worker lives: its root directory, its entry point and the
//! interpreter that runs it.
//!
//! The host looks at the environment and the disk and reports what it saw; the
//! rules that turn the report into a resolution are here. Nothing is cached: a
//! resolution is made anew for every spawn, so a changed environment takes
//! effect on the next restart.

use crate::error::{SupervisorError, SupervisorErrorView};
use vstd::prelude::*;
use vstd::string::*;

verus! {

/// How many directories the upward walk looks at, the working directory
/// included.
pub const MAX_WALK_LEVELS: usize = 5;

/// The environment variable that names the root outright.
pub const ROOT_VARIABLE: &'static str = "NAI_ROOT";

/// The environment variable that names the interpreter outright.
pub const INTERPRETER_VARIABLE: &'static str = "NAI_PYTHON";

/// The subdirectory whose presence marks a directory as the root.
pub const MARKER_DIR: &'static str = "sidecar";

/// The entry point's file name, inside the marker directory.
pub const ENTRY_FILE: &'static str = "main.py";

/// The path of a root's own interpreter, from the root down.
pub const VENV_DIR: &'static str = "venv";

pub const VENV_BIN_DIR: &'static str = "Scripts";

pub const VENV_INTERPRETER_FILE: &'static str = "python.exe";

/// The interpreter that the operating system is left to find.
pub const FALLBACK_INTERPRETER: &'static str = "python";

/// One directory of the upward walk, and whether it holds the marker.
#[derive(Debug, PartialEq, Eq)]
pub struct RootProbe {
    pub dir: String,
    pub has_marker: bool,
}

/// What the host saw when asked where the root is: the override, if the
/// variable is set, and the working directory followed by its ancestors,
/// nearest first.
#[derive(Debug, PartialEq, Eq)]
pub struct RootSurvey {
    pub root_override: Option<String>,
    pub ancestors: Vec<RootProbe>,
}

/// What the host saw under a root: the entry point's path and whether it is on
/// disk, the interpreter override, if the variable is set, and the path of the
/// root's own virtual-environment interpreter and whether that is on disk.
#[derive(Debug, PartialEq, Eq)]
pub struct Layout {
    pub entry_point: String,
    pub entry_exists: bool,
    pub interpreter_override: Option<String>,
    pub venv_interpreter: String,
    pub venv_exists: bool,
}

/// A worker that can be launched.
#[derive(Debug, PartialEq, Eq)]
pub struct RootResolution {
    pub root_dir: String,
    pub entry_point: String,
    pub interpreter: String,
}

/// The mathematical value of a [`RootResolution`].
pub ghost struct RootResolutionView {
    pub root_dir: Seq<char>,
    pub entry_point: Seq<char>,
    pub interpreter: Seq<char>,
}

impl View for RootResolution {
    type V = RootResolutionView;

    open spec fn view(&self) -> RootResolutionView {
        RootResolutionView {
            root_dir: self.root_dir@,
            entry_point: self.entry_point@,
            interpreter: self.interpreter@,
        }
    }
}

/// How the worker process is started. Its three standard streams are always
/// piped.
#[derive(Debug, PartialEq, Eq)]
pub struct LaunchPlan {
    pub program: String,
    pub argument: String,
    pub working_dir: String,
    pub environment: Vec<(String, String)>,
}

/// The mathematical value of a [`LaunchPlan`].
pub ghost struct LaunchPlanView {
    pub program: Seq<char>,
    pub argument: Seq<char>,
    pub working_dir: Seq<char>,
    pub environment: Seq<(Seq<char>, Seq<char>)>,
}

impl View for LaunchPlan {
    type V = LaunchPlanView;

    open spec fn view(&self) -> LaunchPlanView {
        LaunchPlanView {
            program: self.program@,
            argument: self.argument@,
            working_dir: self.working_dir@,
            environment: self.environment@.map_values(|pair: (String, String)| (pair.0@, pair.1@)),
        }
    }
}

/// The first directory with the marker among those that the walk reaches from
/// position `from` on.
pub open spec fn walk_from(ancestors: Seq<RootProbe>, from: int) -> Option<Seq<char>>
    decreases ancestors.len() - from,
{
    if from < 0 || from >= ancestors.len() || from >= MAX_WALK_LEVELS {
        None
    } else if ancestors[from].has_marker {
        Some(ancestors[from].dir@)
    } else {
        walk_from(ancestors, from + 1)
    }
}

/// The root that a survey gives: the override as it stands, whether or not it
/// exists; without one, the nearest directory with the marker within the walk.
pub open spec fn root_of(survey: RootSurvey) -> Option<Seq<char>> {
    match survey.root_override {
        Some(root) => Some(root@),
        None => walk_from(survey.ancestors@, 0),
    }
}

/// The interpreter that a layout gives: the override, else the root's own
/// virtual environment if it is there, else the bare command.
pub open spec fn interpreter_of(layout: Layout) -> Seq<char> {
    match layout.interpreter_override {
        Some(path) => path@,
        None => if layout.venv_exists {
            layout.venv_interpreter@
        } else {
            FALLBACK_INTERPRETER@
        },
    }
}

/// The resolution of a root and its layout, or why there is none.
pub open spec fn resolution_of(root: Seq<char>, layout: Layout) -> Result<
    RootResolutionView,
    SupervisorErrorView,
> {
    if layout.entry_exists {
        Ok(
            RootResolutionView {
                root_dir: root,
                entry_point: layout.entry_point@,
                interpreter: interpreter_of(layout),
            },
        )
    } else {
        Err(SupervisorErrorView::EntryPointMissing { path: layout.entry_point@ })
    }
}

/// The launch of a resolved worker: the interpreter runs the entry point in the
/// root, with text input and output forced to UTF-8.
pub open spec fn plan_of(resolution: RootResolutionView) -> LaunchPlanView {
    LaunchPlanView {
        program: resolution.interpreter,
        argument: resolution.entry_point,
        working_dir: resolution.root_dir,
        environment: seq![("PYTHONIOENCODING"@, "utf-8"@), ("PYTHONUTF8"@, "1"@)],
    }
}

/// Picks the root from a survey, or fails with `RootNotFound` when there is no
/// override and the walk finds no marker.
pub fn resolve_root(survey: &RootSurvey) -> (result: Result<String, SupervisorError>)
    ensures
        match result {
            Ok(root) => root_of(*survey) == Some(root@),
            Err(error) => root_of(*survey) is None && error@ == SupervisorErrorView::RootNotFound,
        },
{
    match &survey.root_override {
        Some(root) => Ok(root.clone()),
        None => {
            let mut level: usize = 0;
            while level < survey.ancestors.len() && level < MAX_WALK_LEVELS
                invariant
                    level <= survey.ancestors.len(),
                    level <= MAX_WALK_LEVELS,
                    survey.root_override is None,
                    walk_from(survey.ancestors@, 0) == walk_from(survey.ancestors@, level as int),
                decreases survey.ancestors.len() - level,
            {
                let probe = &survey.ancestors[level];
                if probe.has_marker {
                    let root = probe.dir.clone();
                    return Ok(root);
                }
                level += 1;
            }
            Err(SupervisorError::RootNotFound)
        },
    }
}

/// Picks the interpreter from a layout.
pub fn resolve_interpreter(layout: &Layout) -> (interpreter: String)
    ensures
        interpreter@ == interpreter_of(*layout),
{
    match &layout.interpreter_override {
        Some(path) => path.clone(),
        None => if layout.venv_exists {
            layout.venv_interpreter.clone()
        } else {
            String::from_str(FALLBACK_INTERPRETER)
        },
    }
}

/// Resolves the worker under `root`, or fails with `EntryPointMissing` when the
/// entry point is not on disk.
pub fn resolve(root: String, layout: &Layout) -> (result: Result<RootResolution, SupervisorError>)
    ensures
        match result {
            Ok(resolution) => resolution_of(root@, *layout) == Ok::<
                RootResolutionView,
                SupervisorErrorView,
            >(resolution@),
            Err(error) => resolution_of(root@, *layout) == Err::<
                RootResolutionView,
                SupervisorErrorView,
            >(error@),
        },
{
    if layout.entry_exists {
        Ok(
            RootResolution {
                root_dir: root,
                entry_point: layout.entry_point.clone(),
                interpreter: resolve_interpreter(layout),
            },
        )
    } else {
        Err(SupervisorError::EntryPointMissing { path: layout.entry_point.clone() })
    }
}

/// The launch of a resolved worker.
pub fn launch_plan(resolution: RootResolution) -> (plan: LaunchPlan)
    ensures
        plan@ == plan_of(resolution@),
{
    let mut environment: Vec<(String, String)> = Vec::new();
    environment.push((String::from_str("PYTHONIOENCODING"), String::from_str("utf-8")));
    environment.push((String::from_str("PYTHONUTF8"), String::from_str("1")));
    let plan = LaunchPlan {
        program: resolution.interpreter,
        argument: resolution.entry_point,
        working_dir: resolution.root_dir,
        environment,
    };
    proof {
        assert(plan@.environment =~= plan_of(resolution@).environment);
    }
    plan
}

/// The walk finds a root exactly when one of the directories it reaches holds
/// the marker, and the root is then the nearest of them.
pub proof fn theorem_walk_finds_nearest(ancestors: Seq<RootProbe>, from: int)
    requires
        0 <= from,
    ensures
        match walk_from(ancestors, from) {
            Some(root) => exists|i: int|
                from <= i < ancestors.len() && i < MAX_WALK_LEVELS
                    && #[trigger] ancestors[i].has_marker && root == ancestors[i].dir@
                    && forall|j: int| from <= j < i ==> !(#[trigger] ancestors[j]).has_marker,
            None => forall|i: int|
                from <= i < ancestors.len() && i < MAX_WALK_LEVELS ==> !(
                #[trigger] ancestors[i]).has_marker,
        },
    decreases ancestors.len() - from,
{
    if from >= ancestors.len() || from >= MAX_WALK_LEVELS {
    } else if ancestors[from].has_marker {
    } else {
        theorem_walk_finds_nearest(ancestors, from + 1);
        match walk_from(ancestors, from + 1) {
            Some(root) => {
                let i = choose|i: int|
                    from + 1 <= i < ancestors.len() && i < MAX_WALK_LEVELS
                        && #[trigger] ancestors[i].has_marker && root == ancestors[i].dir@
                        && forall|j: int|
                        from + 1 <= j < i ==> !(#[trigger] ancestors[j]).has_marker;
                assert forall|j: int| from <= j < i implies !(#[trigger] ancestors[j]).has_marker by {
                    if j > from {
                    }
                }
            },
            None => {
                assert forall|i: int|
                    from <= i < ancestors.len() && i < MAX_WALK_LEVELS implies !(
                #[trigger] ancestors[i]).has_marker by {
                    if i > from {
                    }
                }
            },
        }
    }
}

} // verus!
