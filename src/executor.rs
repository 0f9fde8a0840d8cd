//! Planning the steps of a template: which checks, copies and commands
//! run, in which order, and the errors that end a run.
use vstd::prelude::*;
use crate::command::{command_lines, command_views, run_commands, CommandLine, CommandView};
use crate::environment::Environment;
use crate::paths::{join_path, joined};
use crate::substitution::{expand, expand_variables};
use crate::template::{gate_open, Step};

verus! {

/// One thing to do while materializing a project.
#[derive(Debug)]
pub enum Action {
    /// A step starts; every step announces itself, run or skipped.
    Begin { name: String },
    /// The command must be installed; if it is not, the run fails with
    /// `message`.
    Check { program: String, message: String },
    /// Read `source`, substitute its placeholders, and write the result to
    /// `destination`, creating its parent directories.
    Copy { source: String, destination: String },
    /// Run a command in the project directory.
    Run { command: CommandLine },
}

/// What an action holds, as text.
pub enum ActionView {
    Begin { name: Seq<char> },
    Check { program: Seq<char>, message: Seq<char> },
    Copy { source: Seq<char>, destination: Seq<char> },
    Run { command: CommandView },
}

impl View for Action {
    type V = ActionView;

    open spec fn view(&self) -> ActionView {
        match self {
            Action::Begin { name } => ActionView::Begin { name: name@ },
            Action::Check { program, message } => ActionView::Check {
                program: program@,
                message: message@,
            },
            Action::Copy { source, destination } => ActionView::Copy {
                source: source@,
                destination: destination@,
            },
            Action::Run { command } => ActionView::Run { command: command@ },
        }
    }
}

/// The views of a sequence of actions.
pub open spec fn action_views(v: Seq<Action>) -> Seq<ActionView> {
    v.map_values(|a: Action| a@)
}

/// The message given when a step's checked command is missing: the
/// step's own message if it has one.
pub open spec fn missing_message(step: Step, command: Seq<char>) -> Seq<char> {
    match step.error {
        Some(e) => e@,
        None => command + " is not installed"@,
    }
}

/// The check of a step, if it has one.
pub open spec fn check_actions(step: Step) -> Seq<ActionView> {
    match step.check {
        Some(c) => seq![ActionView::Check { program: c@, message: missing_message(step, c@) }],
        None => seq![],
    }
}

/// The copy of a step, if it has one: the source is taken relative to the
/// template directory, the destination (after substitution) relative to
/// the project directory.
pub open spec fn copy_actions(
    step: Step,
    env: Map<Seq<char>, Seq<char>>,
    template_dir: Seq<char>,
    project_dir: Seq<char>,
) -> Seq<ActionView> {
    match step.copy {
        Some(c) => seq![
            ActionView::Copy {
                source: joined(template_dir, c.from@),
                destination: joined(project_dir, expand(c.to@, env)),
            },
        ],
        None => seq![],
    }
}

/// The commands of a step, one per line that holds a token.
pub open spec fn run_actions(step: Step, env: Map<Seq<char>, Seq<char>>) -> Seq<ActionView> {
    match step.run {
        Some(r) => run_commands(r@, env).map_values(|c: CommandView| ActionView::Run { command: c }),
        None => seq![],
    }
}

/// The actions of one step: it announces itself; when its conditions
/// pass, its check, copy and commands follow in that order.
pub open spec fn step_actions(
    step: Step,
    env: Map<Seq<char>, Seq<char>>,
    template_dir: Seq<char>,
    project_dir: Seq<char>,
) -> Seq<ActionView> {
    let begin = seq![ActionView::Begin { name: step.name@ }];
    if gate_open(step.if_condition, step.if_not, env) {
        begin + check_actions(step) + copy_actions(step, env, template_dir, project_dir)
            + run_actions(step, env)
    } else {
        begin
    }
}

/// The actions of all steps, in declaration order.
pub open spec fn plan(
    steps: Seq<Step>,
    env: Map<Seq<char>, Seq<char>>,
    template_dir: Seq<char>,
    project_dir: Seq<char>,
) -> Seq<ActionView>
    decreases steps.len(),
{
    if steps.len() == 0 {
        seq![]
    } else {
        plan(steps.drop_last(), env, template_dir, project_dir) + step_actions(
            steps.last(),
            env,
            template_dir,
            project_dir,
        )
    }
}

/// A step whose `if` condition fails, or whose `if-not` condition holds,
/// only announces itself: it checks, copies and runs nothing.
pub proof fn lemma_closed_gate_skips_step(
    step: Step,
    env: Map<Seq<char>, Seq<char>>,
    template_dir: Seq<char>,
    project_dir: Seq<char>,
)
    requires
        !gate_open(step.if_condition, step.if_not, env),
    ensures
        step_actions(step, env, template_dir, project_dir) == seq![
            ActionView::Begin { name: step.name@ },
        ],
{
}

/// The environment of a run: the resolved variables with `project_dir`
/// bound to the project's directory.
pub fn with_project_dir(variables: Environment, project_dir: &str) -> (r: Environment)
    ensures
        r@ == variables@.insert("project_dir"@, project_dir@),
{
    let mut r = variables;
    r.insert(String::from_str("project_dir"), String::from_str(project_dir));
    r
}

fn push_step_actions(
    out: &mut Vec<Action>,
    step: &Step,
    variables: &Environment,
    template_dir: &str,
    project_dir: &str,
)
    ensures
        action_views(final(out)@) == action_views(old(out)@) + step_actions(
            *step,
            variables@,
            template_dir@,
            project_dir@,
        ),
{
    let ghost start = action_views(out@);
    out.push(Action::Begin { name: step.name.clone() });
    assert(action_views(out@) =~= start + seq![ActionView::Begin { name: step.name@ }]);
    if !step.is_enabled(variables) {
        return ;
    }
    let ghost begun = action_views(out@);
    match &step.check {
        Some(c) => {
            let message = match &step.error {
                Some(e) => e.clone(),
                None => {
                    let mut m = c.clone();
                    m.append(" is not installed");
                    m
                },
            };
            out.push(Action::Check { program: c.clone(), message });
        },
        None => {},
    }
    assert(action_views(out@) =~= begun + check_actions(*step));
    let ghost checked = action_views(out@);
    match &step.copy {
        Some(c) => {
            let source = join_path(template_dir, c.from.as_str());
            let to = expand_variables(c.to.as_str(), variables);
            let destination = join_path(project_dir, to.as_str());
            out.push(Action::Copy { source, destination });
        },
        None => {},
    }
    assert(action_views(out@) =~= checked + copy_actions(
        *step,
        variables@,
        template_dir@,
        project_dir@,
    ));
    let ghost copied = action_views(out@);
    match &step.run {
        Some(run) => {
            let mut commands = command_lines(run.as_str(), variables);
            let ghost all = command_views(commands@);
            let ghost runs = all.map_values(|c: CommandView| ActionView::Run { command: c });
            let mut k: usize = 0;
            let n = commands.len();
            while k < n
                invariant
                    n == all.len(),
                    k <= n,
                    commands.len() == n - k,
                    forall|m: int| 0 <= m < n - k ==> (#[trigger] commands@[m])@ == all[m + k],
                    runs == all.map_values(|c: CommandView| ActionView::Run { command: c }),
                    action_views(out@) == copied + runs.take(k as int),
                decreases n - k,
            {
                let command = commands.remove(0);
                let ghost before = action_views(out@);
                out.push(Action::Run { command });
                assert(action_views(out@) =~= before.push(ActionView::Run { command: all[k as int] }));
                assert(runs.take(k + 1) =~= runs.take(k as int).push(runs[k as int]));
                k = k + 1;
            }
            assert(runs.take(n as int) =~= runs);
        },
        None => {
            assert(action_views(out@) =~= copied + run_actions(*step, variables@));
        },
    }
}

/// Plans a run: the actions of every step in declaration order, under
/// the given environment, template directory and project directory.
pub fn plan_steps(
    steps: &Vec<Step>,
    variables: &Environment,
    template_dir: &str,
    project_dir: &str,
) -> (r: Vec<Action>)
    ensures
        action_views(r@) == plan(steps@, variables@, template_dir@, project_dir@),
{
    let mut r: Vec<Action> = Vec::new();
    let mut i: usize = 0;
    while i < steps.len()
        invariant
            i <= steps.len(),
            action_views(r@) == plan(steps@.take(i as int), variables@, template_dir@, project_dir@),
        decreases steps.len() - i,
    {
        proof {
            assert(steps@.take(i + 1).drop_last() =~= steps@.take(i as int));
        }
        push_step_actions(&mut r, &steps[i], variables, template_dir, project_dir);
        i = i + 1;
    }
    assert(steps@.take(steps.len() as int) =~= steps@);
    r
}

/// What ends a run.
#[derive(Debug)]
pub enum StepError {
    /// A step's checked command is not installed.
    MissingCommand { message: String },
    /// The source of a copy could not be read.
    ReadFailed { path: String, reason: String },
    /// The destination of a copy could not be written.
    WriteFailed { path: String, reason: String },
    /// A command could not be started or did not succeed.
    CommandFailed { command: String, reason: String },
}

/// The text of an error.
pub open spec fn error_text(e: StepError) -> Seq<char> {
    match e {
        StepError::MissingCommand { message } => message@,
        StepError::ReadFailed { path, reason } => "Failed to read template file '"@ + path@
            + "': "@ + reason@,
        StepError::WriteFailed { path, reason } => "Failed to write file '"@ + path@ + "': "@
            + reason@,
        StepError::CommandFailed { command, reason } => "Failed to run command '"@ + command@
            + "': "@ + reason@,
    }
}

impl StepError {
    /// The error as one line of text.
    pub fn message(&self) -> (r: String)
        ensures
            r@ == error_text(*self),
    {
        match self {
            StepError::MissingCommand { message } => message.clone(),
            StepError::ReadFailed { path, reason } => {
                let mut r = String::from_str("Failed to read template file '");
                r.append(path.as_str());
                r.append("': ");
                r.append(reason.as_str());
                r
            },
            StepError::WriteFailed { path, reason } => {
                let mut r = String::from_str("Failed to write file '");
                r.append(path.as_str());
                r.append("': ");
                r.append(reason.as_str());
                r
            },
            StepError::CommandFailed { command, reason } => {
                let mut r = String::from_str("Failed to run command '");
                r.append(command.as_str());
                r.append("': ");
                r.append(reason.as_str());
                r
            },
        }
    }
}

} // verus!
