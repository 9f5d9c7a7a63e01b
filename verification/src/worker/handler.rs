//! Activity handlers: what a handler wants done for a task, and what is made of its output.

use vstd::prelude::*;
use vstd::string::*;
use crate::activity::{ActivityTask, ActivityTaskView};
use crate::text::{concat2, concat3, decimal, decimal_text, lossy, lossy_text, outcome, Text};

verus! {

/// What a handler wants done for a task: a program to run, or nothing more.
#[derive(Debug)]
pub enum Plan {
    /// Run a program with arguments in a directory.
    Run { program: String, args: Vec<String>, workdir: String },
    /// The task is done with this output.
    Done { output: String },
}

/// The view of a [`Plan`].
#[verifier::ext_equal]
pub enum PlanView {
    Run { program: Text, args: Seq<Text>, workdir: Text },
    Done { output: Text },
}

impl DeepView for Plan {
    type V = PlanView;

    open spec fn deep_view(&self) -> PlanView {
        match self {
            Plan::Run { program, args, workdir } => PlanView::Run {
                program: program@,
                args: args.deep_view(),
                workdir: workdir@,
            },
            Plan::Done { output } => PlanView::Done { output: output@ },
        }
    }
}

/// Black-box activity handler interface.
pub trait ActivityHandler {
    /// What the handler wants done for a task.
    spec fn planned(&self, task: ActivityTaskView) -> PlanView;

    /// What the handler wants done for a task.
    fn plan(&self, task: &ActivityTask) -> (r: Plan)
        ensures
            r.deep_view() == self.planned(task.deep_view()),
    ;
}

/// Executes a shell script via `bash -c`.
#[derive(Debug)]
pub struct ScriptHandler {
    pub script_path: String,
    pub workdir: String,
}

impl ActivityHandler for ScriptHandler {
    open spec fn planned(&self, task: ActivityTaskView) -> PlanView {
        PlanView::Run {
            program: "bash"@,
            args: seq!["-c"@, self.script_path@],
            workdir: self.workdir@,
        }
    }

    fn plan(&self, task: &ActivityTask) -> (r: Plan) {
        let mut args: Vec<String> = Vec::new();
        args.push("-c".to_owned());
        args.push(self.script_path.clone());
        proof {
            assert(args.deep_view() =~= seq!["-c"@, self.script_path@]);
        }
        Plan::Run { program: "bash".to_owned(), args, workdir: self.workdir.clone() }
    }
}

/// Executes a Python script via `python3`.
#[derive(Debug)]
pub struct PythonHandler {
    pub script_path: String,
    pub workdir: String,
}

impl ActivityHandler for PythonHandler {
    open spec fn planned(&self, task: ActivityTaskView) -> PlanView {
        PlanView::Run {
            program: "python3"@,
            args: seq![self.script_path@],
            workdir: self.workdir@,
        }
    }

    fn plan(&self, task: &ActivityTask) -> (r: Plan) {
        let mut args: Vec<String> = Vec::new();
        args.push(self.script_path.clone());
        proof {
            assert(args.deep_view() =~= seq![self.script_path@]);
        }
        Plan::Run { program: "python3".to_owned(), args, workdir: self.workdir.clone() }
    }
}

/// Always succeeds with a fixed message. Useful for end-to-end verification.
#[derive(Debug)]
pub struct DummyHandler;

impl ActivityHandler for DummyHandler {
    open spec fn planned(&self, task: ActivityTaskView) -> PlanView {
        PlanView::Done { output: "Dummy result for activity "@ + task.name }
    }

    fn plan(&self, task: &ActivityTask) -> (r: Plan) {
        Plan::Done { output: concat2("Dummy result for activity ", task.name.as_str()) }
    }
}

// ---- output ---------------------------------------------------------------------------------

/// What a program left when it ended.
#[derive(Debug)]
pub struct ProgramOutput {
    pub success: bool,
    /// The exit code; none where a signal ended the program.
    pub code: Option<i32>,
    pub stdout: Vec<u8>,
    pub stderr: Vec<u8>,
}

/// An exit code as it is shown.
pub open spec fn code_shown(code: Option<i32>) -> Text {
    match code {
        Some(n) => if n < 0 {
            "Some(-"@ + decimal((-n) as nat) + ")"@
        } else {
            "Some("@ + decimal(n as nat) + ")"@
        },
        None => "None"@,
    }
}

fn show_code(code: Option<i32>) -> (r: String)
    ensures
        r@ == code_shown(code),
{
    match code {
        Some(n) => {
            if n < 0 {
                let digits: String = decimal_text((-(n as i64)) as u64);
                concat3("Some(-", digits.as_str(), ")")
            } else {
                let digits: String = decimal_text(n as u64);
                concat3("Some(", digits.as_str(), ")")
            }
        },
        None => "None".to_owned(),
    }
}

/// The result of a program: its output, or what it wrote as errors where it wrote no output; on
/// failure its exit code and what it wrote as errors, after `what`.
pub open spec fn program_result(
    what: Text,
    success: bool,
    code: Option<i32>,
    stdout: Text,
    stderr: Text,
) -> Result<Text, Text> {
    if success {
        Ok(
            if stdout.len() == 0 {
                stderr
            } else {
                stdout
            },
        )
    } else {
        Err(what + code_shown(code) + ": "@ + stderr)
    }
}

/// The result of a program that has ended.
pub fn finish_program(what: &str, output: &ProgramOutput) -> (r: Result<String, String>)
    ensures
        outcome(r) == program_result(
            what@,
            output.success,
            output.code,
            lossy_text(output.stdout@),
            lossy_text(output.stderr@),
        ),
{
    let stdout: String = lossy(&output.stdout);
    let stderr: String = lossy(&output.stderr);
    if output.success {
        if stdout.as_str().is_empty() {
            Ok(stderr)
        } else {
            Ok(stdout)
        }
    } else {
        let code: String = show_code(output.code);
        let head: String = concat3(what, code.as_str(), ": ");
        Err(concat2(head.as_str(), stderr.as_str()))
    }
}

/// The result of a script that has ended.
pub fn finish_script(output: &ProgramOutput) -> (r: Result<String, String>)
    ensures
        outcome(r) == program_result(
            "Exit code "@,
            output.success,
            output.code,
            lossy_text(output.stdout@),
            lossy_text(output.stderr@),
        ),
{
    finish_program("Exit code ", output)
}

/// The result of a script that could not be started.
pub fn fail_to_spawn(error: &str) -> (r: Result<String, String>)
    ensures
        outcome(r) == Err::<Text, Text>("Failed to spawn: "@ + error@),
{
    Err(concat2("Failed to spawn: ", error))
}

} // verus!
