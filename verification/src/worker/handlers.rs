//! The script handlers of a worker with a working directory of its own, and the messages of their
//! failures.

use vstd::prelude::*;
use vstd::string::*;
use crate::text::{lossy_text, outcome, Text};
use crate::worker::config::{handlers_added, register_scripts, script_handler, BuiltinHandler};
use crate::worker::handler::{finish_program, program_result, ProgramOutput};
use crate::worker::registry::ActivityRegistry;

verus! {

/// Register all known activity handlers, with scripts at fixed paths and a working directory.
pub fn register_default_handlers(registry: &mut ActivityRegistry<BuiltinHandler>, workdir: &str)
    requires
        old(registry).wf(),
    ensures
        final(registry).wf(),
        handlers_added(
            old(registry).registered(),
            final(registry).registered(),
            |name: Text| script_handler(name, "/home/waymore"@, workdir@),
        ),
{
    register_scripts(registry, "/home/waymore", workdir);
}

/// The result of a shell script that has ended.
pub fn finish_shell_script(output: &ProgramOutput) -> (r: Result<String, String>)
    ensures
        outcome(r) == program_result(
            "Script failed with exit code "@,
            output.success,
            output.code,
            lossy_text(output.stdout@),
            lossy_text(output.stderr@),
        ),
{
    finish_program("Script failed with exit code ", output)
}

/// The result of a Python script that has ended.
pub fn finish_python_script(output: &ProgramOutput) -> (r: Result<String, String>)
    ensures
        outcome(r) == program_result(
            "Python script failed with exit code "@,
            output.success,
            output.code,
            lossy_text(output.stdout@),
            lossy_text(output.stderr@),
        ),
{
    finish_program("Python script failed with exit code ", output)
}

} // verus!
