//! Worker configuration, and the handlers that every worker has.

use vstd::prelude::*;
use vstd::string::*;
use crate::activity::{ActivityTask, ActivityTaskView};
use crate::text::{concat3, Text};
use crate::worker::handler::{ActivityHandler, DummyHandler, Plan, PlanView, PythonHandler, ScriptHandler};
use crate::worker::registry::ActivityRegistry;

verus! {

/// Worker configuration.
#[derive(Debug)]
pub struct WorkerConfig {
    pub server_url: String,
    pub task_queue: String,
    pub max_concurrent: usize,
}

impl Default for WorkerConfig {
    fn default() -> (r: WorkerConfig)
        ensures
            r.server_url@ == "127.0.0.1:50053"@,
            r.task_queue@ == "default"@,
            r.max_concurrent == 4,
    {
        WorkerConfig {
            server_url: "127.0.0.1:50053".to_owned(),
            task_queue: "default".to_owned(),
            max_concurrent: 4,
        }
    }
}

/// A worker with its configuration.
#[derive(Debug)]
pub struct Worker {
    pub config: WorkerConfig,
}

impl Worker {
    pub fn new(config: WorkerConfig) -> (r: Worker)
        ensures
            r.config == config,
    {
        Worker { config }
    }
}

/// One of the handlers that come with the worker.
#[derive(Debug)]
pub enum BuiltinHandler {
    Script(ScriptHandler),
    Python(PythonHandler),
    Dummy(DummyHandler),
}

/// The view of a [`BuiltinHandler`].
#[verifier::ext_equal]
pub enum BuiltinView {
    Script { script_path: Text, workdir: Text },
    Python { script_path: Text, workdir: Text },
    Dummy,
}

impl DeepView for BuiltinHandler {
    type V = BuiltinView;

    open spec fn deep_view(&self) -> BuiltinView {
        match self {
            BuiltinHandler::Script(h) => BuiltinView::Script {
                script_path: h.script_path@,
                workdir: h.workdir@,
            },
            BuiltinHandler::Python(h) => BuiltinView::Python {
                script_path: h.script_path@,
                workdir: h.workdir@,
            },
            BuiltinHandler::Dummy(_) => BuiltinView::Dummy,
        }
    }
}

impl ActivityHandler for BuiltinHandler {
    open spec fn planned(&self, task: ActivityTaskView) -> PlanView {
        match self {
            BuiltinHandler::Script(h) => h.planned(task),
            BuiltinHandler::Python(h) => h.planned(task),
            BuiltinHandler::Dummy(h) => h.planned(task),
        }
    }

    fn plan(&self, task: &ActivityTask) -> (r: Plan) {
        match self {
            BuiltinHandler::Script(h) => h.plan(task),
            BuiltinHandler::Python(h) => h.plan(task),
            BuiltinHandler::Dummy(h) => h.plan(task),
        }
    }
}

/// The shell script at a path below a directory, given without its extension, run in a directory.
pub open spec fn script_in(home: Text, path: Text, workdir: Text) -> BuiltinView {
    BuiltinView::Script { script_path: home + path + ".sh"@, workdir }
}

/// The Python script at a path below a directory, given without its extension, run in a directory.
pub open spec fn python_in(home: Text, path: Text, workdir: Text) -> BuiltinView {
    BuiltinView::Python { script_path: home + path + ".py"@, workdir }
}

pub(crate) fn make_script(home: &str, path: &str, workdir: &str) -> (r: BuiltinHandler)
    ensures
        r.deep_view() == script_in(home@, path@, workdir@),
{
    BuiltinHandler::Script(
        ScriptHandler { script_path: concat3(home, path, ".sh"), workdir: workdir.to_owned() },
    )
}

pub(crate) fn make_python(home: &str, path: &str, workdir: &str) -> (r: BuiltinHandler)
    ensures
        r.deep_view() == python_in(home@, path@, workdir@),
{
    BuiltinHandler::Python(
        PythonHandler { script_path: concat3(home, path, ".py"), workdir: workdir.to_owned() },
    )
}

/// The scripts that a name stands for, below a home directory and run in a directory.
pub open spec fn script_handler(name: Text, home: Text, workdir: Text) -> Option<BuiltinView> {
    if name == "lycus-mathlab-agent"@ {
        Some(
            python_in(
                home,
                "/Documents/AI_researched_math/mathLaboratory/laboratory_agent"@,
                workdir,
            ),
        )
    } else if name == "lycus-mathnexus-extract"@ {
        Some(
            python_in(
                home,
                "/Documents/AI_researched_math/mathNEXUS/extract_mindmap"@,
                workdir,
            ),
        )
    } else if name == "lycus-arxiv-factory"@ {
        Some(script_in(home, "/scripts/arxiv_factory"@, workdir))
    } else if name == "lycus-searxng-error-reactive"@ {
        Some(script_in(home, "/scripts/searxng_error_check"@, workdir))
    } else if name == "lycus-searxng-healthcheck"@ {
        Some(script_in(home, "/scripts/searxng_health_check"@, workdir))
    } else if name == "lycus-cron-notifier"@ {
        Some(script_in(home, "/scripts/cron_notifier"@, workdir))
    } else if name == "lycus-memory-condenser"@ {
        Some(python_in(home, "/scripts/memory_condenser"@, workdir))
    } else {
        None
    }
}

/// The handler that a name stands for by default, below a home directory.
pub open spec fn default_handler(name: Text, home: Text) -> Option<BuiltinView> {
    if name == "dummy-activity"@ {
        Some(BuiltinView::Dummy)
    } else {
        script_handler(name, home, home)
    }
}

/// A registry that has the added handlers, each under its name, and besides them what it had before.
pub open spec fn handlers_added(
    before: Map<Text, BuiltinHandler>,
    after: Map<Text, BuiltinHandler>,
    added: spec_fn(Text) -> Option<BuiltinView>,
) -> bool {
    forall|name: Text|
        #![trigger after.contains_key(name)]
        #![trigger after[name]]
        match added(name) {
            Some(view) => after.contains_key(name) && after[name].deep_view() == view,
            None => after.contains_key(name) == before.contains_key(name) && (before.contains_key(
                name,
            ) ==> after[name] == before[name]),
        }
}

/// Registers the scripts below a home directory.
pub(crate) fn register_scripts(
    registry: &mut ActivityRegistry<BuiltinHandler>,
    home: &str,
    workdir: &str,
)
    requires
        old(registry).wf(),
    ensures
        final(registry).wf(),
        handlers_added(
            old(registry).registered(),
            final(registry).registered(),
            |name: Text| script_handler(name, home@, workdir@),
        ),
{
    registry.register(
        "lycus-memory-condenser",
        make_python(home, "/scripts/memory_condenser", workdir),
    );
    registry.register(
        "lycus-cron-notifier",
        make_script(home, "/scripts/cron_notifier", workdir),
    );
    registry.register(
        "lycus-searxng-healthcheck",
        make_script(home, "/scripts/searxng_health_check", workdir),
    );
    registry.register(
        "lycus-searxng-error-reactive",
        make_script(home, "/scripts/searxng_error_check", workdir),
    );
    registry.register(
        "lycus-arxiv-factory",
        make_script(home, "/scripts/arxiv_factory", workdir),
    );
    registry.register(
        "lycus-mathnexus-extract",
        make_python(home, "/Documents/AI_researched_math/mathNEXUS/extract_mindmap", workdir),
    );
    registry.register(
        "lycus-mathlab-agent",
        make_python(
            home,
            "/Documents/AI_researched_math/mathLaboratory/laboratory_agent",
            workdir,
        ),
    );
}

/// Register all default activity handlers, with the scripts below the home directory.
pub fn register_default_handlers(registry: &mut ActivityRegistry<BuiltinHandler>, home: &str)
    requires
        old(registry).wf(),
    ensures
        final(registry).wf(),
        handlers_added(
            old(registry).registered(),
            final(registry).registered(),
            |name: Text| default_handler(name, home@),
        ),
{
    register_scripts(registry, home, home);
    registry.register("dummy-activity", BuiltinHandler::Dummy(DummyHandler));
}

} // verus!
