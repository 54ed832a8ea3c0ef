//! The manifest-script backend for `composer.json`: tasks are the keys of
//! its `"scripts"` object whose value is a plain string. Execution always
//! proxies through the `composer` tool.

use vstd::prelude::*;

use crate::command::CommandPlan;
use crate::errors::RtError;
use crate::manifest::{manifest_scan_of, manifest_tasks, scan_manifest, script_names, ManifestScan};
use crate::strutil::append_strings;

verus! {

/// The backend that discovers tasks in a `composer.json` manifest.
pub struct ComposerRunner {
    tasks: Vec<String>,
}

impl ComposerRunner {
    /// The discovered task names, as sequences of characters.
    pub closed spec fn tasks_view(&self) -> Seq<Seq<char>> {
        self.tasks.deep_view()
    }

    /// A runner that has not discovered anything yet.
    pub fn new() -> (r: ComposerRunner)
        ensures
            r.tasks_view() == Seq::<Seq<char>>::empty(),
    {
        let r = ComposerRunner { tasks: Vec::new() };
        proof {
            assert(r.tasks_view() =~= Seq::<Seq<char>>::empty());
        }
        r
    }

    /// The backend's display name.
    pub fn name(&self) -> (r: &'static str)
        ensures
            r@ == "composer.json"@,
    {
        "composer.json"
    }

    /// The discovered task names, in decoder order.
    pub fn tasks(&self) -> (r: &Vec<String>)
        ensures
            r.deep_view() == self.tasks_view(),
    {
        &self.tasks
    }

    /// Discovers tasks from the text of the manifest, handed in by the
    /// caller: `None` when the file does not exist — a successful, empty
    /// result — and `Some` of its contents otherwise. A text that is not
    /// valid JSON is an error naming the manifest; the task list then stays
    /// unchanged.
    pub fn load_from_manifest(&mut self, content: Option<&str>) -> (r: Result<(), RtError>)
        ensures
            match content {
                None => r is Ok && final(self).tasks_view() == Seq::<Seq<char>>::empty(),
                Some(c) => match manifest_scan_of(c@) {
                    Some(scan) => r is Ok && final(self).tasks_view() == manifest_tasks(scan),
                    None => r is Err && final(self).tasks_view() == old(self).tasks_view() && (
                    r->Err_0 matches RtError::Malformed { path, .. } && path@
                        == "composer.json"@),
                },
            },
    {
        let c = match content {
            None => {
                self.tasks = Vec::new();
                proof {
                    assert(self.tasks_view() =~= Seq::<Seq<char>>::empty());
                }
                return Ok(());
            },
            Some(c) => c,
        };
        match scan_manifest(c) {
            Ok(scan) => {
                match scan {
                    ManifestScan::NoScripts => {
                        self.tasks = Vec::new();
                        proof {
                            assert(self.tasks_view() =~= Seq::<Seq<char>>::empty());
                        }
                    },
                    ManifestScan::Scripts(entries) => {
                        self.tasks = script_names(&entries);
                    },
                }
                Ok(())
            },
            Err(detail) => Err(
                RtError::Malformed { path: String::from_str("composer.json"), detail },
            ),
        }
    }

    /// Decides the command that runs `task`: the `composer` tool, handed the
    /// task name and, after a `--` separator, the extra arguments.
    pub fn command_plan(&self, task: &str, extra: &Vec<String>) -> (r: CommandPlan)
        ensures
            r.program@ == "composer"@,
            r.args.deep_view() == seq![task@, "--"@] + extra.deep_view(),
    {
        let mut args: Vec<String> = Vec::new();
        args.push(String::from_str(task));
        args.push(String::from_str("--"));
        proof {
            assert(args.deep_view() =~= seq![task@, "--"@]);
        }
        append_strings(&mut args, extra);
        CommandPlan { program: String::from_str("composer"), args }
    }
}

} // verus!
