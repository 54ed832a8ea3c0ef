//! The manifest-script backend for `package.json`: tasks are the keys of
//! its `"scripts"` object whose value is a plain string. Execution prefers
//! pnpm when a pnpm lock file is visible, then yarn, falling back to npm.

use vstd::prelude::*;

use crate::command::CommandPlan;
use crate::errors::RtError;
use crate::manifest::{manifest_scan_of, manifest_tasks, scan_manifest, script_names, ManifestScan};
use crate::strutil::append_strings;

verus! {

/// The backend that discovers tasks in a `package.json` manifest.
pub struct NpmRunner {
    tasks: Vec<String>,
}

impl NpmRunner {
    /// The discovered task names, as sequences of characters.
    pub closed spec fn tasks_view(&self) -> Seq<Seq<char>> {
        self.tasks.deep_view()
    }

    /// A runner that has not discovered anything yet.
    pub fn new() -> (r: NpmRunner)
        ensures
            r.tasks_view() == Seq::<Seq<char>>::empty(),
    {
        let r = NpmRunner { tasks: Vec::new() };
        proof {
            assert(r.tasks_view() =~= Seq::<Seq<char>>::empty());
        }
        r
    }

    /// The backend's display name.
    pub fn name(&self) -> (r: &'static str)
        ensures
            r@ == "package.json"@,
    {
        "package.json"
    }

    /// The discovered task names, in decoder order.
    pub fn tasks(&self) -> (r: &Vec<String>)
        ensures
            r.deep_view() == self.tasks_view(),
    {
        &self.tasks
    }

    /// Discovers tasks from the text of the manifest, handed in by the
    /// caller: `None` when the file does not exist — a successful, empty
    /// result — and `Some` of its contents otherwise. A text that is not
    /// valid JSON is an error naming the manifest; the task list then stays
    /// unchanged.
    pub fn load_from_manifest(&mut self, content: Option<&str>) -> (r: Result<(), RtError>)
        ensures
            match content {
                None => r is Ok && final(self).tasks_view() == Seq::<Seq<char>>::empty(),
                Some(c) => match manifest_scan_of(c@) {
                    Some(scan) => r is Ok && final(self).tasks_view() == manifest_tasks(scan),
                    None => r is Err && final(self).tasks_view() == old(self).tasks_view() && (
                    r->Err_0 matches RtError::Malformed { path, .. } && path@
                        == "package.json"@),
                },
            },
    {
        let c = match content {
            None => {
                self.tasks = Vec::new();
                proof {
                    assert(self.tasks_view() =~= Seq::<Seq<char>>::empty());
                }
                return Ok(());
            },
            Some(c) => c,
        };
        match scan_manifest(c) {
            Ok(scan) => {
                match scan {
                    ManifestScan::NoScripts => {
                        self.tasks = Vec::new();
                        proof {
                            assert(self.tasks_view() =~= Seq::<Seq<char>>::empty());
                        }
                    },
                    ManifestScan::Scripts(entries) => {
                        self.tasks = script_names(&entries);
                    },
                }
                Ok(())
            },
            Err(detail) => Err(
                RtError::Malformed { path: String::from_str("package.json"), detail },
            ),
        }
    }

    /// Decides the command that runs `task`. The caller reports whether a
    /// pnpm or yarn lock file is visible (in the project or two levels up,
    /// the monorepo convention); the most specific front-end tool found
    /// wins, npm being the default.
    pub fn command_plan(
        &self,
        task: &str,
        extra: &Vec<String>,
        pnpm_lock: bool,
        yarn_lock: bool,
    ) -> (r: CommandPlan)
        ensures
            pnpm_lock ==> r.program@ == "pnpm"@ && r.args.deep_view() == seq!["run"@, task@]
                + extra.deep_view(),
            !pnpm_lock && yarn_lock ==> r.program@ == "yarn"@ && r.args.deep_view() == seq![
                "run"@,
                task@,
            ] + extra.deep_view(),
            !pnpm_lock && !yarn_lock ==> r.program@ == "npm"@ && r.args.deep_view() == seq![
                "run"@,
                task@,
                "--"@,
            ] + extra.deep_view(),
    {
        if pnpm_lock || yarn_lock {
            let mut args: Vec<String> = Vec::new();
            args.push(String::from_str("run"));
            args.push(String::from_str(task));
            proof {
                assert(args.deep_view() =~= seq!["run"@, task@]);
            }
            append_strings(&mut args, extra);
            let program = if pnpm_lock {
                String::from_str("pnpm")
            } else {
                String::from_str("yarn")
            };
            CommandPlan { program, args }
        } else {
            let mut args: Vec<String> = Vec::new();
            args.push(String::from_str("run"));
            args.push(String::from_str(task));
            args.push(String::from_str("--"));
            proof {
                assert(args.deep_view() =~= seq!["run"@, task@, "--"@]);
            }
            append_strings(&mut args, extra);
            CommandPlan { program: String::from_str("npm"), args }
        }
    }
}

} // verus!
