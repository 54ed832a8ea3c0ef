//! The declarative-file backend for `moon.yml`: tasks are the top-level
//! keys of its `tasks` mapping. Execution always proxies through the `moon`
//! tool with its `run` subcommand.

use vstd::prelude::*;

use crate::command::CommandPlan;
use crate::errors::RtError;
use crate::strutil::append_strings;

verus! {

/// The outcome of scanning a declarative task file for its `tasks` mapping.
pub enum YamlScan {
    /// The document parsed, but it is neither a mapping nor empty.
    RootNotMapping,
    /// The document parsed and holds no `tasks` key (or is empty).
    NoTasksKey,
    /// There is a `tasks` entry, but its value is not a mapping.
    TasksNotMapping,
    /// The keys of the `tasks` mapping, in document order; a key that is
    /// not a string is handed over as `None`.
    TaskKeys(Vec<Option<String>>),
}

/// What scanning the text yields, or `None` when the text is not valid
/// YAML. The scan is a function of the text alone.
pub uninterp spec fn yaml_scan_of(content: Seq<char>) -> Option<YamlScan>;

/// Relies on serde_yaml::from_str::<Value>: parses the text as YAML —
/// succeeding exactly on valid YAML — and on Value's accessors to read the
/// top-level `tasks` mapping.
#[verifier::external_body]
fn scan_task_file(content: &str) -> (r: Result<YamlScan, String>)
    ensures
        r is Ok <==> yaml_scan_of(content@) is Some,
        r is Ok ==> r->Ok_0 == yaml_scan_of(content@)->0,
{
    let v: serde_yaml::Value = match serde_yaml::from_str(content) {
        Ok(v) => v,
        Err(e) => return Err(e.to_string()),
    };
    Ok(match &v {
        serde_yaml::Value::Null => YamlScan::NoTasksKey,
        serde_yaml::Value::Mapping(m) => match m.get("tasks") {
            None => YamlScan::NoTasksKey,
            Some(serde_yaml::Value::Mapping(t)) => YamlScan::TaskKeys(
                t.keys().map(|k| k.as_str().map(|s| s.to_string())).collect(),
            ),
            Some(_) => YamlScan::TasksNotMapping,
        },
        _ => YamlScan::RootNotMapping,
    })
}

/// The task names of a `tasks` mapping whose keys are all strings; `None`
/// as soon as one key is not a string.
pub open spec fn string_keys_of(keys: Seq<Option<Seq<char>>>) -> Option<Seq<Seq<char>>>
    decreases keys.len(),
{
    if keys.len() == 0 {
        Some(Seq::empty())
    } else {
        match (string_keys_of(keys.drop_last()), keys.last()) {
            (Some(s), Some(k)) => Some(s.push(k)),
            _ => None,
        }
    }
}

/// Once a non-string key has been seen, the whole key list is rejected.
proof fn lemma_string_keys_none_extends(keys: Seq<Option<Seq<char>>>, i: int)
    requires
        0 <= i <= keys.len(),
        string_keys_of(keys.take(i)) is None,
    ensures
        string_keys_of(keys) is None,
    decreases keys.len() - i,
{
    if i == keys.len() {
        assert(keys.take(i) =~= keys);
    } else {
        assert(keys.take(i + 1).drop_last() =~= keys.take(i));
        lemma_string_keys_none_extends(keys, i + 1);
    }
}

/// The task names a scanned declarative file defines, or `None` when the
/// scan shows a malformed file.
pub open spec fn declared_tasks(scan: YamlScan) -> Option<Seq<Seq<char>>> {
    match scan {
        YamlScan::RootNotMapping => None,
        YamlScan::NoTasksKey => Some(Seq::empty()),
        YamlScan::TasksNotMapping => None,
        YamlScan::TaskKeys(keys) => string_keys_of(keys.deep_view()),
    }
}

/// The backend that discovers tasks in a `moon.yml` file.
pub struct MoonRunner {
    tasks: Vec<String>,
}

impl MoonRunner {
    /// The discovered task names, as sequences of characters.
    pub closed spec fn tasks_view(&self) -> Seq<Seq<char>> {
        self.tasks.deep_view()
    }

    /// A runner that has not discovered anything yet.
    pub fn new() -> (r: MoonRunner)
        ensures
            r.tasks_view() == Seq::<Seq<char>>::empty(),
    {
        let r = MoonRunner { tasks: Vec::new() };
        proof {
            assert(r.tasks_view() =~= Seq::<Seq<char>>::empty());
        }
        r
    }

    /// The backend's display name.
    pub fn name(&self) -> (r: &'static str)
        ensures
            r@ == "moon.yml"@,
    {
        "moon.yml"
    }

    /// The discovered task names, in document order.
    pub fn tasks(&self) -> (r: &Vec<String>)
        ensures
            r.deep_view() == self.tasks_view(),
    {
        &self.tasks
    }

    /// Discovers tasks from the text of the task file, handed in by the
    /// caller: `None` when the file does not exist — a successful, empty
    /// result — and `Some` of its contents otherwise. A text that is not
    /// valid YAML, or whose `tasks` entry is not a mapping of string keys,
    /// is an error naming the file; the task list then stays unchanged.
    #[verifier::loop_isolation(false)]
    pub fn load_from_config(&mut self, content: Option<&str>) -> (r: Result<(), RtError>)
        ensures
            match content {
                None => r is Ok && final(self).tasks_view() == Seq::<Seq<char>>::empty(),
                Some(c) => match yaml_scan_of(c@) {
                    Some(scan) => match declared_tasks(scan) {
                        Some(ts) => r is Ok && final(self).tasks_view() == ts,
                        None => r is Err && final(self).tasks_view() == old(self).tasks_view()
                            && (r->Err_0 matches RtError::Malformed { path, .. } && path@
                            == "moon.yml"@),
                    },
                    None => r is Err && final(self).tasks_view() == old(self).tasks_view() && (
                    r->Err_0 matches RtError::Malformed { path, .. } && path@ == "moon.yml"@),
                },
            },
    {
        let c = match content {
            None => {
                self.tasks = Vec::new();
                proof {
                    assert(self.tasks_view() =~= Seq::<Seq<char>>::empty());
                }
                return Ok(());
            },
            Some(c) => c,
        };
        let scan = match scan_task_file(c) {
            Ok(scan) => scan,
            Err(detail) => {
                return Err(RtError::Malformed { path: String::from_str("moon.yml"), detail });
            },
        };
        match scan {
            YamlScan::RootNotMapping => Err(
                RtError::Malformed {
                    path: String::from_str("moon.yml"),
                    detail: String::from_str("the document is not a mapping"),
                },
            ),
            YamlScan::NoTasksKey => {
                self.tasks = Vec::new();
                proof {
                    assert(self.tasks_view() =~= Seq::<Seq<char>>::empty());
                }
                Ok(())
            },
            YamlScan::TasksNotMapping => Err(
                RtError::Malformed {
                    path: String::from_str("moon.yml"),
                    detail: String::from_str("the tasks entry is not a mapping"),
                },
            ),
            YamlScan::TaskKeys(keys) => {
                let mut names: Vec<String> = Vec::new();
                let n = keys.len();
                let mut i: usize = 0;
                proof {
                    assert(keys.deep_view().take(0) =~= Seq::<Option<Seq<char>>>::empty());
                    assert(string_keys_of(keys.deep_view().take(0)) == Some(names.deep_view()));
                }
                while i < n
                    invariant
                        i <= n == keys@.len(),
                        string_keys_of(keys.deep_view().take(i as int)) == Some(
                            names.deep_view(),
                        ),
                    decreases n - i,
                {
                    let ghost prefix = keys.deep_view().take(i + 1);
                    proof {
                        assert(prefix.drop_last() =~= keys.deep_view().take(i as int));
                        assert(prefix.last() == keys@[i as int].deep_view());
                    }
                    match &keys[i] {
                        Some(k) => {
                            let ghost names_before = names.deep_view();
                            names.push(k.clone());
                            proof {
                                assert(names.deep_view() =~= names_before.push(
                                    keys@[i as int]->0@,
                                ));
                            }
                        },
                        None => {
                            proof {
                                assert(string_keys_of(prefix) is None);
                                lemma_string_keys_none_extends(keys.deep_view(), i + 1);
                            }
                            return Err(
                                RtError::Malformed {
                                    path: String::from_str("moon.yml"),
                                    detail: String::from_str("a task name is not a string"),
                                },
                            );
                        },
                    }
                    i = i + 1;
                }
                proof {
                    assert(keys.deep_view().take(n as int) =~= keys.deep_view());
                }
                self.tasks = names;
                Ok(())
            },
        }
    }

    /// Decides the command that runs `task`: the `moon` tool's `run`
    /// subcommand, handed the task name and the extra arguments.
    pub fn command_plan(&self, task: &str, extra: &Vec<String>) -> (r: CommandPlan)
        ensures
            r.program@ == "moon"@,
            r.args.deep_view() == seq!["run"@, task@] + extra.deep_view(),
    {
        let mut args: Vec<String> = Vec::new();
        args.push(String::from_str("run"));
        args.push(String::from_str(task));
        proof {
            assert(args.deep_view() =~= seq!["run"@, task@]);
        }
        append_strings(&mut args, extra);
        CommandPlan { program: String::from_str("moon"), args }
    }
}

/// Discovery is idempotent: what the declarative-file backend discovers is
/// a pure function of the file's text, so two discovery passes over an
/// unchanged file yield identical task lists. The loader's contract pins
/// its task list to `declared_tasks` over the text's scan.
pub proof fn lemma_config_discovery_idempotent(
    c: Seq<char>,
    first: Seq<Seq<char>>,
    second: Seq<Seq<char>>,
)
    requires
        yaml_scan_of(c) is Some,
        declared_tasks(yaml_scan_of(c)->0) is Some,
        first == declared_tasks(yaml_scan_of(c)->0)->0,
        second == declared_tasks(yaml_scan_of(c)->0)->0,
    ensures
        first == second,
{
}

} // verus!
