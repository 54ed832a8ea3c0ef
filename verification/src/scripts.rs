//! The executable-directory backend: every regular file with at least one
//! executable permission bit in a configured directory is a task, run
//! directly by its path.

use vstd::prelude::*;

use crate::command::CommandPlan;
use crate::strutil::append_strings;

verus! {

/// What discovery needs to know of one directory entry.
pub struct FileEntry {
    /// The entry's file name.
    pub name: String,
    /// Whether the entry is a regular file.
    pub is_file: bool,
    /// Whether the entry carries at least one executable permission bit.
    pub executable: bool,
}

/// The names of the regular, executable entries, in the order given.
pub open spec fn executable_names(es: Seq<FileEntry>) -> Seq<Seq<char>>
    decreases es.len(),
{
    if es.len() == 0 {
        Seq::empty()
    } else {
        executable_names(es.drop_last()) + (if es.last().is_file && es.last().executable {
            seq![es.last().name@]
        } else {
            Seq::empty()
        })
    }
}

/// The backend that discovers executable files in one directory.
pub struct ScriptsRunner {
    tasks: Vec<String>,
    dir: String,
    name: String,
}

impl ScriptsRunner {
    /// The discovered task names, as sequences of characters.
    pub closed spec fn tasks_view(&self) -> Seq<Seq<char>> {
        self.tasks.deep_view()
    }

    /// The configured directory.
    pub closed spec fn dir_view(&self) -> Seq<char> {
        self.dir@
    }

    /// The backend's display name.
    pub closed spec fn name_view(&self) -> Seq<char> {
        self.name@
    }

    /// A runner for the given directory, not yet having discovered
    /// anything. Its display name is the directory prefixed by `scripts:`.
    pub fn new(dir: String) -> (r: ScriptsRunner)
        ensures
            r.tasks_view() == Seq::<Seq<char>>::empty(),
            r.dir_view() == dir@,
            r.name_view() == "scripts:"@ + dir@,
    {
        let mut name = String::from_str("scripts:");
        name.append(dir.as_str());
        let r = ScriptsRunner { tasks: Vec::new(), dir, name };
        proof {
            assert(r.tasks_view() =~= Seq::<Seq<char>>::empty());
        }
        r
    }

    /// The configured directory.
    pub fn dir(&self) -> (r: &str)
        ensures
            r@ == self.dir_view(),
    {
        self.dir.as_str()
    }

    /// The backend's display name.
    pub fn name(&self) -> (r: &str)
        ensures
            r@ == self.name_view(),
    {
        self.name.as_str()
    }

    /// The discovered task names, in directory order.
    pub fn tasks(&self) -> (r: &Vec<String>)
        ensures
            r.deep_view() == self.tasks_view(),
    {
        &self.tasks
    }

    /// Discovers tasks from the directory listing, handed in by the caller:
    /// `None` when the directory does not exist — the common case for an
    /// unused backend, a successful, empty result — and `Some` of its
    /// entries otherwise. Non-executable files and subdirectories are
    /// silently excluded.
    pub fn load_from_entries(&mut self, entries: Option<&Vec<FileEntry>>)
        ensures
            final(self).tasks_view() == match entries {
                None => Seq::<Seq<char>>::empty(),
                Some(es) => executable_names(es@),
            },
            final(self).dir_view() == old(self).dir_view(),
            final(self).name_view() == old(self).name_view(),
    {
        let es = match entries {
            None => {
                self.tasks = Vec::new();
                proof {
                    assert(self.tasks_view() =~= Seq::<Seq<char>>::empty());
                }
                return ;
            },
            Some(es) => es,
        };
        let mut names: Vec<String> = Vec::new();
        let n = es.len();
        let mut i: usize = 0;
        proof {
            assert(es@.take(0) =~= Seq::<FileEntry>::empty());
            assert(names.deep_view() =~= executable_names(es@.take(0)));
        }
        while i < n
            invariant
                i <= n == es@.len(),
                names.deep_view() == executable_names(es@.take(i as int)),
            decreases n - i,
        {
            let ghost names_before = names.deep_view();
            if es[i].is_file && es[i].executable {
                names.push(es[i].name.clone());
            }
            i = i + 1;
            proof {
                let prefix = es@.take(i as int);
                assert(prefix.drop_last() =~= es@.take(i - 1));
                assert(prefix.last() == es@[i - 1]);
                if es@[i - 1].is_file && es@[i - 1].executable {
                    assert(names.deep_view() =~= names_before + seq![es@[i - 1].name@]);
                } else {
                    assert(names.deep_view() =~= names_before + Seq::<Seq<char>>::empty());
                }
            }
        }
        proof {
            assert(es@.take(n as int) =~= es@);
        }
        self.tasks = names;
    }

    /// Decides the command that runs `task`: the file itself, by its path
    /// inside the configured directory, handed the invoked name again as
    /// its own first argument — for scripts that expect their own name —
    /// and then the extra arguments.
    pub fn command_plan(&self, task: &str, extra: &Vec<String>) -> (r: CommandPlan)
        ensures
            r.program@ == self.dir_view() + "/"@ + task@,
            r.args.deep_view() == seq![task@] + extra.deep_view(),
    {
        let mut program = self.dir.clone();
        program.append("/");
        program.append(task);
        let mut args: Vec<String> = Vec::new();
        args.push(String::from_str(task));
        proof {
            assert(args.deep_view() =~= seq![task@]);
        }
        append_strings(&mut args, extra);
        CommandPlan { program, args }
    }
}

/// Discovery is idempotent: the discovered task names are a pure function
/// of the directory listing, so two discovery passes over an unchanged
/// directory yield identical task lists. The loader's contract pins its
/// task list to `executable_names` over the entries.
pub proof fn lemma_directory_discovery_idempotent(
    es: Seq<FileEntry>,
    first: Seq<Seq<char>>,
    second: Seq<Seq<char>>,
)
    requires
        first == executable_names(es),
        second == executable_names(es),
    ensures
        first == second,
{
}

} // verus!
