//! The cross-backend task registry: the configured backends in order, name
//! resolution across them, and the decisions around dispatching a task.

use vstd::prelude::*;

use crate::composer::ComposerRunner;
use crate::errors::RtError;
use crate::jake::JakeRunner;
use crate::moon::MoonRunner;
use crate::npm::NpmRunner;
use crate::scripts::ScriptsRunner;
use crate::zsh_autocomplete::{flatten_pairs, pairs_of};
use crate::strutil::{
    append_strings, chars_of, find_char, find_char_from, find_char_in_range, is_space, is_space_char,
    lemma_find_char_is, lemma_find_char_none, lemma_trim_end_is, lemma_trim_start_is,
    range_eq_str, str_eq, string_of_range, trim_spec, trim_start,
};

verus! {

/// One configured backend: a closed set of strategies, one per kind of
/// project convention.
pub enum Runner {
    Npm(NpmRunner),
    Jake(JakeRunner),
    Composer(ComposerRunner),
    Moon(MoonRunner),
    Scripts(ScriptsRunner),
}

impl Runner {
    /// The backend's display name.
    pub open spec fn name_view(&self) -> Seq<char> {
        match self {
            Runner::Npm(_) => "package.json"@,
            Runner::Jake(_) => "jake"@,
            Runner::Composer(_) => "composer.json"@,
            Runner::Moon(_) => "moon.yml"@,
            Runner::Scripts(s) => s.name_view(),
        }
    }

    /// The backend's discovered task names.
    pub open spec fn tasks_view(&self) -> Seq<Seq<char>> {
        match self {
            Runner::Npm(r) => r.tasks_view(),
            Runner::Jake(r) => r.tasks_view(),
            Runner::Composer(r) => r.tasks_view(),
            Runner::Moon(r) => r.tasks_view(),
            Runner::Scripts(r) => r.tasks_view(),
        }
    }

    /// Whether the backend exposes a task of this name.
    pub open spec fn has_task(&self, name: Seq<char>) -> bool {
        self.tasks_view().contains(name)
    }

    /// The backend's display name.
    pub fn name(&self) -> (r: &str)
        ensures
            r@ == self.name_view(),
    {
        match self {
            Runner::Npm(r) => r.name(),
            Runner::Jake(r) => r.name(),
            Runner::Composer(r) => r.name(),
            Runner::Moon(r) => r.name(),
            Runner::Scripts(r) => r.name(),
        }
    }

    /// The backend's discovered task names, in discovery order.
    pub fn tasks(&self) -> (r: &Vec<String>)
        ensures
            r.deep_view() == self.tasks_view(),
    {
        match self {
            Runner::Npm(r) => r.tasks(),
            Runner::Jake(r) => r.tasks(),
            Runner::Composer(r) => r.tasks(),
            Runner::Moon(r) => r.tasks(),
            Runner::Scripts(r) => r.tasks(),
        }
    }

    /// Whether the backend exposes a task of this name.
    pub fn contains_task(&self, name: &str) -> (r: bool)
        ensures
            r == self.has_task(name@),
    {
        let ts = self.tasks();
        let n = ts.len();
        let mut i: usize = 0;
        while i < n
            invariant
                i <= n == ts@.len(),
                ts.deep_view() == self.tasks_view(),
                forall|j: int| 0 <= j < i ==> ts.deep_view()[j] != name@,
            decreases n - i,
        {
            if str_eq(ts[i].as_str(), name) {
                proof {
                    assert(self.tasks_view()[i as int] == name@);
                }
                return true;
            }
            i = i + 1;
        }
        proof {
            assert forall|j: int| 0 <= j < self.tasks_view().len() implies self.tasks_view()[j]
                != name@ by {
                assert(ts.deep_view()[j] != name@);
            }
        }
        false
    }
}

/// The indices, in configuration order, of the backends that expose a task
/// of this name.
pub open spec fn matching_indices(rs: Seq<Runner>, name: Seq<char>) -> Seq<usize>
    decreases rs.len(),
{
    if rs.len() == 0 {
        Seq::empty()
    } else {
        matching_indices(rs.drop_last(), name) + (if rs.last().has_task(name) {
            seq![(rs.len() - 1) as usize]
        } else {
            Seq::empty()
        })
    }
}

/// Resolution is sound, complete and order-preserving: every listed index
/// denotes a backend that has the task, every backend that has the task is
/// listed, and the indices come in strictly increasing configuration order.
pub proof fn lemma_matching_indices_characterize(rs: Seq<Runner>, name: Seq<char>)
    requires
        rs.len() <= usize::MAX,
    ensures
        forall|k: int| 0 <= k < matching_indices(rs, name).len() ==> #[trigger] matching_indices(
            rs,
            name,
        )[k] < rs.len() && rs[matching_indices(rs, name)[k] as int].has_task(name),
        forall|a: int, b: int|
            0 <= a < b < matching_indices(rs, name).len() ==> #[trigger] matching_indices(
                rs,
                name,
            )[a] < #[trigger] matching_indices(rs, name)[b],
        forall|j: int| 0 <= j < rs.len() && #[trigger] rs[j].has_task(name)
            ==> matching_indices(rs, name).contains(j as usize),
    decreases rs.len(),
{
    if rs.len() > 0 {
        lemma_matching_indices_characterize(rs.drop_last(), name);
        let prev = matching_indices(rs.drop_last(), name);
        let whole = matching_indices(rs, name);
        assert forall|k: int| 0 <= k < whole.len() implies #[trigger] whole[k] < rs.len()
            && rs[whole[k] as int].has_task(name) by {
            if k < prev.len() {
                assert(whole[k] == prev[k]);
                assert(rs.drop_last()[prev[k] as int] == rs[prev[k] as int]);
            } else {
                assert(rs.last().has_task(name));
                assert(whole[k] == (rs.len() - 1) as usize);
            }
        }
        assert forall|a: int, b: int| 0 <= a < b < whole.len() implies #[trigger] whole[a]
            < #[trigger] whole[b] by {
            if b < prev.len() {
                assert(whole[a] == prev[a]);
                assert(whole[b] == prev[b]);
            } else {
                assert(whole[a] == prev[a]);
                assert(prev[a] < rs.drop_last().len());
                assert(whole[b] == (rs.len() - 1) as usize);
            }
        }
        assert forall|j: int| 0 <= j < rs.len() && #[trigger] rs[j].has_task(name) implies
            whole.contains(j as usize) by {
            if j < rs.len() - 1 {
                assert(rs.drop_last()[j] == rs[j]);
                assert(prev.contains(j as usize));
                let k = choose|k: int| 0 <= k < prev.len() && prev[k] == j as usize;
                assert(whole[k] == j as usize);
            } else {
                assert(whole.last() == j as usize);
            }
        }
    }
}

/// A name that no backend exposes resolves to nothing.
pub proof fn lemma_no_owner_resolves_empty(rs: Seq<Runner>, name: Seq<char>)
    requires
        forall|k: int| 0 <= k < rs.len() ==> !(#[trigger] rs[k].has_task(name)),
    ensures
        matching_indices(rs, name) == Seq::<usize>::empty(),
    decreases rs.len(),
{
    if rs.len() > 0 {
        assert(!rs.last().has_task(name));
        assert forall|k: int| 0 <= k < rs.drop_last().len() implies !(#[trigger] rs.drop_last()[
            k
        ].has_task(name)) by {
            assert(rs.drop_last()[k] == rs[k]);
        }
        lemma_no_owner_resolves_empty(rs.drop_last(), name);
        assert(matching_indices(rs, name) =~= Seq::<usize>::empty());
    }
}

/// A name that exactly one backend exposes resolves to that backend alone.
pub proof fn lemma_unique_owner_resolves_alone(rs: Seq<Runner>, name: Seq<char>, j: int)
    requires
        rs.len() <= usize::MAX,
        0 <= j < rs.len(),
        rs[j].has_task(name),
        forall|k: int| 0 <= k < rs.len() && k != j ==> !(#[trigger] rs[k].has_task(name)),
    ensures
        matching_indices(rs, name) == seq![j as usize],
    decreases rs.len(),
{
    if j == rs.len() - 1 {
        assert forall|k: int| 0 <= k < rs.drop_last().len() implies !(#[trigger] rs.drop_last()[
            k
        ].has_task(name)) by {
            assert(rs.drop_last()[k] == rs[k]);
        }
        lemma_no_owner_resolves_empty(rs.drop_last(), name);
        assert(matching_indices(rs, name) =~= seq![j as usize]);
    } else {
        assert(!rs.last().has_task(name));
        assert forall|k: int| 0 <= k < rs.drop_last().len() && k != j implies !(
        #[trigger] rs.drop_last()[k].has_task(name)) by {
            assert(rs.drop_last()[k] == rs[k]);
        }
        assert(rs.drop_last()[j] == rs[j]);
        lemma_unique_owner_resolves_alone(rs.drop_last(), name, j);
        assert(matching_indices(rs, name) =~= seq![j as usize]);
    }
}

/// A fully decided dispatch: either the task is unknown, or exactly one
/// backend has it, or several do and the caller must ask the user.
pub enum DispatchPlan {
    /// No backend has the task; the error to surface.
    Unknown(RtError),
    /// Exactly one backend has it: its index.
    Run(usize),
    /// Several backends have it: their indices, in configuration order.
    Choose(Vec<usize>),
}

/// The ordered collection of configured backends.
pub struct Registry {
    runners: Vec<Runner>,
}

impl View for Registry {
    type V = Seq<Runner>;

    closed spec fn view(&self) -> Seq<Runner> {
        self.runners@
    }
}

impl Registry {
    /// A registry over the given backends, kept in configuration order.
    pub fn new(runners: Vec<Runner>) -> (r: Registry)
        ensures
            r@ == runners@,
    {
        Registry { runners }
    }

    /// The backends, in configuration order.
    pub fn runners(&self) -> (r: &Vec<Runner>)
        ensures
            r@ == self@,
    {
        &self.runners
    }

    /// The indices of the backends that expose `name`, in configuration
    /// order.
    pub fn resolve(&self, name: &str) -> (r: Vec<usize>)
        ensures
            r@ == matching_indices(self@, name@),
    {
        let n = self.runners.len();
        let mut r: Vec<usize> = Vec::new();
        let mut i: usize = 0;
        proof {
            assert(self@.take(0) =~= Seq::<Runner>::empty());
            assert(r@ =~= matching_indices(self@.take(0), name@));
        }
        while i < n
            invariant
                i <= n == self@.len(),
                r@ == matching_indices(self@.take(i as int), name@),
            decreases n - i,
        {
            let ghost r_before = r@;
            if self.runners[i].contains_task(name) {
                r.push(i);
            }
            i = i + 1;
            proof {
                let prefix = self@.take(i as int);
                assert(prefix.drop_last() =~= self@.take(i - 1));
                assert(prefix.last() == self@[i - 1]);
                if self@[i - 1].has_task(name@) {
                    assert(r@ =~= r_before + seq![(i - 1) as usize]);
                } else {
                    assert(r@ =~= r_before + Seq::<usize>::empty());
                }
            }
        }
        proof {
            assert(self@.take(n as int) =~= self@);
        }
        r
    }

    /// Decides how a requested task is dispatched: an unknown-task error
    /// when no backend has it, the single owner when exactly one does, and
    /// the candidate list when several do.
    pub fn plan_dispatch(&self, name: &str) -> (r: DispatchPlan)
        ensures
            ({
                let m = matching_indices(self@, name@);
                &&& m.len() == 0 ==> (r matches DispatchPlan::Unknown(e) && (
                e matches RtError::UnknownTask { name: n } && n@ == name@))
                &&& m.len() == 1 ==> r == DispatchPlan::Run(m[0])
                &&& m.len() > 1 ==> (r matches DispatchPlan::Choose(v) && v@ == m)
            }),
    {
        let m = self.resolve(name);
        if m.len() == 0 {
            DispatchPlan::Unknown(RtError::UnknownTask { name: String::from_str(name) })
        } else if m.len() == 1 {
            DispatchPlan::Run(m[0])
        } else {
            DispatchPlan::Choose(m)
        }
    }

    /// Each backend's display name next to its task list, in configuration
    /// order.
    pub fn name_task_lists(&self) -> (r: Vec<(String, Vec<String>)>)
        ensures
            r.deep_view().len() == self@.len(),
            forall|i: int| 0 <= i < self@.len() ==> r.deep_view()[i] == (
                self@[i].name_view(),
                self@[i].tasks_view(),
            ),
    {
        let n = self.runners.len();
        let mut r: Vec<(String, Vec<String>)> = Vec::new();
        let mut i: usize = 0;
        while i < n
            invariant
                i <= n == self@.len(),
                r.deep_view().len() == i,
                forall|j: int| 0 <= j < i ==> r.deep_view()[j] == (
                    self@[j].name_view(),
                    self@[j].tasks_view(),
                ),
            decreases n - i,
        {
            let ghost r_deep = r.deep_view();
            let runner = &self.runners[i];
            let name = String::from_str(runner.name());
            let mut ts: Vec<String> = Vec::new();
            proof {
                assert(ts.deep_view() =~= Seq::<Seq<char>>::empty());
            }
            append_strings(&mut ts, runner.tasks());
            proof {
                assert(ts.deep_view() =~= self@[i as int].tasks_view());
            }
            let ghost before = r@;
            r.push((name, ts));
            proof {
                assert(r@ == before.push((name, ts)));
                assert(r.deep_view().len() == i + 1);
                assert forall|j: int| 0 <= j <= i implies #[trigger] r.deep_view()[j] == (
                    self@[j].name_view(),
                    self@[j].tasks_view(),
                ) by {
                    if j < i {
                        assert(r@[j] == before[j]);
                        assert(r_deep[j] == before[j].deep_view());
                        assert(r_deep[j] == (self@[j].name_view(), self@[j].tasks_view()));
                    } else {
                        assert(r@[j] == (name, ts));
                        assert(r.deep_view()[j] == (name@, ts.deep_view()));
                    }
                }
            }
            i = i + 1;
        }
        r
    }

    /// Every `(backend name, task name)` pair, in configuration order, each
    /// backend's tasks in discovery order.
    pub fn all_tasks(&self) -> (r: Vec<(String, String)>)
        ensures
            r.deep_view() == pairs_of(registry_pair_source(self@)),
    {
        let lists = self.name_task_lists();
        let r = flatten_pairs(&lists);
        proof {
            assert(lists.deep_view() =~= registry_pair_source(self@));
        }
        r
    }
}

/// The `(display name, task list)` pairs the backends expose, the source
/// of every flattened task listing.
pub open spec fn registry_pair_source(rs: Seq<Runner>) -> Seq<(Seq<char>, Seq<Seq<char>>)> {
    Seq::new(rs.len(), (|i: int| (rs[i].name_view(), rs[i].tasks_view())))
}

/// The value a raw choice line denotes: the first character of the trimmed
/// input — an empty input defaulting to `1` — taken as a decimal digit, and
/// accepted exactly when it lies in `[1, max]`.
pub open spec fn choice_value(input: Seq<char>, max: int) -> Option<int> {
    let t = trim_spec(input);
    let c = if t.len() == 0 { '1' } else { t[0] };
    if 48 <= c as u32 <= 57 && 1 <= (c as u32) - 48 <= max {
        Some((c as u32) - 48)
    } else {
        None
    }
}

/// Validates one line of user input against the number of candidates:
/// `Some` of the chosen 1-based index, or `None` when the caller must ask
/// again.
pub fn validate_choice(input: &str, max: usize) -> (r: Option<usize>)
    ensures
        match r {
            Some(d) => choice_value(input@, max as int) == Some(d as int),
            None => choice_value(input@, max as int) is None,
        },
{
    let cs = chars_of(input);
    let n = cs.len();
    let mut a: usize = 0;
    while a < n && is_space(cs[a])
        invariant
            a <= n == cs@.len(),
            forall|j: int| 0 <= j < a ==> is_space_char(cs@[j]),
        decreases n - a,
    {
        a = a + 1;
    }
    let mut b: usize = n;
    while b > a && is_space(cs[b - 1])
        invariant
            a <= b <= n == cs@.len(),
            forall|j: int| b <= j < n ==> is_space_char(cs@[j]),
        decreases b - a,
    {
        b = b - 1;
    }
    proof {
        lemma_trim_start_is(cs@, a as int);
        assert(trim_start(cs@) =~= cs@.subrange(a as int, n as int));
        lemma_trim_end_is(cs@.subrange(a as int, n as int), b - a);
        assert(trim_spec(cs@) =~= cs@.subrange(a as int, b as int));
    }
    let c: char = if b == a { '1' } else { cs[a] };
    proof {
        let t = trim_spec(cs@);
        if b > a {
            assert(t[0] == cs@[a as int]);
        }
    }
    let code = c as u32;
    if 48 <= code && code <= 57 {
        let d = (code - 48) as usize;
        if 1 <= d && d <= max {
            return Some(d);
        }
    }
    None
}

/// One requested backend, as configured: four recognised kinds, the
/// executable-directory kind carrying its directory, and anything else kept
/// as unknown so the caller can report it.
pub enum RunnerSel {
    Npm,
    Jake,
    Composer,
    Scripts(String),
    Unknown(String),
}

/// The kind part of one configuration piece: what stands before the first
/// `:`, or the whole piece.
pub open spec fn piece_kind(p: Seq<char>) -> Seq<char> {
    let i = find_char(p, ':');
    if i < 0 {
        p
    } else {
        p.take(i)
    }
}

/// The argument part of one configuration piece: what stands after the
/// first `:`, or nothing.
pub open spec fn piece_arg(p: Seq<char>) -> Seq<char> {
    let i = find_char(p, ':');
    if i < 0 {
        Seq::empty()
    } else {
        p.skip(i + 1)
    }
}

/// Which selection one configuration piece denotes.
pub open spec fn sel_for(piece: Seq<char>, sel: RunnerSel) -> bool {
    let kind = piece_kind(piece);
    if kind == "package.json"@ {
        sel is Npm
    } else if kind == "jakefile"@ {
        sel is Jake
    } else if kind == "composer.json"@ {
        sel is Composer
    } else if kind == "scripts"@ {
        sel matches RunnerSel::Scripts(d) && d@ == piece_arg(piece)
    } else {
        sel matches RunnerSel::Unknown(u) && u@ == kind
    }
}

/// Whether `sels` is exactly the selections that the configuration text
/// denotes: its comma-separated pieces in order, pieces with an empty kind
/// skipped.
pub open spec fn sels_match(s: Seq<char>, sels: Seq<RunnerSel>) -> bool
    decreases s.len(),
    via sels_match_decreases
{
    let i = find_char(s, ',');
    if i < 0 {
        if piece_kind(s).len() == 0 {
            sels.len() == 0
        } else {
            sels.len() == 1 && sel_for(s, sels[0])
        }
    } else {
        let piece = s.take(i);
        if piece_kind(piece).len() == 0 {
            sels_match(s.skip(i + 1), sels)
        } else {
            sels.len() >= 1 && sel_for(piece, sels[0]) && sels_match(
                s.skip(i + 1),
                sels.drop_first(),
            )
        }
    }
}

#[via_fn]
proof fn sels_match_decreases(s: Seq<char>, sels: Seq<RunnerSel>) {
    crate::strutil::lemma_find_char_range(s, ',');
}

/// Parses one configuration piece starting at `pos` and the rest of the
/// text after it.
fn parse_config_range(cs: &Vec<char>, pos: usize) -> (r: Vec<RunnerSel>)
    requires
        pos <= cs@.len(),
    ensures
        sels_match(cs@.skip(pos as int), r@),
    decreases cs@.len() - pos,
{
    let ghost s = cs@.skip(pos as int);
    let n = cs.len();
    let comma = find_char_from(cs, pos, ',');
    let pend = match comma {
        Some(i) => {
            proof {
                lemma_find_char_is(s, ',', i - pos);
            }
            i
        },
        None => {
            proof {
                lemma_find_char_none(s, ',');
            }
            n
        },
    };
    let ghost piece = cs@.subrange(pos as int, pend as int);
    proof {
        if comma is Some {
            assert(piece =~= s.take(pend - pos));
        } else {
            assert(piece =~= s);
        }
    }
    let colon = find_char_in_range(cs, pos, pend, ':');
    let kend = match colon {
        Some(i) => {
            proof {
                lemma_find_char_is(piece, ':', i - pos);
            }
            i
        },
        None => {
            proof {
                lemma_find_char_none(piece, ':');
            }
            pend
        },
    };
    proof {
        assert(piece_kind(piece) =~= cs@.subrange(pos as int, kend as int));
        if colon is Some {
            assert(piece_arg(piece) =~= cs@.subrange(kend + 1 as int, pend as int));
        } else {
            assert(piece_arg(piece) =~= Seq::<char>::empty());
        }
    }
    let sel_opt: Option<RunnerSel> = if kend == pos {
        None
    } else if range_eq_str(cs, pos, kend, "package.json") {
        Some(RunnerSel::Npm)
    } else if range_eq_str(cs, pos, kend, "jakefile") {
        Some(RunnerSel::Jake)
    } else if range_eq_str(cs, pos, kend, "composer.json") {
        Some(RunnerSel::Composer)
    } else if range_eq_str(cs, pos, kend, "scripts") {
        let arg = if kend < pend {
            string_of_range(cs, kend + 1, pend)
        } else {
            String::new()
        };
        Some(RunnerSel::Scripts(arg))
    } else {
        Some(RunnerSel::Unknown(string_of_range(cs, pos, kend)))
    };
    proof {
        assert(match sel_opt {
            Some(sel) => piece_kind(piece).len() > 0 && sel_for(piece, sel),
            None => piece_kind(piece).len() == 0,
        });
    }
    match comma {
        Some(_) => {
            let mut rest = parse_config_range(cs, pend + 1);
            proof {
                assert(cs@.skip(pend + 1 as int) =~= s.skip(pend - pos + 1));
            }
            match sel_opt {
                Some(sel) => {
                    let ghost rest_view = rest@;
                    rest.insert(0, sel);
                    proof {
                        assert(rest@.drop_first() =~= rest_view);
                        assert(rest@[0] == sel);
                    }
                    rest
                },
                None => rest,
            }
        },
        None => {
            match sel_opt {
                Some(sel) => {
                    let mut r: Vec<RunnerSel> = Vec::new();
                    r.push(sel);
                    r
                },
                None => Vec::new(),
            }
        },
    }
}

/// Parses the configuration text naming the active backends: a
/// comma-separated list of `package.json`, `jakefile`, `composer.json` and
/// `scripts:<dir>` entries. Empty entries are skipped; anything else is
/// kept as unknown for the caller to report.
pub fn parse_runner_config(s: &str) -> (r: Vec<RunnerSel>)
    ensures
        sels_match(s@, r@),
{
    let cs = chars_of(s);
    let r = parse_config_range(&cs, 0);
    proof {
        assert(cs@.skip(0) =~= cs@);
    }
    r
}

/// The default backend set, used when nothing is configured: the
/// `package.json`, `jakefile` and `composer.json` backends, then the
/// executable directories `./scripts`, `./tools` and `./bin`.
pub fn default_selections() -> (r: Vec<RunnerSel>)
    ensures
        r@.len() == 6,
        r@[0] is Npm,
        r@[1] is Jake,
        r@[2] is Composer,
        r@[3] matches RunnerSel::Scripts(d) && d@ == "./scripts"@,
        r@[4] matches RunnerSel::Scripts(d) && d@ == "./tools"@,
        r@[5] matches RunnerSel::Scripts(d) && d@ == "./bin"@,
{
    let mut r: Vec<RunnerSel> = Vec::new();
    r.push(RunnerSel::Npm);
    r.push(RunnerSel::Jake);
    r.push(RunnerSel::Composer);
    r.push(RunnerSel::Scripts(String::from_str("./scripts")));
    r.push(RunnerSel::Scripts(String::from_str("./tools")));
    r.push(RunnerSel::Scripts(String::from_str("./bin")));
    r
}

/// Which backend one selection builds: the matching variant, fresh — no
/// tasks discovered yet — and for the executable-directory kind, over the
/// selected directory.
pub open spec fn runner_for_sel(sel: RunnerSel, r: Runner) -> bool {
    match sel {
        RunnerSel::Npm => r is Npm && r.tasks_view().len() == 0,
        RunnerSel::Jake => r is Jake && r.tasks_view().len() == 0,
        RunnerSel::Composer => r is Composer && r.tasks_view().len() == 0,
        RunnerSel::Scripts(d) => (r matches Runner::Scripts(sr) && sr.dir_view() == d@
            && sr.name_view() == "scripts:"@ + d@) && r.tasks_view().len() == 0,
        RunnerSel::Unknown(_) => false,
    }
}

/// Whether `rs` is exactly the backends the selections build, in order,
/// unknown selections building none.
pub open spec fn runners_match_sels(sels: Seq<RunnerSel>, rs: Seq<Runner>) -> bool
    decreases sels.len(),
{
    if sels.len() == 0 {
        rs.len() == 0
    } else if sels[0] is Unknown {
        runners_match_sels(sels.drop_first(), rs)
    } else {
        rs.len() >= 1 && runner_for_sel(sels[0], rs[0]) && runners_match_sels(
            sels.drop_first(),
            rs.drop_first(),
        )
    }
}

/// Builds the backends the selections from `i` on ask for.
fn build_runners_from(sels: &Vec<RunnerSel>, i: usize) -> (r: Vec<Runner>)
    requires
        i <= sels@.len(),
    ensures
        runners_match_sels(sels@.skip(i as int), r@),
    decreases sels@.len() - i,
{
    if i == sels.len() {
        let r: Vec<Runner> = Vec::new();
        proof {
            assert(sels@.skip(i as int) =~= Seq::<RunnerSel>::empty());
        }
        return r;
    }
    let mut rest = build_runners_from(sels, i + 1);
    proof {
        assert(sels@.skip(i as int).drop_first() =~= sels@.skip(i + 1));
        assert(sels@.skip(i as int)[0] == sels@[i as int]);
    }
    let built: Option<Runner> = match &sels[i] {
        RunnerSel::Npm => Some(Runner::Npm(NpmRunner::new())),
        RunnerSel::Jake => Some(Runner::Jake(JakeRunner::new())),
        RunnerSel::Composer => Some(Runner::Composer(ComposerRunner::new())),
        RunnerSel::Scripts(d) => Some(Runner::Scripts(ScriptsRunner::new(d.clone()))),
        RunnerSel::Unknown(_) => None,
    };
    match built {
        Some(runner) => {
            let ghost rest_view = rest@;
            rest.insert(0, runner);
            proof {
                assert(rest@.drop_first() =~= rest_view);
            }
            rest
        },
        None => rest,
    }
}

/// Builds the configured backends, in order; unknown selections build none.
pub fn build_runners(sels: &Vec<RunnerSel>) -> (r: Vec<Runner>)
    ensures
        runners_match_sels(sels@, r@),
{
    let r = build_runners_from(sels, 0);
    proof {
        assert(sels@.skip(0) =~= sels@);
    }
    r
}

} // verus!
