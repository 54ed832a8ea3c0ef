//! The completion planner: given the shell's current input buffer, decides
//! whether to offer task names or fall back to file-name completion, and
//! renders the decision as a zsh completion snippet.
//!
//! Only the last sub-command of the buffer counts: the text after the last
//! `&&` and after the last `;`. Within it, a buffer that already names a
//! task and is on to its arguments — more than one word and trailing
//! whitespace, or more than two words — gets file completion; anything else
//! gets the full task list, prefix filtering being the shell's job.

use vstd::prelude::*;

use crate::strutil::{
    chars_of, find_char, is_space, is_space_char, lemma_find_char_exists, lemma_find_char_first,
    lemma_find_char_none, lemma_find_char_range, push_char,
};

verus! {

/// Whether a `&&` separator occurs anywhere in `s`.
pub open spec fn has_amp_amp(s: Seq<char>) -> bool {
    exists|i: int| 0 <= i && i + 1 < s.len() && #[trigger] s[i] == '&' && #[trigger] s[i + 1] == '&'
}

/// The text after the last `&&`, scanning separators from the left without
/// overlap; the whole text when there is none.
pub open spec fn after_last_amp(s: Seq<char>) -> Seq<char>
    decreases s.len(),
    via after_last_amp_decreases
{
    if !has_amp_amp(s) {
        s
    } else if s[0] == '&' && s[1] == '&' {
        after_last_amp(s.skip(2))
    } else {
        after_last_amp(s.skip(1))
    }
}

#[via_fn]
proof fn after_last_amp_decreases(s: Seq<char>) {
    if has_amp_amp(s) {
        let i = choose|i: int| 0 <= i && i + 1 < s.len() && #[trigger] s[i] == '&' && #[trigger] s[i + 1] == '&';
        assert(s.len() >= 2);
    }
}

/// Scanning from the left, the first separator at `k` with none before it
/// moves the tail past it.
proof fn lemma_after_amp_advance(s: Seq<char>, k: int)
    requires
        0 <= k,
        k + 1 < s.len(),
        s[k] == '&',
        s[k + 1] == '&',
        forall|j: int| 0 <= j < k ==> !(#[trigger] s[j] == '&' && s[j + 1] == '&'),
    ensures
        after_last_amp(s) == after_last_amp(s.skip(k + 2)),
    decreases k,
{
    assert(has_amp_amp(s));
    if k == 0 {
        assert(s.skip(2) =~= s.skip(k + 2));
    } else {
        assert(!(s[0] == '&' && s[1] == '&'));
        assert forall|j: int| 0 <= j < k - 1 implies !(#[trigger] s.skip(1)[j] == '&' && s.skip(
            1,
        )[j + 1] == '&') by {
            assert(s[j + 1] == s.skip(1)[j]);
            assert(s[j + 2] == s.skip(1)[j + 1]);
        }
        lemma_after_amp_advance(s.skip(1), k - 1);
        assert(s.skip(1).skip(k + 1) =~= s.skip(k + 2));
    }
}

/// Without any separator, the tail is the whole text.
proof fn lemma_after_amp_none(s: Seq<char>)
    requires
        forall|j: int| 0 <= j && j + 1 < s.len() ==> !(#[trigger] s[j] == '&' && s[j + 1] == '&'),
    ensures
        after_last_amp(s) == s,
{
    assert(!has_amp_amp(s));
}

/// The text after the last occurrence of `c`; the whole text when there is
/// none.
pub open spec fn after_last_char(s: Seq<char>, c: char) -> Seq<char>
    decreases s.len(),
    via after_last_char_decreases
{
    let i = find_char(s, c);
    if i < 0 {
        s
    } else {
        after_last_char(s.skip(i + 1), c)
    }
}

#[via_fn]
proof fn after_last_char_decreases(s: Seq<char>, c: char) {
    lemma_find_char_range(s, c);
}

/// When `j` is the last occurrence of `c`, the tail starts right after it.
proof fn lemma_after_last_char_at(s: Seq<char>, c: char, j: int)
    requires
        0 <= j < s.len(),
        s[j] == c,
        forall|k: int| j < k < s.len() ==> s[k] != c,
    ensures
        after_last_char(s, c) == s.skip(j + 1),
    decreases s.len(),
{
    lemma_find_char_exists(s, c, j);
    lemma_find_char_first(s, c);
    lemma_find_char_range(s, c);
    let i = find_char(s, c);
    assert(i <= j);
    if i == j {
        assert forall|k: int| 0 <= k < s.skip(j + 1).len() implies #[trigger] s.skip(j + 1)[k] != c by {
            assert(s.skip(j + 1)[k] == s[j + 1 + k]);
        }
        lemma_find_char_none(s.skip(j + 1), c);
        assert(after_last_char(s.skip(j + 1), c) == s.skip(j + 1));
        assert(after_last_char(s, c) == after_last_char(s.skip(j + 1), c));
    } else {
        assert(s.skip(i + 1)[j - i - 1] == s[j]);
        assert forall|k: int| j - i - 1 < k < s.skip(i + 1).len() implies #[trigger] s.skip(
            i + 1,
        )[k] != c by {
            assert(s.skip(i + 1)[k] == s[k + i + 1]);
        }
        lemma_after_last_char_at(s.skip(i + 1), c, j - i - 1);
        assert(s.skip(i + 1).skip(j - i) =~= s.skip(j + 1));
    }
}

/// Without any occurrence, the tail is the whole text.
proof fn lemma_after_last_char_absent(s: Seq<char>, c: char)
    requires
        forall|k: int| 0 <= k < s.len() ==> s[k] != c,
    ensures
        after_last_char(s, c) == s,
{
    lemma_find_char_none(s, c);
}

/// The number of whitespace-separated words in `s`, `in_word` telling
/// whether the text continues a word begun just before it.
pub open spec fn words_from(s: Seq<char>, in_word: bool) -> int
    decreases s.len(),
{
    if s.len() == 0 {
        0
    } else if is_space_char(s[0]) {
        words_from(s.drop_first(), false)
    } else {
        (if in_word {
            0int
        } else {
            1int
        }) + words_from(s.drop_first(), true)
    }
}

/// The sub-command the completion applies to: the buffer after its last
/// `&&` and `;` separators.
pub open spec fn completion_segment(buf: Seq<char>) -> Seq<char> {
    after_last_char(after_last_amp(buf), ';')
}

/// Whether the shell should fall back to file-name completion: the last
/// sub-command already has more than one word and a trailing space, or more
/// than two words — the user is completing an argument to a task, not the
/// task name.
pub open spec fn completion_is_files(buf: Seq<char>) -> bool {
    let seg = completion_segment(buf);
    (words_from(seg, false) > 1 && seg.len() > 0 && seg.last() == ' ') || words_from(seg, false)
        > 2
}

/// The `(backend name, task name)` pairs of one backend.
pub open spec fn runner_pairs(name: Seq<char>, tasks: Seq<Seq<char>>) -> Seq<
    (Seq<char>, Seq<char>),
>
    decreases tasks.len(),
{
    if tasks.len() == 0 {
        Seq::empty()
    } else {
        runner_pairs(name, tasks.drop_last()) + seq![(name, tasks.last())]
    }
}

/// Each task contributes one pair.
proof fn lemma_runner_pairs_len(name: Seq<char>, tasks: Seq<Seq<char>>)
    ensures
        runner_pairs(name, tasks).len() == tasks.len(),
    decreases tasks.len(),
{
    if tasks.len() > 0 {
        lemma_runner_pairs_len(name, tasks.drop_last());
    }
}

/// The `(backend name, task name)` pairs of all backends, in configuration
/// order, each backend's tasks in discovery order.
pub open spec fn pairs_of(rs: Seq<(Seq<char>, Seq<Seq<char>>)>) -> Seq<(Seq<char>, Seq<char>)>
    decreases rs.len(),
{
    if rs.len() == 0 {
        Seq::empty()
    } else {
        pairs_of(rs.drop_last()) + runner_pairs(rs.last().0, rs.last().1)
    }
}

/// What the planner offers the shell: file-name completion, or the task
/// list as `(backend name, task name)` pairs.
pub enum CompletionItems {
    Files,
    Tasks(Vec<(String, String)>),
}

/// Appends one backend's `(name, task)` pairs to `out`.
fn push_runner_pairs(out: &mut Vec<(String, String)>, name: &String, tasks: &Vec<String>)
    ensures
        final(out).deep_view() == old(out).deep_view() + runner_pairs(name@, tasks.deep_view()),
{
    let ghost base = out.deep_view();
    let n = tasks.len();
    let mut j: usize = 0;
    proof {
        assert(tasks.deep_view().take(0) =~= Seq::<Seq<char>>::empty());
        assert(out.deep_view() =~= base + runner_pairs(name@, tasks.deep_view().take(0)));
    }
    while j < n
        invariant
            j <= n == tasks@.len(),
            base == old(out).deep_view(),
            out.deep_view() == base + runner_pairs(name@, tasks.deep_view().take(j as int)),
        decreases n - j,
    {
        let ghost before = out@;
        let ghost before_deep = out.deep_view();
        out.push((name.clone(), tasks[j].clone()));
        proof {
            let prefix = tasks.deep_view().take(j + 1);
            assert(prefix.drop_last() =~= tasks.deep_view().take(j as int));
            assert(prefix.last() == tasks@[j as int]@);
            let rhs = base + runner_pairs(name@, prefix);
            assert(out@ == before.push((*name, tasks@[j as int])));
            assert(runner_pairs(name@, prefix) == runner_pairs(
                name@,
                tasks.deep_view().take(j as int),
            ) + seq![(name@, tasks@[j as int]@)]);
            assert(before_deep.len() == before.len());
            lemma_runner_pairs_len(name@, tasks.deep_view().take(j as int));
            lemma_runner_pairs_len(name@, prefix);
            assert(before.len() == base.len() + j);
            assert(rhs.len() == base.len() + j + 1);
            assert forall|k: int| 0 <= k < out@.len() implies #[trigger] out.deep_view()[k]
                == rhs[k] by {
                if k < before.len() {
                    assert(out@[k] == before[k]);
                    assert(before_deep[k] == before[k].deep_view());
                    assert(before_deep[k] == rhs[k]);
                } else {
                    assert(out@[k] == (*name, tasks@[j as int]));
                    assert(rhs[k] == ((name@, tasks@[j as int]@)));
                }
            }
            assert(out.deep_view() =~= rhs);
        }
        j = j + 1;
    }
    proof {
        assert(tasks.deep_view().take(n as int) =~= tasks.deep_view());
    }
}

/// Gathers the `(backend name, task name)` pairs of every backend.
pub fn flatten_pairs(runners: &Vec<(String, Vec<String>)>) -> (r: Vec<(String, String)>)
    ensures
        r.deep_view() == pairs_of(runners.deep_view()),
{
    let mut r: Vec<(String, String)> = Vec::new();
    let n = runners.len();
    let mut i: usize = 0;
    proof {
        assert(runners.deep_view().take(0) =~= Seq::<(Seq<char>, Seq<Seq<char>>)>::empty());
        assert(r.deep_view() =~= pairs_of(runners.deep_view().take(0)));
    }
    while i < n
        invariant
            i <= n == runners@.len(),
            r.deep_view() == pairs_of(runners.deep_view().take(i as int)),
        decreases n - i,
    {
        let ghost r_before = r.deep_view();
        push_runner_pairs(&mut r, &runners[i].0, &runners[i].1);
        proof {
            let prefix = runners.deep_view().take(i + 1);
            assert(prefix.drop_last() =~= runners.deep_view().take(i as int));
            assert(prefix.last() == runners@[i as int].deep_view());
            assert(runners@[i as int].deep_view() == (
                runners@[i as int].0@,
                runners@[i as int].1.deep_view(),
            ));
            assert(r.deep_view() =~= pairs_of(prefix));
        }
        i = i + 1;
    }
    proof {
        assert(runners.deep_view().take(n as int) =~= runners.deep_view());
    }
    r
}

/// The start, within `cs`, of the sub-command the completion applies to.
fn segment_start(cs: &Vec<char>) -> (lo: usize)
    ensures
        lo <= cs@.len(),
        cs@.skip(lo as int) == completion_segment(cs@),
{
    let n = cs.len();
    let mut seg: usize = 0;
    let mut pos: usize = 0;
    proof {
        assert(cs@.skip(0) =~= cs@);
    }
    while n > 0 && pos < n - 1
        invariant
            seg <= pos,
            pos <= n == cs@.len(),
            after_last_amp(cs@) == after_last_amp(cs@.skip(seg as int)),
            forall|j: int| seg <= j && j + 1 < pos + 1 ==> !(#[trigger] cs@[j] == '&' && cs@[j + 1] == '&'),
        decreases n - pos,
    {
        if cs[pos] == '&' && cs[pos + 1] == '&' {
            proof {
                let t = cs@.skip(seg as int);
                let k = pos - seg;
                assert(t[k] == cs@[pos as int]);
                assert(t[k + 1] == cs@[pos + 1]);
                assert forall|j: int| 0 <= j < k implies !(#[trigger] t[j] == '&' && t[j + 1]
                    == '&') by {
                    assert(t[j] == cs@[seg + j]);
                    assert(t[j + 1] == cs@[seg + j + 1]);
                }
                lemma_after_amp_advance(t, k);
                assert(t.skip(k + 2) =~= cs@.skip(pos + 2));
            }
            pos = pos + 2;
            seg = pos;
        } else {
            pos = pos + 1;
        }
    }
    proof {
        let t = cs@.skip(seg as int);
        assert forall|j: int| 0 <= j && j + 1 < t.len() implies !(#[trigger] t[j] == '&' && t[j
            + 1] == '&') by {
            assert(t[j] == cs@[seg + j]);
            assert(t[j + 1] == cs@[seg + j + 1]);
        }
        lemma_after_amp_none(t);
        assert(after_last_amp(cs@) == cs@.skip(seg as int));
    }
    // Within the tail, take the text after the last `;`.
    let mut lo: usize = seg;
    let mut q: usize = seg;
    while q < n
        invariant
            seg <= lo <= q <= n == cs@.len(),
            lo > seg ==> cs@[lo - 1] == ';',
            forall|t: int| lo <= t < q ==> cs@[t] != ';',
        decreases n - q,
    {
        if cs[q] == ';' {
            lo = q + 1;
        }
        q = q + 1;
    }
    proof {
        let t = cs@.skip(seg as int);
        if lo > seg {
            assert(t[lo - seg - 1] == cs@[lo - 1]);
            assert forall|k: int| lo - seg - 1 < k < t.len() implies #[trigger] t[k] != ';' by {
                assert(t[k] == cs@[seg + k]);
            }
            lemma_after_last_char_at(t, ';', lo - seg - 1);
            assert(t.skip(lo - seg) =~= cs@.skip(lo as int));
        } else {
            assert forall|k: int| 0 <= k < t.len() implies #[trigger] t[k] != ';' by {
                assert(t[k] == cs@[seg + k]);
            }
            lemma_after_last_char_absent(t, ';');
            assert(cs@.skip(lo as int) == t);
        }
    }
    lo
}

/// Decides the completion mode for the buffer and, in task mode, gathers
/// every backend's `(name, task)` pairs, unfiltered: prefix filtering is
/// left to the shell.
pub fn get_completion_items(runners: &Vec<(String, Vec<String>)>, lbuffer: &str) -> (r:
    CompletionItems)
    ensures
        completion_is_files(lbuffer@) ==> r is Files,
        !completion_is_files(lbuffer@) ==> (r matches CompletionItems::Tasks(ts)
            && ts.deep_view() == pairs_of(runners.deep_view())),
{
    let cs = chars_of(lbuffer);
    let lo = segment_start(&cs);
    let ghost seg = completion_segment(lbuffer@);
    let n = cs.len();
    let mut q: usize = lo;
    let mut in_word = false;
    let mut count: usize = 0;
    proof {
        assert(cs@.skip(lo as int) == seg);
    }
    while q < n
        invariant
            lo <= q <= n == cs@.len(),
            count <= q - lo,
            seg == cs@.skip(lo as int),
            count + words_from(cs@.skip(q as int), in_word) == words_from(seg, false),
        decreases n - q,
    {
        proof {
            let t = cs@.skip(q as int);
            assert(t[0] == cs@[q as int]);
            assert(t.drop_first() =~= cs@.skip(q + 1));
        }
        if is_space(cs[q]) {
            in_word = false;
        } else {
            if !in_word {
                count = count + 1;
            }
            in_word = true;
        }
        q = q + 1;
    }
    proof {
        assert(cs@.skip(n as int) =~= Seq::<char>::empty());
        assert(count == words_from(seg, false));
    }
    let ends_space = n > lo && cs[n - 1] == ' ';
    proof {
        assert((seg.len() > 0 && seg.last() == ' ') == ends_space);
    }
    if (count > 1 && ends_space) || count > 2 {
        CompletionItems::Files
    } else {
        CompletionItems::Tasks(flatten_pairs(runners))
    }
}

/// `s` with every `:` escaped as `\:`, so that it can stand inside a zsh
/// `_describe` entry, whose unescaped `:` separates value and description.
pub open spec fn zsh_escaped(s: Seq<char>) -> Seq<char>
    decreases s.len(),
{
    if s.len() == 0 {
        Seq::empty()
    } else {
        zsh_escaped(s.drop_last()) + (if s.last() == ':' {
            seq!['\\', ':']
        } else {
            seq![s.last()]
        })
    }
}

/// Escapes every `:` in a task or backend name for the generated snippet.
pub fn zsh_escape(task: &str) -> (r: String)
    ensures
        r@ == zsh_escaped(task@),
{
    let cs = chars_of(task);
    let n = cs.len();
    let mut r = String::new();
    let mut i: usize = 0;
    proof {
        assert(cs@.take(0) =~= Seq::<char>::empty());
        assert(r@ =~= zsh_escaped(cs@.take(0)));
    }
    while i < n
        invariant
            i <= n == cs@.len(),
            r@ == zsh_escaped(cs@.take(i as int)),
        decreases n - i,
    {
        let ghost r_before = r@;
        if cs[i] == ':' {
            push_char(&mut r, '\\');
            push_char(&mut r, ':');
            proof {
                assert(r@ =~= r_before + seq!['\\', ':']);
            }
        } else {
            push_char(&mut r, cs[i]);
            proof {
                assert(r@ =~= r_before + seq![cs@[i as int]]);
            }
        }
        i = i + 1;
        proof {
            let prefix = cs@.take(i as int);
            assert(prefix.drop_last() =~= cs@.take(i - 1));
            assert(prefix.last() == cs@[i - 1]);
        }
    }
    proof {
        assert(cs@.take(n as int) =~= cs@);
    }
    r
}

/// One `_describe` entry: the escaped task name, an unescaped `:`, and the
/// backend it comes from — its own separators escaped as well —
/// single-quoted and blank-terminated.
pub open spec fn task_entry(name: Seq<char>, task: Seq<char>) -> Seq<char> {
    "'"@ + zsh_escaped(task) + ":from "@ + zsh_escaped(name) + "' "@
}

/// The `_describe` entries of all pairs, in order.
pub open spec fn entries_of(pairs: Seq<(Seq<char>, Seq<char>)>) -> Seq<char>
    decreases pairs.len(),
{
    if pairs.len() == 0 {
        Seq::empty()
    } else {
        entries_of(pairs.drop_last()) + task_entry(pairs.last().0, pairs.last().1)
    }
}

/// The zsh snippet a decision renders to.
pub open spec fn snippet_spec(items: CompletionItems) -> Seq<char> {
    match items {
        CompletionItems::Files => "_files .\n"@,
        CompletionItems::Tasks(ts) => "local -a _rt_tasks\n_rt_tasks=( "@ + entries_of(
            ts.deep_view(),
        ) + ")\n_describe 'task' _rt_tasks\n"@,
    }
}

/// Renders a completion decision as a zsh snippet: `_files` for file mode,
/// a `_describe` over the task list otherwise.
pub fn get_zsh_autocomplete_code(items: &CompletionItems) -> (r: String)
    ensures
        r@ == snippet_spec(*items),
{
    let ts = match items {
        CompletionItems::Files => {
            return String::from_str("_files .\n");
        },
        CompletionItems::Tasks(ts) => ts,
    };
    let mut out = String::from_str("local -a _rt_tasks\n_rt_tasks=( ");
    let ghost head = "local -a _rt_tasks\n_rt_tasks=( "@;
    let n = ts.len();
    let mut i: usize = 0;
    proof {
        assert(ts.deep_view().take(0) =~= Seq::<(Seq<char>, Seq<char>)>::empty());
        assert(out@ =~= head + entries_of(ts.deep_view().take(0)));
    }
    while i < n
        invariant
            i <= n == ts@.len(),
            out@ == head + entries_of(ts.deep_view().take(i as int)),
        decreases n - i,
    {
        let ghost out_before = out@;
        let escaped_task = zsh_escape(ts[i].1.as_str());
        let escaped_name = zsh_escape(ts[i].0.as_str());
        out.append("'");
        out.append(escaped_task.as_str());
        out.append(":from ");
        out.append(escaped_name.as_str());
        out.append("' ");
        i = i + 1;
        proof {
            let prefix = ts.deep_view().take(i as int);
            assert(prefix.drop_last() =~= ts.deep_view().take(i - 1));
            assert(prefix.last() == (ts@[i - 1].0@, ts@[i - 1].1@));
            assert(out@ =~= out_before + task_entry(ts@[i - 1].0@, ts@[i - 1].1@));
            assert(out@ =~= head + entries_of(prefix));
        }
    }
    out.append(")\n_describe 'task' _rt_tasks\n");
    proof {
        assert(ts.deep_view().take(n as int) =~= ts.deep_view());
        assert(out@ =~= snippet_spec(*items));
    }
    out
}

/// Plans and renders the completion for the buffer in one step: the
/// interface the shell integration calls.
pub fn get_zsh_autocompletion(
    runners: &Vec<(String, Vec<String>)>,
    lbuffer: &str,
    _rbuffer: &str,
) -> (r: String)
    ensures
        completion_is_files(lbuffer@) ==> r@ == "_files .\n"@,
        !completion_is_files(lbuffer@) ==> r@ == "local -a _rt_tasks\n_rt_tasks=( "@
            + entries_of(pairs_of(runners.deep_view())) + ")\n_describe 'task' _rt_tasks\n"@,
{
    let items = get_completion_items(runners, lbuffer);
    get_zsh_autocomplete_code(&items)
}

} // verus!
