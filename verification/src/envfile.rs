//! Parser for `.rtenv`-style environment files.
//!
//! Each line of the form `KEY=value` defines one variable. Keys are trimmed
//! and may carry repeated `export ` prefixes, which are removed. Values are
//! trimmed and, when wrapped in a matching pair of single or double quotes,
//! unquoted. Later bindings of a key shadow earlier ones.

use vstd::prelude::*;

use crate::strutil::{
    chars_of, find_char, find_char_in_range, find_char_from, is_space, is_space_char, lemma_find_char_is,
    lemma_find_char_none, lemma_find_char_range, lemma_trim_end_is, lemma_trim_start_is,
    string_of_range, range_eq_str, str_eq, trim_spec, trim_start,
};

verus! {

/// The prefix removed (repeatedly) from the start of a trimmed key.
pub open spec fn export_prefix() -> Seq<char> {
    seq!['e', 'x', 'p', 'o', 'r', 't', ' ']
}

/// `s` with every leading repetition of `export ` removed.
pub open spec fn strip_export_prefix(s: Seq<char>) -> Seq<char>
    decreases s.len(),
{
    if s.len() >= 7 && s.take(7) == export_prefix() {
        strip_export_prefix(s.skip(7))
    } else {
        s
    }
}

/// Whether a trimmed value is wrapped in a matching pair of quotes.
pub open spec fn is_quoted(v: Seq<char>) -> bool {
    v.len() >= 2 && ((v[0] == '\'' && v.last() == '\'') || (v[0] == '"' && v.last() == '"'))
}

/// The binding defined by one line, if the line holds an `=`.
pub open spec fn parse_env_line(l: Seq<char>) -> Option<(Seq<char>, Seq<char>)> {
    let i = find_char(l, '=');
    if i < 0 {
        None
    } else {
        let key = strip_export_prefix(trim_spec(l.take(i)));
        let v = trim_spec(l.skip(i + 1));
        let value = if is_quoted(v) {
            v.subrange(1, v.len() - 1)
        } else {
            v
        };
        Some((key, value))
    }
}

/// The entries contributed by one line: one binding or none.
pub open spec fn line_entries(l: Seq<char>) -> Seq<(Seq<char>, Seq<char>)> {
    match parse_env_line(l) {
        Some(kv) => seq![kv],
        None => Seq::empty(),
    }
}

/// A line with one trailing carriage return removed.
pub open spec fn strip_cr(l: Seq<char>) -> Seq<char> {
    if l.len() > 0 && l.last() == '\r' {
        l.drop_last()
    } else {
        l
    }
}

/// All bindings of the file, in order of appearance. Lines are separated by
/// `\n`; a final line without a terminator still counts.
pub open spec fn env_entries(s: Seq<char>) -> Seq<(Seq<char>, Seq<char>)>
    decreases s.len(),
    via env_entries_decreases
{
    if s.len() == 0 {
        Seq::empty()
    } else {
        let i = find_char(s, '\n');
        if i < 0 {
            line_entries(strip_cr(s))
        } else {
            line_entries(strip_cr(s.take(i))) + env_entries(s.skip(i + 1))
        }
    }
}

#[via_fn]
proof fn env_entries_decreases(s: Seq<char>) {
    lemma_find_char_range(s, '\n');
}

/// The value of the last binding of `key`, if any.
pub open spec fn env_lookup(entries: Seq<(Seq<char>, Seq<char>)>, key: Seq<char>) -> Option<
    Seq<char>,
>
    decreases entries.len(),
{
    if entries.len() == 0 {
        None
    } else if entries.last().0 == key {
        Some(entries.last().1)
    } else {
        env_lookup(entries.drop_last(), key)
    }
}

/// A set of variables read from an environment file.
pub struct EnvFile {
    vars: Vec<(String, String)>,
}

impl View for EnvFile {
    type V = Seq<(Seq<char>, Seq<char>)>;

    closed spec fn view(&self) -> Self::V {
        self.vars.deep_view()
    }
}

/// Parses the characters `cs[lo..hi]` as one line, returning its binding.
#[verifier::rlimit(50)]
fn parse_line(cs: &Vec<char>, lo: usize, hi: usize) -> (r: Option<(String, String)>)
    requires
        lo <= hi <= cs@.len(),
    ensures
        match r {
            Some(kv) => parse_env_line(cs@.subrange(lo as int, hi as int)) == Some(
                (kv.0@, kv.1@),
            ),
            None => parse_env_line(cs@.subrange(lo as int, hi as int)) is None,
        },
{
    let ghost l = cs@.subrange(lo as int, hi as int);
    let eq_pos = match find_char_in_range(cs, lo, hi, '=') {
        Some(i) => {
            proof {
                lemma_find_char_is(l, '=', i - lo);
            }
            i
        },
        None => {
            proof {
                lemma_find_char_none(l, '=');
            }
            return None;
        },
    };
    let ghost ieq = eq_pos - lo;
    assert(find_char(l, '=') == ieq);

    // Trim the raw key, cs[lo..eq_pos].
    let mut ka: usize = lo;
    while ka < eq_pos && is_space(cs[ka])
        invariant
            lo <= ka <= eq_pos <= cs@.len(),
            forall|j: int| lo <= j < ka ==> is_space_char(cs@[j]),
        decreases eq_pos - ka,
    {
        ka = ka + 1;
    }
    let mut kb: usize = eq_pos;
    while kb > ka && is_space(cs[kb - 1])
        invariant
            lo <= ka <= kb <= eq_pos <= cs@.len(),
            forall|j: int| kb <= j < eq_pos ==> is_space_char(cs@[j]),
        decreases kb - ka,
    {
        kb = kb - 1;
    }
    proof {
        let raw_key = l.take(ieq);
        assert(raw_key =~= cs@.subrange(lo as int, eq_pos as int));
        lemma_trim_start_is(raw_key, ka - lo);
        assert(trim_start(raw_key) =~= cs@.subrange(ka as int, eq_pos as int));
        lemma_trim_end_is(cs@.subrange(ka as int, eq_pos as int), kb - ka);
        assert(trim_spec(raw_key) =~= cs@.subrange(ka as int, kb as int));
    }

    // Remove repeated `export ` prefixes from the trimmed key.
    let ghost trimmed_key = cs@.subrange(ka as int, kb as int);
    while kb - ka >= 7 && range_eq_str(cs, ka, ka + 7, "export ")
        invariant
            lo <= ka <= kb <= cs@.len(),
            strip_export_prefix(trimmed_key) == strip_export_prefix(
                cs@.subrange(ka as int, kb as int),
            ),
        decreases kb - ka,
    {
        proof {
            reveal_strlit("export ");
            assert("export "@ =~= export_prefix());
            let cur = cs@.subrange(ka as int, kb as int);
            assert(cur.take(7) =~= cs@.subrange(ka as int, ka + 7 as int));
            assert(cur.take(7) =~= export_prefix());
            assert(cur.skip(7) =~= cs@.subrange(ka + 7 as int, kb as int));
        }
        ka = ka + 7;
    }
    proof {
        reveal_strlit("export ");
        assert("export "@ =~= export_prefix());
        let cur = cs@.subrange(ka as int, kb as int);
        if cur.len() >= 7 {
            assert(cur.take(7) =~= cs@.subrange(ka as int, ka + 7 as int));
            assert(cur.take(7) != export_prefix());
        }
        assert(strip_export_prefix(trimmed_key) == cur);
    }

    // Trim the raw value, cs[eq_pos+1..hi].
    let mut va: usize = eq_pos + 1;
    while va < hi && is_space(cs[va])
        invariant
            eq_pos + 1 <= va <= hi <= cs@.len(),
            forall|j: int| eq_pos + 1 <= j < va ==> is_space_char(cs@[j]),
        decreases hi - va,
    {
        va = va + 1;
    }
    let mut vb: usize = hi;
    while vb > va && is_space(cs[vb - 1])
        invariant
            va <= vb <= hi <= cs@.len(),
            forall|j: int| vb <= j < hi ==> is_space_char(cs@[j]),
        decreases vb - va,
    {
        vb = vb - 1;
    }
    proof {
        let raw_val = l.skip(ieq + 1);
        assert(raw_val =~= cs@.subrange(eq_pos + 1 as int, hi as int));
        lemma_trim_start_is(raw_val, va - (eq_pos + 1));
        assert(trim_start(raw_val) =~= cs@.subrange(va as int, hi as int));
        lemma_trim_end_is(cs@.subrange(va as int, hi as int), vb - va);
        assert(trim_spec(raw_val) =~= cs@.subrange(va as int, vb as int));
    }

    // Strip one pair of matching quotes around the trimmed value.
    let ghost trimmed_val = cs@.subrange(va as int, vb as int);
    if vb - va >= 2 && ((cs[va] == '\'' && cs[vb - 1] == '\'') || (cs[va] == '"' && cs[vb - 1]
        == '"')) {
        proof {
            assert(is_quoted(trimmed_val));
            assert(trimmed_val.subrange(1, trimmed_val.len() - 1) =~= cs@.subrange(
                va + 1 as int,
                vb - 1 as int,
            ));
        }
        va = va + 1;
        vb = vb - 1;
    } else {
        proof {
            assert(!is_quoted(trimmed_val));
        }
    }

    let key = string_of_range(cs, ka, kb);
    let value = string_of_range(cs, va, vb);
    Some((key, value))
}

impl EnvFile {
    /// Parses the given text into its environment-variable bindings.
    pub fn new(contents: &str) -> (r: EnvFile)
        ensures
            r@ == env_entries(contents@),
    {
        let cs = chars_of(contents);
        let n = cs.len();
        let mut vars: Vec<(String, String)> = Vec::new();
        let mut pos: usize = 0;
        proof {
            assert(cs@.skip(0) =~= cs@);
            assert(vars.deep_view() =~= Seq::<(Seq<char>, Seq<char>)>::empty());
            assert(vars.deep_view() + env_entries(cs@.skip(0)) =~= env_entries(cs@));
        }
        while pos < n
            invariant
                pos <= n == cs@.len(),
                cs@ == contents@,
                vars.deep_view() + env_entries(cs@.skip(pos as int)) =~= env_entries(cs@),
            decreases n - pos,
        {
            let ghost suffix = cs@.skip(pos as int);
            let line_end = match find_char_from(&cs, pos, '\n') {
                Some(i) => {
                    proof {
                        lemma_find_char_is(suffix, '\n', i - pos);
                    }
                    i
                },
                None => {
                    proof {
                        lemma_find_char_none(suffix, '\n');
                    }
                    n
                },
            };
            let content_end = if line_end > pos && cs[line_end - 1] == '\r' {
                line_end - 1
            } else {
                line_end
            };
            proof {
                let raw_line = if line_end < n {
                    suffix.take(line_end - pos)
                } else {
                    suffix
                };
                assert(raw_line =~= cs@.subrange(pos as int, line_end as int));
                assert(strip_cr(raw_line) =~= cs@.subrange(pos as int, content_end as int));
            }
            let ghost vars_before = vars.deep_view();
            match parse_line(&cs, pos, content_end) {
                Some(kv) => {
                    vars.push(kv);
                    proof {
                        assert(vars.deep_view() =~= vars_before + line_entries(
                            cs@.subrange(pos as int, content_end as int),
                        ));
                    }
                },
                None => {
                    proof {
                        assert(vars.deep_view() =~= vars_before + line_entries(
                            cs@.subrange(pos as int, content_end as int),
                        ));
                    }
                },
            }
            let next_pos = if line_end < n {
                line_end + 1
            } else {
                n
            };
            proof {
                let line_part = line_entries(cs@.subrange(pos as int, content_end as int));
                if line_end < n {
                    assert(env_entries(suffix) == line_part + env_entries(
                        suffix.skip(line_end - pos + 1),
                    ));
                    assert(suffix.skip(line_end - pos + 1) =~= cs@.skip(next_pos as int));
                } else {
                    assert(env_entries(suffix) == line_part);
                    assert(cs@.skip(next_pos as int) =~= Seq::<char>::empty());
                }
                assert(vars.deep_view() + env_entries(cs@.skip(next_pos as int)) =~= env_entries(
                    cs@,
                ));
            }
            pos = next_pos;
        }
        proof {
            assert(cs@.skip(n as int) =~= Seq::<char>::empty());
            assert(vars.deep_view() =~= env_entries(cs@));
        }
        EnvFile { vars }
    }

    /// Looks up the value bound to `key`, the last binding winning.
    pub fn get(&self, key: &str) -> (r: Option<&str>)
        ensures
            match r {
                Some(v) => env_lookup(self@, key@) == Some(v@),
                None => env_lookup(self@, key@) is None,
            },
    {
        let mut i: usize = self.vars.len();
        proof {
            assert(self@.take(self.vars@.len() as int) =~= self@);
        }
        while i > 0
            invariant
                i <= self.vars@.len(),
                self@ == self.vars.deep_view(),
                env_lookup(self@, key@) == env_lookup(self@.take(i as int), key@),
            decreases i,
        {
            proof {
                assert(self@.take(i as int).last() == (self.vars@[i - 1].0@, self.vars@[i
                    - 1].1@));
                assert(self@.take(i as int).drop_last() =~= self@.take(i - 1));
            }
            if str_eq(self.vars[i - 1].0.as_str(), key) {
                return Some(self.vars[i - 1].1.as_str());
            }
            i = i - 1;
        }
        proof {
            assert(self@.take(0) =~= Seq::<(Seq<char>, Seq<char>)>::empty());
        }
        None
    }
}

} // verus!
