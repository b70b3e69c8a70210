//! The glob tool's result: matches ordered by modification time, newest
//! first (files without a time ahead), capped at a hundred names.
use vstd::prelude::*;
use vstd::string::StringExecFns;

verus! {

/// The number of file names a glob search reports at most.
pub const GLOB_RESULT_LIMIT: usize = 100;

/// A file that a glob pattern matched: its path and its modification time
/// in nanoseconds from the Unix epoch (negative before it), when the file
/// system reported one.
#[derive(Debug)]
pub struct GlobMatch {
    pub path: String,
    pub modified: Option<i128>,
}

/// Result of a glob-based filename search.
#[derive(Debug, Clone, PartialEq)]
pub struct GlobSearchOutput {
    pub duration_ms: u128,
    pub num_files: usize,
    pub filenames: Vec<String>,
    pub truncated: bool,
}

/// Whether a match with time `a` may come before one with time `b`: no time
/// comes first, then later times before earlier ones (the order of
/// `Option<Reverse<SystemTime>>`).
pub open spec fn time_order_le(a: Option<i128>, b: Option<i128>) -> bool {
    match (a, b) {
        (None, _) => true,
        (Some(_), None) => false,
        (Some(x), Some(y)) => x >= y,
    }
}

/// Whether the matches are in time order.
pub open spec fn time_sorted(s: Seq<GlobMatch>) -> bool {
    forall|i: int, j: int|
        0 <= i < j < s.len() ==> time_order_le(#[trigger] s[i].modified, #[trigger] s[j].modified)
}

/// The matches with the time `k`, in their order.
pub open spec fn with_time(s: Seq<GlobMatch>, k: Option<i128>) -> Seq<GlobMatch>
    decreases s.len(),
{
    if s.len() == 0 {
        Seq::empty()
    } else {
        let rest = with_time(s.drop_last(), k);
        if s.last().modified == k {
            rest.push(s.last())
        } else {
            rest
        }
    }
}

/// Whether `out` is `inp` sorted stably by time: in time order, and the
/// matches of each time in the order they had.
pub open spec fn stably_sorted(out: Seq<GlobMatch>, inp: Seq<GlobMatch>) -> bool {
    &&& time_sorted(out)
    &&& forall|k: Option<i128>| #[trigger] with_time(out, k) == with_time(inp, k)
}

/// Picking matches of one time out of a concatenation picks them from each
/// part.
pub proof fn lemma_with_time_add(a: Seq<GlobMatch>, b: Seq<GlobMatch>, k: Option<i128>)
    ensures
        with_time(a + b, k) == with_time(a, k) + with_time(b, k),
    decreases b.len(),
{
    if b.len() == 0 {
        assert(a + b =~= a);
        assert(with_time(a, k) + with_time(b, k) =~= with_time(a, k));
    } else {
        assert((a + b).drop_last() =~= a + b.drop_last());
        assert((a + b).last() == b.last());
        lemma_with_time_add(a, b.drop_last(), k);
        if b.last().modified == k {
            assert(with_time(a, k) + with_time(b.drop_last(), k).push(b.last()) =~= (with_time(a, k)
                + with_time(b.drop_last(), k)).push(b.last()));
        }
    }
}

/// No match of a time is picked from matches that all have other times.
pub proof fn lemma_with_time_none(s: Seq<GlobMatch>, k: Option<i128>)
    requires
        forall|i: int| 0 <= i < s.len() ==> (#[trigger] s[i]).modified != k,
    ensures
        with_time(s, k) == Seq::<GlobMatch>::empty(),
    decreases s.len(),
{
    if s.len() > 0 {
        lemma_with_time_none(s.drop_last(), k);
    }
}

/// Sorts matches stably by time: no time first, then newest first.
pub fn sort_glob_matches(matches: Vec<GlobMatch>) -> (r: Vec<GlobMatch>)
    ensures
        stably_sorted(r@, matches@),
        r@.len() == matches@.len(),
{
    let ghost inp = matches@;
    let mut rest = matches;
    let mut out: Vec<GlobMatch> = Vec::new();
    let mut i: usize = 0;
    let n = rest.len();
    assert(inp.take(0) =~= Seq::<GlobMatch>::empty());
    assert(inp.skip(0) =~= inp);
    while rest.len() > 0
        invariant
            n == inp.len(),
            i + rest.len() == n,
            rest@ == inp.skip(i as int),
            out@.len() == i,
            time_sorted(out@),
            forall|k: Option<i128>| #[trigger] with_time(out@, k) == with_time(inp.take(i as int), k),
        decreases rest.len(),
    {
        let x = rest.remove(0);
        assert(x == inp[i as int]);
        assert(rest@ =~= inp.skip(i + 1));
        let mut p: usize = 0;
        while p < out.len() && time_le(&out[p].modified, &x.modified)
            invariant
                0 <= p <= out.len(),
                forall|j: int| 0 <= j < p ==> time_order_le((#[trigger] out@[j]).modified, x.modified),
            decreases out.len() - p,
        {
            p = p + 1;
        }
        let ghost o = out@;
        proof {
            assert forall|j: int| p <= j < o.len() implies !time_order_le(
                (#[trigger] o[j]).modified,
                x.modified,
            ) by {
                assert(!time_order_le(o[p as int].modified, x.modified));
                if j > p {
                    assert(time_order_le(o[p as int].modified, o[j].modified));
                }
            }
            let ins = o.insert(p as int, x);
            assert(o =~= o.take(p as int) + o.skip(p as int));
            assert(ins =~= o.take(p as int) + seq![x] + o.skip(p as int));
            assert forall|a: int, b: int| 0 <= a < b < ins.len() implies time_order_le(
                #[trigger] ins[a].modified,
                #[trigger] ins[b].modified,
            ) by {
                if b < p {
                    assert(time_order_le(o[a].modified, o[b].modified));
                } else if b == p {
                    assert(time_order_le(o[a].modified, x.modified));
                } else if a < p {
                    assert(time_order_le(o[a].modified, o[b - 1].modified));
                } else if a == p {
                    assert(!time_order_le(o[b - 1].modified, x.modified));
                } else {
                    assert(time_order_le(o[a - 1].modified, o[b - 1].modified));
                }
            }
            assert(inp.take(i + 1) =~= inp.take(i as int).push(x));
            assert(inp.take(i + 1).drop_last() =~= inp.take(i as int));
            assert forall|k: Option<i128>| #[trigger] with_time(ins, k) == with_time(
                inp.take(i + 1),
                k,
            ) by {
                lemma_with_time_add(o.take(p as int) + seq![x], o.skip(p as int), k);
                lemma_with_time_add(o.take(p as int), seq![x], k);
                lemma_with_time_add(o.take(p as int), o.skip(p as int), k);
                assert(seq![x].drop_last() =~= Seq::<GlobMatch>::empty());
                assert(with_time(Seq::<GlobMatch>::empty(), k) =~= Seq::<GlobMatch>::empty());
                assert(seq![x].last() == x);
                if k == x.modified {
                    assert(with_time(seq![x], k) =~= seq![x]);
                    let t = o.skip(p as int);
                    assert forall|j: int| 0 <= j < t.len() implies (#[trigger] t[j]).modified != k by {
                        assert(t[j] == o[p + j]);
                    }
                    lemma_with_time_none(t, k);
                    assert(with_time(o, k) =~= with_time(o.take(p as int), k));
                    assert(with_time(ins, k) =~= with_time(o.take(p as int), k).push(x));
                } else {
                    assert(with_time(seq![x], k) =~= Seq::<GlobMatch>::empty());
                    assert(with_time(ins, k) =~= with_time(o, k));
                }
            }
        }
        out.insert(p, x);
        i = i + 1;
    }
    assert(inp.take(n as int) =~= inp);
    out
}

/// Whether a match with time `a` may come before one with time `b`.
fn time_le(a: &Option<i128>, b: &Option<i128>) -> (r: bool)
    ensures
        r == time_order_le(*a, *b),
{
    match (a, b) {
        (None, _) => true,
        (Some(_), None) => false,
        (Some(x), Some(y)) => *x >= *y,
    }
}

/// The paths of matches.
pub open spec fn match_paths(s: Seq<GlobMatch>) -> Seq<String> {
    s.map_values(|g: GlobMatch| g.path)
}

/// The result of a glob search: the matches sorted stably by time, newest
/// first and files without a time ahead; the first hundred names; whether
/// more were found; and the time the search took.
pub fn glob_search_output(matches: Vec<GlobMatch>, duration_ms: u128) -> (out: GlobSearchOutput)
    ensures
        exists|s: Seq<GlobMatch>|
            {
                &&& stably_sorted(s, matches@)
                &&& out.filenames@ == match_paths(
                    s.take(if s.len() > 100 {
                        100
                    } else {
                        s.len() as int
                    }),
                )
            },
        out.truncated == (matches@.len() > 100),
        out.num_files == out.filenames@.len(),
        out.duration_ms == duration_ms,
{
    let ghost inp = matches@;
    let sorted = sort_glob_matches(matches);
    let truncated = sorted.len() > GLOB_RESULT_LIMIT;
    let n = if truncated {
        GLOB_RESULT_LIMIT
    } else {
        sorted.len()
    };
    let mut filenames: Vec<String> = Vec::new();
    let mut i: usize = 0;
    while i < n
        invariant
            0 <= i <= n <= sorted.len(),
            filenames@ == match_paths(sorted@.take(i as int)),
        decreases n - i,
    {
        proof {
            assert(sorted@.take(i + 1) =~= sorted@.take(i as int).push(sorted@[i as int]));
            assert(match_paths(sorted@.take(i + 1)) =~= match_paths(sorted@.take(i as int)).push(
                sorted@[i as int].path,
            ));
        }
        filenames.push(sorted[i].path.clone());
        i = i + 1;
    }
    GlobSearchOutput { duration_ms, num_files: filenames.len(), filenames, truncated }
}

/// What `Path::is_absolute` says of a path (on the target the crate is
/// built for).
pub uninterp spec fn path_is_absolute(p: Seq<char>) -> bool;

/// The text of `Path::join(base, p)`: `p` under the directory `base`, or
/// `p` itself when it is absolute.
pub uninterp spec fn path_join(base: Seq<char>, p: Seq<char>) -> Seq<char>;

/// Calls `Path::is_absolute`.
#[verifier::external_body]
fn is_absolute_path(p: &str) -> (b: bool)
    ensures
        b == path_is_absolute(p@),
{
    std::path::Path::new(p).is_absolute()
}

/// Calls `Path::join` and turns the joined path (valid UTF-8, being made of
/// two `str`s) back into a string.
#[verifier::external_body]
fn join_path(base: &str, p: &str) -> (r: String)
    ensures
        r@ == path_join(base@, p@),
{
    std::path::Path::new(base).join(p).to_string_lossy().into_owned()
}

/// The pattern a glob search expands: the pattern itself when it is an
/// absolute path, else the pattern under the base directory.
pub fn search_pattern(pattern: &str, base_dir: &str) -> (r: String)
    ensures
        r@ == if path_is_absolute(pattern@) {
            pattern@
        } else {
            path_join(base_dir@, pattern@)
        },
{
    if is_absolute_path(pattern) {
        String::from_str(pattern)
    } else {
        join_path(base_dir, pattern)
    }
}

} // verus!
