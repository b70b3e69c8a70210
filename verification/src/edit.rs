//! The edit tool: replacing one or every occurrence of a string in a file's
//! contents, and the output envelope that describes the change.
use vstd::prelude::*;
use vstd::string::StringExecFns;
use crate::text::{chars_of, string_of, sub_chars};
use crate::file_ops::{
    is_error, make_patch, whole_file_hunk, ErrorKind, ToolError, StructuredPatchHunk,
};

verus! {

/// Whether `p` occurs in `s` at position `i`.
pub open spec fn occurs_at(s: Seq<char>, p: Seq<char>, i: int) -> bool {
    0 <= i && i + p.len() <= s.len() && s.subrange(i, i + p.len()) == p
}

/// Whether `p` occurs in `s` (the empty string occurs everywhere).
pub open spec fn occurs(s: Seq<char>, p: Seq<char>) -> bool {
    exists|i: int| occurs_at(s, p, i)
}

/// `s` with every non-overlapping occurrence of `p`, found from the left,
/// replaced by `r`, as `str::replace` does.  An empty `p` matches before
/// every character and at the end.
pub open spec fn replace_all(s: Seq<char>, p: Seq<char>, r: Seq<char>) -> Seq<char>
    decreases s.len(),
{
    if p.len() == 0 {
        if s.len() == 0 {
            r
        } else {
            r + seq![s[0]] + replace_all(s.drop_first(), p, r)
        }
    } else if s.len() >= p.len() && s.take(p.len() as int) == p {
        r + replace_all(s.skip(p.len() as int), p, r)
    } else if s.len() == 0 {
        Seq::empty()
    } else {
        seq![s[0]] + replace_all(s.drop_first(), p, r)
    }
}

/// `s` with its first occurrence of `p` replaced by `r`, as
/// `str::replacen(p, r, 1)` does.
pub open spec fn replace_first(s: Seq<char>, p: Seq<char>, r: Seq<char>) -> Seq<char>
    decreases s.len(),
{
    if s.len() >= p.len() && s.take(p.len() as int) == p {
        r + s.skip(p.len() as int)
    } else if s.len() == 0 {
        Seq::empty()
    } else {
        seq![s[0]] + replace_first(s.drop_first(), p, r)
    }
}

/// The edited contents, or the error kind and message of a refused edit.
pub open spec fn edit_result(
    original: Seq<char>,
    old_string: Seq<char>,
    new_string: Seq<char>,
    all: bool,
) -> Result<Seq<char>, (ErrorKind, Seq<char>)> {
    if old_string == new_string {
        Err((ErrorKind::InvalidInput, "old_string and new_string must differ"@))
    } else if !occurs(original, old_string) {
        Err((ErrorKind::NotFound, "old_string not found in file"@))
    } else if all {
        Ok(replace_all(original, old_string, new_string))
    } else {
        Ok(replace_first(original, old_string, new_string))
    }
}

/// Whether `p` occurs in `s` at position `i`.
fn matches_at(s: &[char], p: &[char], i: usize) -> (b: bool)
    ensures
        b == occurs_at(s@, p@, i as int),
{
    if i > s.len() || p.len() > s.len() - i {
        return false;
    }
    let mut k: usize = 0;
    while k < p.len()
        invariant
            0 <= k <= p.len(),
            i + p.len() <= s.len(),
            forall|j: int| 0 <= j < k ==> s@[i + j] == p@[j],
        decreases p.len() - k,
    {
        if s[i + k] != p[k] {
            assert(s@.subrange(i as int, i + p.len())[k as int] != p@[k as int]);
            return false;
        }
        k = k + 1;
    }
    assert(s@.subrange(i as int, i + p.len()) =~= p@);
    true
}

/// Whether `p` occurs in `s`.
pub(crate) fn occurs_in(s: &[char], p: &[char]) -> (b: bool)
    ensures
        b == occurs(s@, p@),
{
    if p.len() > s.len() {
        assert forall|i: int| !occurs_at(s@, p@, i) by {}
        return false;
    }
    let last = s.len() - p.len();
    let mut i: usize = 0;
    loop
        invariant_except_break
            p.len() <= s.len(),
            last == s.len() - p.len(),
            0 <= i <= last,
            forall|j: int| 0 <= j < i ==> !occurs_at(s@, p@, j),
        ensures
            forall|j: int| 0 <= j <= last ==> !occurs_at(s@, p@, j),
        decreases last - i,
    {
        if matches_at(s, p, i) {
            return true;
        }
        if i == last {
            break;
        }
        i = i + 1;
    }
    assert forall|j: int| !occurs_at(s@, p@, j) by {
        if 0 <= j && j <= last {
        }
    }
    false
}

/// Relates a match at the front of `s.skip(i)` to a match at `i`.
proof fn lemma_front_match(s: Seq<char>, p: Seq<char>, i: int)
    requires
        0 <= i <= s.len(),
    ensures
        (s.skip(i).len() >= p.len() && s.skip(i).take(p.len() as int) == p) == occurs_at(s, p, i),
        occurs_at(s, p, i) ==> s.skip(i).skip(p.len() as int) == s.skip(i + p.len()),
{
    if s.skip(i).len() >= p.len() {
        assert(s.skip(i).take(p.len() as int) =~= s.subrange(i, i + p.len()));
    }
    if occurs_at(s, p, i) {
        assert(s.skip(i).skip(p.len() as int) =~= s.skip(i + p.len()));
    }
}

/// `s` with every occurrence of `p` replaced by `r`.
fn replace_all_chars(s: &[char], p: &[char], r: &[char]) -> (out: Vec<char>)
    ensures
        out@ == replace_all(s@, p@, r@),
{
    let mut out: Vec<char> = Vec::new();
    let mut i: usize = 0;
    assert(s@.skip(0) =~= s@);
    assert(out@ + replace_all(s@.skip(0), p@, r@) =~= replace_all(s@, p@, r@));
    while i < s.len()
        invariant
            0 <= i <= s.len(),
            out@ + replace_all(s@.skip(i as int), p@, r@) == replace_all(s@, p@, r@),
        decreases s.len() - i,
    {
        let ghost rest = s@.skip(i as int);
        assert(rest.drop_first() =~= s@.skip(i + 1));
        assert(rest[0] == s@[i as int]);
        proof {
            lemma_front_match(s@, p@, i as int);
        }
        if p.len() == 0 {
            let ghost before = out@;
            let mut piece = sub_chars(r, 0, r.len());
            assert(piece@ =~= r@);
            out.append(&mut piece);
            out.push(s[i]);
            assert(out@ =~= before + (r@ + seq![s@[i as int]]));
            i = i + 1;
        } else if matches_at(s, p, i) {
            let ghost before = out@;
            let mut piece = sub_chars(r, 0, r.len());
            assert(piece@ =~= r@);
            out.append(&mut piece);
            assert(out@ =~= before + r@);
            i = i + p.len();
        } else {
            let ghost before = out@;
            out.push(s[i]);
            assert(out@ =~= before + seq![s@[i as int]]);
            i = i + 1;
        }
    }
    assert(s@.skip(i as int) =~= Seq::<char>::empty());
    if p.len() == 0 {
        let mut piece = sub_chars(r, 0, r.len());
        assert(piece@ =~= r@);
        out.append(&mut piece);
    } else {
        assert(out@ + Seq::<char>::empty() =~= out@);
    }
    out
}

/// `s` with its first occurrence of `p` replaced by `r`.
fn replace_first_chars(s: &[char], p: &[char], r: &[char]) -> (out: Vec<char>)
    ensures
        out@ == replace_first(s@, p@, r@),
{
    let mut out: Vec<char> = Vec::new();
    let mut i: usize = 0;
    assert(s@.skip(0) =~= s@);
    assert(out@ + replace_first(s@.skip(0), p@, r@) =~= replace_first(s@, p@, r@));
    while i < s.len()
        invariant
            0 <= i <= s.len(),
            out@ + replace_first(s@.skip(i as int), p@, r@) == replace_first(s@, p@, r@),
        decreases s.len() - i,
    {
        let ghost rest = s@.skip(i as int);
        assert(rest.drop_first() =~= s@.skip(i + 1));
        assert(rest[0] == s@[i as int]);
        proof {
            lemma_front_match(s@, p@, i as int);
        }
        if matches_at(s, p, i) {
            let ghost before = out@;
            let mut piece = sub_chars(r, 0, r.len());
            assert(piece@ =~= r@);
            out.append(&mut piece);
            let mut tail = sub_chars(s, i + p.len(), s.len());
            assert(tail@ =~= s@.skip(i + p.len()));
            out.append(&mut tail);
            assert(out@ =~= before + (r@ + s@.skip(i + p.len())));
            return out;
        }
        let ghost before = out@;
        out.push(s[i]);
        assert(out@ =~= before + seq![s@[i as int]]);
        i = i + 1;
    }
    assert(s@.skip(i as int) =~= Seq::<char>::empty());
    proof {
        lemma_front_match(s@, p@, i as int);
    }
    if p.len() == 0 {
        assert(Seq::<char>::empty().take(0) =~= p@);
        assert(Seq::<char>::empty().skip(0) =~= Seq::<char>::empty());
        let mut piece = sub_chars(r, 0, r.len());
        assert(piece@ =~= r@);
        out.append(&mut piece);
        assert(out@ =~= replace_first(s@, p@, r@));
    } else {
        assert(out@ + Seq::<char>::empty() =~= out@);
    }
    out
}

/// Replaces one occurrence (the first) or every occurrence of `old_string`
/// in `original` by `new_string`.  Refuses identical strings
/// (`InvalidInput`) and a string that does not occur (`NotFound`).
pub fn edit_file_contents(original: &str, old_string: &str, new_string: &str, replace_all: bool) -> (r:
    Result<String, ToolError>)
    ensures
        match edit_result(original@, old_string@, new_string@, replace_all) {
            Ok(t) => r is Ok && r->Ok_0@ == t,
            Err((k, m)) => r is Err && is_error(r->Err_0, k, m),
        },
{
    let s = chars_of(original);
    let p = chars_of(old_string);
    let n = chars_of(new_string);
    if crate::text::str_eq(old_string, new_string) {
        return Err(
            ToolError::new(
                ErrorKind::InvalidInput,
                String::from_str("old_string and new_string must differ"),
            ),
        );
    }
    if !occurs_in(s.as_slice(), p.as_slice()) {
        return Err(
            ToolError::new(ErrorKind::NotFound, String::from_str("old_string not found in file")),
        );
    }
    let updated = if replace_all {
        replace_all_chars(s.as_slice(), p.as_slice(), n.as_slice())
    } else {
        replace_first_chars(s.as_slice(), p.as_slice(), n.as_slice())
    };
    Ok(string_of(updated.as_slice()))
}

/// Output envelope for targeted string-replacement edits.
#[derive(Debug, Clone, PartialEq, Eq)]
pub struct EditFileOutput {
    pub file_path: String,
    pub old_string: String,
    pub new_string: String,
    pub original_file: String,
    pub structured_patch: Vec<StructuredPatchHunk>,
    pub user_modified: bool,
    pub replace_all: bool,
    pub git_diff: Option<serde_json::Value>,
}

/// The edit tool's output for a change from `original` to `updated`.
pub fn edit_file_output(
    file_path: &str,
    old_string: &str,
    new_string: &str,
    original: &str,
    updated: &str,
    replace_all: bool,
) -> (out: EditFileOutput)
    ensures
        out.file_path@ == file_path@,
        out.old_string@ == old_string@,
        out.new_string@ == new_string@,
        out.original_file@ == original@,
        out.structured_patch.len() == 1,
        whole_file_hunk(out.structured_patch@[0], original@, updated@),
        !out.user_modified,
        out.replace_all == replace_all,
        out.git_diff is None,
{
    EditFileOutput {
        file_path: String::from_str(file_path),
        old_string: String::from_str(old_string),
        new_string: String::from_str(new_string),
        original_file: String::from_str(original),
        structured_patch: make_patch(original, updated),
        user_modified: false,
        replace_all,
        git_diff: None,
    }
}

/// Dropping the first character of a stretch where `p` does not start
/// leaves a stretch where it does not start either, and `p` does not start
/// at the front of the whole text.
proof fn lemma_no_start_shifts(s: Seq<char>, p: Seq<char>, t: Seq<char>)
    requires
        s.len() > 0,
        forall|i: int| 0 <= i < s.len() ==> !occurs_at(s + p + t, p, i),
    ensures
        (s + p + t).drop_first() == s.drop_first() + p + t,
        (s + p + t)[0] == s[0],
        !((s + p + t).len() >= p.len() && (s + p + t).take(p.len() as int) == p),
        forall|i: int| 0 <= i < s.len() - 1 ==> !occurs_at(s.drop_first() + p + t, p, i),
{
    let x = s + p + t;
    let d = s.drop_first();
    assert(!occurs_at(x, p, 0));
    assert(x.drop_first() =~= d + p + t);
    assert forall|i: int| 0 <= i < d.len() implies !occurs_at(d + p + t, p, i) by {
        assert((d + p + t).subrange(i, i + p.len()) =~= x.subrange(i + 1, i + 1 + p.len()));
        assert(!occurs_at(x, p, i + 1));
    }
}

/// Putting the first character back in front of the rest of a text.
proof fn lemma_put_back_first(s: Seq<char>, u: Seq<char>)
    requires
        s.len() > 0,
    ensures
        seq![s[0]] + (s.drop_first() + u) == s + u,
{
    assert(seq![s[0]] + (s.drop_first() + u) =~= s + u);
}

/// Replacing every occurrence changes nothing in a text where the pattern
/// does not occur.
pub proof fn law_replace_all_without_match(s: Seq<char>, p: Seq<char>, r: Seq<char>)
    requires
        p.len() > 0,
        !occurs(s, p),
    ensures
        replace_all(s, p, r) == s,
    decreases s.len(),
{
    if s.len() > 0 {
        assert(!occurs_at(s, p, 0));
        let d = s.drop_first();
        assert forall|i: int| !occurs_at(d, p, i) by {
            if occurs_at(d, p, i) {
                assert(d.subrange(i, i + p.len()) =~= s.subrange(i + 1, i + 1 + p.len()));
                assert(occurs_at(s, p, i + 1));
            }
        }
        law_replace_all_without_match(d, p, r);
        assert(seq![s[0]] + d =~= s);
    }
}

/// Replacing every occurrence replaces the first one, `p` right after a
/// stretch `s` where it does not start, and goes on with the text after it:
/// the characters that follow a replaced occurrence are searched again, so
/// adjacent occurrences are all replaced.
pub proof fn law_replace_all_continues_after_match(
    s: Seq<char>,
    p: Seq<char>,
    r: Seq<char>,
    t: Seq<char>,
)
    requires
        p.len() > 0,
        forall|i: int| 0 <= i < s.len() ==> !occurs_at(s + p + t, p, i),
    ensures
        replace_all(s + p + t, p, r) == s + r + replace_all(t, p, r),
    decreases s.len(),
{
    let x = s + p + t;
    if s.len() == 0 {
        assert(x.take(p.len() as int) =~= p);
        assert(x.skip(p.len() as int) =~= t);
        assert(s + r =~= r);
    } else {
        let d = s.drop_first();
        lemma_no_start_shifts(s, p, t);
        law_replace_all_continues_after_match(d, p, r, t);
        lemma_put_back_first(s, r + replace_all(t, p, r));
        assert(s + (r + replace_all(t, p, r)) =~= s + r + replace_all(t, p, r));
    }
}

/// Replacing the first occurrence replaces `p` right after a stretch `s`
/// where it does not start, and keeps everything after it as it is.
pub proof fn law_replace_first_keeps_the_rest(
    s: Seq<char>,
    p: Seq<char>,
    r: Seq<char>,
    t: Seq<char>,
)
    requires
        forall|i: int| 0 <= i < s.len() ==> !occurs_at(s + p + t, p, i),
    ensures
        replace_first(s + p + t, p, r) == s + r + t,
    decreases s.len(),
{
    let x = s + p + t;
    if s.len() == 0 {
        assert(x.take(p.len() as int) =~= p);
        assert(x.skip(p.len() as int) =~= t);
        assert(s + r + t =~= r + t);
    } else {
        let d = s.drop_first();
        lemma_no_start_shifts(s, p, t);
        law_replace_first_keeps_the_rest(d, p, r, t);
        lemma_put_back_first(s, r + t);
        assert(replace_first(x, p, r) == seq![x[0]] + replace_first(x.drop_first(), p, r));
        assert(s + (r + t) =~= s + r + t);
    }
}

/// With an empty pattern, replacing every occurrence puts the replacement
/// before every character and at the end: the replacement alone for an
/// empty text, and one more character followed by one more replacement for
/// each character added at the end.
pub proof fn law_replace_all_empty_pattern(s: Seq<char>, r: Seq<char>, c: char)
    ensures
        replace_all(Seq::empty(), Seq::empty(), r) == r,
        replace_all(s.push(c), Seq::empty(), r) == replace_all(s, Seq::empty(), r) + seq![c] + r,
    decreases s.len(),
{
    let e = Seq::<char>::empty();
    if s.len() == 0 {
        assert(s.push(c) =~= seq![c]);
        assert(seq![c].drop_first() =~= e);
        assert(s =~= e);
    } else {
        let d = s.drop_first();
        assert(s.push(c).drop_first() =~= d.push(c));
        law_replace_all_empty_pattern(d, r, c);
        assert(s.push(c)[0] == s[0]);
        let tail = replace_all(d, e, r);
        assert(r + seq![s[0]] + (tail + seq![c] + r) =~= (r + seq![s[0]] + tail) + seq![c] + r);
    }
}

} // verus!
