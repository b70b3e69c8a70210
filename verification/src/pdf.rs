//! PDF reading: page range specifications such as `"1-3,7,9-10"`, the
//! pages of extracted text and the read tool's output for a PDF.
use vstd::prelude::*;
use crate::text::{
    chars_of, decimal, lines, lines_of, parse_usize, parse_usize_chars, push_decimal, push_str,
    split, split_chars, string_of, sub_chars, trim, trim_chars, views,
};
use crate::file_ops::{
    check_image, check_read_size, image_check, is_error, read_file_kind, read_kind,
    read_output_is, ErrorKind, ReadFileKind, ToolError, ReadFileOutput, TextFilePayload,
    MAX_PDF_PAGES, MAX_PDF_SIZE, MAX_READ_SIZE,
};
use vstd::string::StringExecFns;

verus! {

// ---------------------------------------------------------------------------
// Specification
// ---------------------------------------------------------------------------

/// The index of the first occurrence of `c` in `s`.
pub open spec fn find_char(s: Seq<char>, c: char) -> Option<nat>
    decreases s.len(),
{
    if s.len() == 0 {
        None
    } else if s[0] == c {
        Some(0)
    } else {
        match find_char(s.drop_first(), c) {
            Some(k) => Some(k + 1),
            None => None,
        }
    }
}

/// Message for a number of a range that does not parse.
pub open spec fn msg_invalid_range_number(piece: Seq<char>) -> Seq<char> {
    "invalid page number in range: '"@ + piece + "'"@
}

/// Message for a page number of zero.
pub open spec fn msg_zero_page() -> Seq<char> {
    "page numbers are 1-based; 0 is not valid"@
}

/// Message for a range whose start lies after its end.
pub open spec fn msg_reversed(start: nat, end: nat) -> Seq<char> {
    "invalid range: start ("@ + decimal(start) + ") > end ("@ + decimal(end) + ")"@
}

/// Message for a page beyond the end of the document.
pub open spec fn msg_out_of_bounds(page: nat, total: nat) -> Seq<char> {
    "page "@ + decimal(page) + " out of bounds (document has "@ + decimal(total) + " pages)"@
}

/// Message for a single page number that does not parse.
pub open spec fn msg_invalid_page(part: Seq<char>) -> Seq<char> {
    "invalid page number: '"@ + part + "'"@
}

/// Message for a specification that selects no page.
pub open spec fn msg_no_pages() -> Seq<char> {
    "page range resolved to zero pages"@
}

/// Message for a selection of more pages than one request may hold.
pub open spec fn msg_too_many(n: nat) -> Seq<char> {
    "requested "@ + decimal(n) + " pages, maximum is "@ + decimal(MAX_PDF_PAGES as nat)
}

/// The 0-based indices of the 1-based pages `start..=end`.
pub open spec fn page_span(start: nat, end: nat) -> Seq<usize> {
    Seq::new((end + 1 - start) as nat, |i: int| (start - 1 + i) as usize)
}

/// The pages that one trimmed, non-empty comma-separated part selects.
pub open spec fn part_pages(part: Seq<char>, total: nat) -> Result<Seq<usize>, Seq<char>> {
    match find_char(part, '-') {
        Some(k) => {
            let a = part.take(k as int);
            let b = part.skip(k + 1int);
            match (parse_usize(trim(a)), parse_usize(trim(b))) {
                (None, _) => Err(msg_invalid_range_number(a)),
                (Some(_), None) => Err(msg_invalid_range_number(b)),
                (Some(start), Some(end)) => {
                    if start == 0 || end == 0 {
                        Err(msg_zero_page())
                    } else if start > end {
                        Err(msg_reversed(start as nat, end as nat))
                    } else if end > total {
                        Err(msg_out_of_bounds(end as nat, total))
                    } else {
                        Ok(page_span(start as nat, end as nat))
                    }
                },
            }
        },
        None => match parse_usize(part) {
            None => Err(msg_invalid_page(part)),
            Some(page) => {
                if page == 0 {
                    Err(msg_zero_page())
                } else if page > total {
                    Err(msg_out_of_bounds(page as nat, total))
                } else {
                    Ok(seq![(page - 1) as usize])
                }
            },
        },
    }
}

/// The pages that the comma-separated parts select, in order and with
/// repetitions, or the message of the first part that is invalid.  Parts
/// that are empty once trimmed are skipped.
pub open spec fn parts_pages(parts: Seq<Seq<char>>, total: nat) -> Result<Seq<usize>, Seq<char>>
    decreases parts.len(),
{
    if parts.len() == 0 {
        Ok(Seq::empty())
    } else {
        let p = trim(parts[0]);
        let rest = parts_pages(parts.drop_first(), total);
        if p.len() == 0 {
            rest
        } else {
            match part_pages(p, total) {
                Err(e) => Err(e),
                Ok(ps) => match rest {
                    Err(e) => Err(e),
                    Ok(qs) => Ok(ps + qs),
                },
            }
        }
    }
}

/// `s` with every repeated element dropped, the first occurrence kept.
pub open spec fn dedup(s: Seq<usize>) -> Seq<usize>
    decreases s.len(),
{
    if s.len() == 0 {
        Seq::empty()
    } else {
        let r = dedup(s.drop_last());
        if r.contains(s.last()) {
            r
        } else {
            r.push(s.last())
        }
    }
}

/// The 0-based pages that a page range specification selects out of a
/// document of `total` pages, or the message of the error it causes.
pub open spec fn page_range(spec: Seq<char>, total: nat) -> Result<Seq<usize>, Seq<char>> {
    match parts_pages(split(spec, ','), total) {
        Err(e) => Err(e),
        Ok(ps) => {
            let d = dedup(ps);
            if d.len() == 0 {
                Err(msg_no_pages())
            } else if d.len() > MAX_PDF_PAGES {
                Err(msg_too_many(d.len()))
            } else {
                Ok(d)
            }
        },
    }
}

/// Whether an executable result carries the specified pages or message.
pub open spec fn page_result_matches(
    r: Result<Vec<usize>, ToolError>,
    s: Result<Seq<usize>, Seq<char>>,
) -> bool {
    match s {
        Ok(ps) => r is Ok && r->Ok_0@ == ps,
        Err(m) => r is Err && is_error(r->Err_0, ErrorKind::InvalidInput, m),
    }
}

// ---------------------------------------------------------------------------
// Lemmas
// ---------------------------------------------------------------------------

/// The first occurrence of `c` found by a scan from the front.
pub proof fn lemma_find_char(s: Seq<char>, c: char, k: int)
    requires
        0 <= k <= s.len(),
        forall|j: int| 0 <= j < k ==> s[j] != c,
    ensures
        k < s.len() && s[k] == c ==> find_char(s, c) == Some(k as nat),
        k == s.len() ==> find_char(s, c) is None,
    decreases k,
{
    if k > 0 {
        lemma_find_char(s.drop_first(), c, k - 1);
    }
}

/// Every element of `dedup(s)` occurs in `s` and the other way round, and
/// `dedup(s)` holds no repetition.
pub proof fn lemma_dedup(s: Seq<usize>)
    ensures
        forall|x: usize| #[trigger] dedup(s).contains(x) <==> s.contains(x),
        dedup(s).no_duplicates(),
    decreases s.len(),
{
    if s.len() > 0 {
        let t = s.drop_last();
        let y = s.last();
        lemma_dedup(t);
        let r = dedup(t);
        assert forall|x: usize| #[trigger] dedup(s).contains(x) <==> s.contains(x) by {
            if s.contains(x) {
                let i = choose|i: int| 0 <= i < s.len() && s[i] == x;
                if i < s.len() - 1 {
                    assert(t[i] == x);
                    assert(t.contains(x));
                    assert(r.contains(x));
                    if !r.contains(y) {
                        let j = choose|j: int| 0 <= j < r.len() && r[j] == x;
                        assert(r.push(y)[j] == x);
                    }
                } else {
                    if !r.contains(y) {
                        assert(r.push(y)[r.len() as int] == y);
                    }
                }
            }
            if dedup(s).contains(x) {
                let d = dedup(s);
                let j = choose|j: int| 0 <= j < d.len() && d[j] == x;
                if r.contains(y) {
                    assert(r.contains(x));
                    let i = choose|i: int| 0 <= i < t.len() && t[i] == x;
                    assert(s[i] == x);
                } else if j < r.len() {
                    assert(r[j] == x);
                    assert(r.contains(x));
                    let i = choose|i: int| 0 <= i < t.len() && t[i] == x;
                    assert(s[i] == x);
                } else {
                    assert(x == y);
                    assert(s[s.len() - 1] == x);
                }
            }
        }
        if !r.contains(y) {
            let d = r.push(y);
            assert forall|i: int, j: int| 0 <= i < d.len() && 0 <= j < d.len() && i != j implies d[i]
                != d[j] by {
                if i < r.len() && j < r.len() {
                } else if i < r.len() {
                    assert(r[i] == d[i]);
                    if d[i] == d[j] {
                        assert(r.contains(y));
                    }
                } else if j < r.len() {
                    assert(r[j] == d[j]);
                    if d[i] == d[j] {
                        assert(r.contains(y));
                    }
                }
            }
        }
    }
}

/// The pages that a part selects all lie within the document.
pub proof fn lemma_part_pages_bounded(part: Seq<char>, total: nat)
    ensures
        part_pages(part, total) matches Ok(ps) ==> forall|i: int|
            0 <= i < ps.len() ==> #[trigger] ps[i] < total,
{
}

/// The pages that the parts select all lie within the document.
pub proof fn lemma_parts_pages_bounded(parts: Seq<Seq<char>>, total: nat)
    ensures
        parts_pages(parts, total) matches Ok(ps) ==> forall|i: int|
            0 <= i < ps.len() ==> #[trigger] ps[i] < total,
    decreases parts.len(),
{
    if parts.len() > 0 {
        lemma_parts_pages_bounded(parts.drop_first(), total);
        lemma_part_pages_bounded(trim(parts[0]), total);
        if let Ok(ps) = parts_pages(parts, total) {
            let p = trim(parts[0]);
            if p.len() > 0 {
                let a = part_pages(p, total)->Ok_0;
                let b = parts_pages(parts.drop_first(), total)->Ok_0;
                assert(ps == a + b);
                assert forall|i: int| 0 <= i < ps.len() implies #[trigger] ps[i] < total by {
                    if i < a.len() {
                        assert(ps[i] == a[i]);
                    } else {
                        assert(ps[i] == b[i - a.len()]);
                    }
                }
            }
        }
    }
}

/// The pages that a page range selects lie within the document, are
/// distinct, and number between 1 and `MAX_PDF_PAGES`.
pub proof fn lemma_page_range_valid(spec: Seq<char>, total: nat)
    ensures
        page_range(spec, total) matches Ok(ps) ==> {
            &&& 0 < ps.len() <= MAX_PDF_PAGES
            &&& ps.no_duplicates()
            &&& forall|i: int| 0 <= i < ps.len() ==> #[trigger] ps[i] < total
        },
{
    lemma_parts_pages_bounded(split(spec, ','), total);
    if let Ok(all) = parts_pages(split(spec, ','), total) {
        lemma_dedup(all);
        let d = dedup(all);
        assert forall|i: int| 0 <= i < d.len() implies #[trigger] d[i] < total by {
            assert(d.contains(d[i]));
            assert(all.contains(d[i]));
            let j = choose|j: int| 0 <= j < all.len() && all[j] == d[i];
            assert(all[j] < total);
        }
    }
}

// ---------------------------------------------------------------------------
// Executable code
// ---------------------------------------------------------------------------

/// Formats the message of an invalid range number.
fn invalid_range_number(piece: &[char]) -> (e: ToolError)
    ensures
        is_error(e, ErrorKind::InvalidInput, msg_invalid_range_number(piece@)),
{
    let mut m = String::new();
    push_str(&mut m, "invalid page number in range: '");
    push_str(&mut m, string_of(piece).as_str());
    push_str(&mut m, "'");
    ToolError::new(ErrorKind::InvalidInput, m)
}

/// Formats the message of a zero page number.
fn zero_page() -> (e: ToolError)
    ensures
        is_error(e, ErrorKind::InvalidInput, msg_zero_page()),
{
    let mut m = String::new();
    push_str(&mut m, "page numbers are 1-based; 0 is not valid");
    ToolError::new(ErrorKind::InvalidInput, m)
}

/// Formats the message of a reversed range.
fn reversed(start: usize, end: usize) -> (e: ToolError)
    ensures
        is_error(e, ErrorKind::InvalidInput, msg_reversed(start as nat, end as nat)),
{
    let mut m = String::new();
    push_str(&mut m, "invalid range: start (");
    push_decimal(&mut m, start as u64);
    push_str(&mut m, ") > end (");
    push_decimal(&mut m, end as u64);
    push_str(&mut m, ")");
    ToolError::new(ErrorKind::InvalidInput, m)
}

/// Formats the message of a page beyond the document.
fn out_of_bounds(page: usize, total: usize) -> (e: ToolError)
    ensures
        is_error(e, ErrorKind::InvalidInput, msg_out_of_bounds(page as nat, total as nat)),
{
    let mut m = String::new();
    push_str(&mut m, "page ");
    push_decimal(&mut m, page as u64);
    push_str(&mut m, " out of bounds (document has ");
    push_decimal(&mut m, total as u64);
    push_str(&mut m, " pages)");
    ToolError::new(ErrorKind::InvalidInput, m)
}

/// Formats the message of an invalid single page.
fn invalid_page(part: &[char]) -> (e: ToolError)
    ensures
        is_error(e, ErrorKind::InvalidInput, msg_invalid_page(part@)),
{
    let mut m = String::new();
    push_str(&mut m, "invalid page number: '");
    push_str(&mut m, string_of(part).as_str());
    push_str(&mut m, "'");
    ToolError::new(ErrorKind::InvalidInput, m)
}

/// The position of the first `c` in `v`.
pub fn find_char_index(v: &[char], c: char) -> (r: Option<usize>)
    ensures
        match r {
            Some(k) => find_char(v@, c) == Some(k as nat) && k < v.len(),
            None => find_char(v@, c) is None,
        },
{
    let mut i: usize = 0;
    while i < v.len()
        invariant
            0 <= i <= v.len(),
            forall|j: int| 0 <= j < i ==> v@[j] != c,
        decreases v.len() - i,
    {
        if v[i] == c {
            proof {
                lemma_find_char(v@, c, i as int);
            }
            return Some(i);
        }
        i = i + 1;
    }
    proof {
        lemma_find_char(v@, c, i as int);
    }
    None
}

/// Appends the 0-based indices of the pages `start..=end` to `pages`.
fn push_span(pages: &mut Vec<usize>, start: usize, end: usize)
    requires
        1 <= start <= end,
    ensures
        final(pages)@ == old(pages)@ + page_span(start as nat, end as nat),
{
    let ghost before = pages@;
    let mut p = start;
    assert(before + page_span(start as nat, (p - 1) as nat) =~= before);
    loop
        invariant_except_break
            1 <= start <= p <= end,
            pages@ == before + page_span(start as nat, (p - 1) as nat),
        ensures
            pages@ == before + page_span(start as nat, end as nat),
        decreases end - p,
    {
        pages.push(p - 1);
        assert(pages@ =~= before + page_span(start as nat, p as nat));
        if p == end {
            break;
        }
        p = p + 1;
    }
}

/// The pages that one trimmed, non-empty part selects.
fn parse_part(part: &[char], total_pages: usize) -> (r: Result<Vec<usize>, ToolError>)
    ensures
        page_result_matches(r, part_pages(part@, total_pages as nat)),
{
    match find_char_index(part, '-') {
        Some(k) => {
            let a = sub_chars(part, 0, k);
            let b = sub_chars(part, k + 1, part.len());
            assert(a@ =~= part@.take(k as int));
            assert(b@ =~= part@.skip(k + 1));
            let start = match parse_usize_chars(trim_chars(a.as_slice()).as_slice()) {
                Some(n) => n,
                None => {
                    return Err(invalid_range_number(a.as_slice()));
                },
            };
            let end = match parse_usize_chars(trim_chars(b.as_slice()).as_slice()) {
                Some(n) => n,
                None => {
                    return Err(invalid_range_number(b.as_slice()));
                },
            };
            if start == 0 || end == 0 {
                return Err(zero_page());
            }
            if start > end {
                return Err(reversed(start, end));
            }
            if end > total_pages {
                return Err(out_of_bounds(end, total_pages));
            }
            let mut pages: Vec<usize> = Vec::new();
            push_span(&mut pages, start, end);
            assert(pages@ =~= page_span(start as nat, end as nat));
            Ok(pages)
        },
        None => {
            let page = match parse_usize_chars(part) {
                Some(n) => n,
                None => {
                    return Err(invalid_page(part));
                },
            };
            if page == 0 {
                return Err(zero_page());
            }
            if page > total_pages {
                return Err(out_of_bounds(page, total_pages));
            }
            let mut pages: Vec<usize> = Vec::new();
            pages.push(page - 1);
            Ok(pages)
        },
    }
}

/// Whether `v` holds `x`.
fn holds(v: &Vec<usize>, x: usize) -> (b: bool)
    ensures
        b == v@.contains(x),
{
    let mut i: usize = 0;
    while i < v.len()
        invariant
            0 <= i <= v.len(),
            forall|j: int| 0 <= j < i ==> v@[j] != x,
        decreases v.len() - i,
    {
        if v[i] == x {
            assert(v@[i as int] == x);
            return true;
        }
        i = i + 1;
    }
    false
}

/// `pages` with repetitions dropped, first occurrences kept in order.
fn dedup_pages(pages: &Vec<usize>) -> (r: Vec<usize>)
    ensures
        r@ == dedup(pages@),
{
    let mut r: Vec<usize> = Vec::new();
    let mut i: usize = 0;
    while i < pages.len()
        invariant
            0 <= i <= pages.len(),
            r@ == dedup(pages@.take(i as int)),
        decreases pages.len() - i,
    {
        let x = pages[i];
        assert(pages@.take(i + 1).drop_last() =~= pages@.take(i as int));
        if !holds(&r, x) {
            r.push(x);
        }
        i = i + 1;
    }
    assert(pages@.take(pages.len() as int) =~= pages@);
    r
}

/// Parses a page range specification into 0-indexed page numbers.
///
/// Supported formats:
/// - `"3"`: single page (returns `[2]`)
/// - `"1-5"`: inclusive range (returns `[0,1,2,3,4]`)
/// - `"1,3,5"`: comma-separated list
/// - `"1-3,7,9-10"`: mixed ranges and single pages
///
/// All returned indices are 0-based, in the order first requested, without
/// repetitions.  The total number of pages may not exceed `MAX_PDF_PAGES` and
/// every page number must fall within `1..=total_pages`.
pub fn parse_page_range(spec: &str, total_pages: usize) -> (r: Result<Vec<usize>, ToolError>)
    ensures
        page_result_matches(r, page_range(spec@, total_pages as nat)),
        r matches Ok(ps) ==> {
            &&& 0 < ps.len() <= MAX_PDF_PAGES
            &&& ps@.no_duplicates()
            &&& forall|i: int| 0 <= i < ps.len() ==> #[trigger] ps@[i] < total_pages
        },
{
    proof {
        lemma_page_range_valid(spec@, total_pages as nat);
    }
    let chars = chars_of(spec);
    let parts = split_chars(chars.as_slice(), ',');
    let ghost all = views(parts@);
    let mut pages: Vec<usize> = Vec::new();
    let mut i: usize = 0;
    assert(all.skip(0) =~= all);
    while i < parts.len()
        invariant
            0 <= i <= parts.len(),
            all == views(parts@),
            all == split(spec@, ','),
            match parts_pages(all, total_pages as nat) {
                Ok(ps) => parts_pages(all.skip(i as int), total_pages as nat) matches Ok(qs)
                    && ps == pages@ + qs,
                Err(e) => parts_pages(all.skip(i as int), total_pages as nat) == Err::<
                    Seq<usize>,
                    Seq<char>,
                >(e),
            },
        decreases parts.len() - i,
    {
        let ghost rest = all.skip(i as int);
        assert(rest.drop_first() =~= all.skip(i + 1));
        assert(rest[0] == parts@[i as int]@);
        let part = trim_chars(parts[i].as_slice());
        if part.len() > 0 {
            match parse_part(part.as_slice(), total_pages) {
                Ok(more) => {
                    let ghost old_pages = pages@;
                    let mut more = more;
                    pages.append(&mut more);
                    proof {
                        match parts_pages(all, total_pages as nat) {
                            Ok(ps) => {
                                assert(ps == pages@ + parts_pages(
                                    all.skip(i + 1),
                                    total_pages as nat,
                                )->Ok_0);
                            },
                            Err(e) => {},
                        }
                    }
                },
                Err(e) => {
                    return Err(e);
                },
            }
        }
        i = i + 1;
    }
    proof {
        assert(all.skip(parts.len() as int) =~= Seq::<Seq<char>>::empty());
        assert(pages@ + Seq::<usize>::empty() =~= pages@);
    }
    let unique = dedup_pages(&pages);
    if unique.len() == 0 {
        let mut m = String::new();
        push_str(&mut m, "page range resolved to zero pages");
        return Err(ToolError::new(ErrorKind::InvalidInput, m));
    }
    if unique.len() > MAX_PDF_PAGES {
        let mut m = String::new();
        push_str(&mut m, "requested ");
        push_decimal(&mut m, unique.len() as u64);
        push_str(&mut m, " pages, maximum is ");
        push_decimal(&mut m, MAX_PDF_PAGES as u64);
        return Err(ToolError::new(ErrorKind::InvalidInput, m));
    }
    Ok(unique)
}

// ---------------------------------------------------------------------------
// Reading a PDF
// ---------------------------------------------------------------------------

/// The pages of extracted text: the pieces between form feeds, without a
/// final piece that holds only whitespace.
pub open spec fn pdf_pages(text: Seq<char>) -> Seq<Seq<char>> {
    let raw = split(text, '\x0c');
    if raw.len() > 0 && trim(raw.last()).len() == 0 {
        raw.drop_last()
    } else {
        raw
    }
}

/// The number of pages of extracted text, at least one.
pub open spec fn pdf_total(text: Seq<char>) -> nat {
    if pdf_pages(text).len() > 1 {
        pdf_pages(text).len()
    } else {
        1
    }
}

/// Message for a document with too many pages and no page selection.
pub open spec fn msg_pdf_needs_pages(total: nat) -> Seq<char> {
    "PDF has "@ + decimal(total) + " pages. Provide a `pages` parameter to select up to "@
        + decimal(MAX_PDF_PAGES as nat) + " pages (e.g., \"1-5\")."@
}

/// The pages a read selects: those of the page range when one is given,
/// all of them otherwise (at most `MAX_PDF_PAGES`).
pub open spec fn pdf_selection(text: Seq<char>, pages: Option<Seq<char>>) -> Result<
    Seq<usize>,
    (ErrorKind, Seq<char>),
> {
    match pages {
        Some(spec) => match page_range(spec, pdf_total(text)) {
            Ok(ps) => Ok(ps),
            Err(m) => Err((ErrorKind::InvalidInput, m)),
        },
        None => if pdf_total(text) > MAX_PDF_PAGES {
            Err((ErrorKind::InvalidData, msg_pdf_needs_pages(pdf_total(text))))
        } else {
            Ok(Seq::new(pdf_total(text), |i: int| i as usize))
        },
    }
}

/// The block of text shown for the page at 0-based index `idx`.
pub open spec fn page_block(pages: Seq<Seq<char>>, idx: usize) -> Seq<char> {
    "--- Page "@ + decimal((idx + 1) as nat) + " ---\n"@ + trim(
        if idx < pages.len() {
            pages[idx as int]
        } else {
            Seq::empty()
        },
    ) + "\n\n"@
}

/// The blocks of the selected pages, in order.
pub open spec fn page_blocks(pages: Seq<Seq<char>>, sel: Seq<usize>) -> Seq<char>
    decreases sel.len(),
{
    if sel.len() == 0 {
        Seq::empty()
    } else {
        page_blocks(pages, sel.drop_last()) + page_block(pages, sel.last())
    }
}

/// The content the read tool shows for extracted PDF text, or its error.
pub open spec fn pdf_content(text: Seq<char>, pages: Option<Seq<char>>) -> Result<
    Seq<char>,
    (ErrorKind, Seq<char>),
> {
    match pdf_selection(text, pages) {
        Ok(sel) => Ok(page_blocks(pdf_pages(text), sel)),
        Err(e) => Err(e),
    }
}

/// Whether a read result carries the PDF output for `content`, or its error.
pub open spec fn pdf_result_matches(
    r: Result<ReadFileOutput, ToolError>,
    path: Seq<char>,
    s: Result<Seq<char>, (ErrorKind, Seq<char>)>,
) -> bool {
    match s {
        Ok(c) => r is Ok && read_output_is(
            r->Ok_0,
            "pdf"@,
            path,
            c,
            lines(c).len(),
            1,
            lines(c).len(),
        ),
        Err((k, m)) => r is Err && is_error(r->Err_0, k, m),
    }
}

/// The optional characters of an optional string slice.
pub open spec fn opt_str_view(s: Option<&str>) -> Option<Seq<char>> {
    match s {
        Some(x) => Some(x@),
        None => None,
    }
}

/// Rejects a PDF larger than `MAX_PDF_SIZE`.
pub fn check_pdf_size(len: u64) -> (r: Result<(), ToolError>)
    ensures
        r is Ok <==> len <= MAX_PDF_SIZE,
        r matches Err(e) ==> is_error(
            e,
            ErrorKind::InvalidData,
            "PDF too large ("@ + decimal(len as nat) + " bytes, max "@ + decimal(
                MAX_PDF_SIZE as nat,
            ) + " bytes)"@,
        ),
{
    if len > MAX_PDF_SIZE {
        let mut m = String::new();
        push_str(&mut m, "PDF too large (");
        push_decimal(&mut m, len);
        push_str(&mut m, " bytes, max ");
        push_decimal(&mut m, MAX_PDF_SIZE);
        push_str(&mut m, " bytes)");
        return Err(ToolError::new(ErrorKind::InvalidData, m));
    }
    Ok(())
}

/// The read tool's output for the extracted text of a PDF: each selected
/// page under a `--- Page n ---` header, trimmed, followed by a blank line.
pub fn pdf_output_from_text(file_path: &str, text: &str, pages: Option<&str>) -> (r: Result<
    ReadFileOutput,
    ToolError,
>)
    ensures
        pdf_result_matches(r, file_path@, pdf_content(text@, opt_str_view(pages))),
{
    let chars = chars_of(text);
    let mut all_pages = split_chars(chars.as_slice(), '\x0c');
    let n = all_pages.len();
    if n > 0 && trim_chars(all_pages[n - 1].as_slice()).len() == 0 {
        let ghost before = all_pages@;
        all_pages.pop();
        assert(views(all_pages@) =~= views(before).drop_last());
    }
    assert(views(all_pages@) == pdf_pages(text@));
    let total = if all_pages.len() > 1 {
        all_pages.len()
    } else {
        1
    };
    let selected: Vec<usize> = match pages {
        Some(spec) => match parse_page_range(spec, total) {
            Ok(ps) => ps,
            Err(e) => {
                return Err(e);
            },
        },
        None => {
            if total > MAX_PDF_PAGES {
                let mut m = String::new();
                push_str(&mut m, "PDF has ");
                push_decimal(&mut m, total as u64);
                push_str(&mut m, " pages. Provide a `pages` parameter to select up to ");
                push_decimal(&mut m, MAX_PDF_PAGES as u64);
                push_str(&mut m, " pages (e.g., \"1-5\").");
                return Err(ToolError::new(ErrorKind::InvalidData, m));
            }
            let mut all: Vec<usize> = Vec::new();
            let mut k: usize = 0;
            while k < total
                invariant
                    0 <= k <= total,
                    all@ == Seq::new(k as nat, |i: int| i as usize),
                decreases total - k,
            {
                all.push(k);
                k = k + 1;
                assert(all@ =~= Seq::new(k as nat, |i: int| i as usize));
            }
            all
        },
    };
    assert(selected@ == pdf_selection(text@, opt_str_view(pages))->Ok_0);
    assert forall|i: int| 0 <= i < selected.len() implies #[trigger] selected@[i] < total by {
    }
    let mut content = String::new();
    let mut j: usize = 0;
    while j < selected.len()
        invariant
            0 <= j <= selected.len(),
            views(all_pages@) == pdf_pages(text@),
            forall|i: int| 0 <= i < selected.len() ==> #[trigger] selected@[i] < total,
            content@ == page_blocks(views(all_pages@), selected@.take(j as int)),
        decreases selected.len() - j,
    {
        assert(selected@.take(j + 1).drop_last() =~= selected@.take(j as int));
        let idx = selected[j];
        assert(selected@[j as int] < total);
        let ghost before = content@;
        push_str(&mut content, "--- Page ");
        push_decimal(&mut content, (idx + 1) as u64);
        push_str(&mut content, " ---\n");
        let body: Vec<char> = if idx < all_pages.len() {
            trim_chars(all_pages[idx].as_slice())
        } else {
            Vec::new()
        };
        push_str(&mut content, string_of(body.as_slice()).as_str());
        push_str(&mut content, "\n\n");
        proof {
            let ps = views(all_pages@);
            if idx < all_pages.len() {
                assert(ps[idx as int] == all_pages@[idx as int]@);
            } else {
                assert(trim(Seq::<char>::empty()) =~= body@);
            }
            assert(content@ =~= before + page_block(ps, idx));
        }
        j = j + 1;
    }
    assert(selected@.take(selected.len() as int) =~= selected@);
    let num_lines = lines_of(chars_of(content.as_str()).as_slice()).len();
    Ok(ReadFileOutput {
        kind: String::from_str("pdf"),
        file: TextFilePayload {
            file_path: String::from_str(file_path),
            content,
            num_lines,
            start_line: 1,
            total_lines: num_lines,
        },
    })
}

/// The read tool's output once the text of a PDF has been extracted, or the
/// extractor's error message: the text is shown page by page as
/// `pdf_output_from_text` does, an extraction error is an `InvalidData`
/// error naming it.
pub fn pdf_output_from_extraction(file_path: &str, extracted: Result<String, String>, pages: Option<&str>) -> (r: Result<
    ReadFileOutput,
    ToolError,
>)
    ensures
        match extracted {
            Ok(t) => pdf_result_matches(r, file_path@, pdf_content(t@, opt_str_view(pages))),
            Err(e) => r is Err && is_error(
                r->Err_0,
                ErrorKind::InvalidData,
                "failed to extract PDF text: "@ + e@,
            ),
        },
{
    match extracted {
        Ok(t) => pdf_output_from_text(file_path, t.as_str(), pages),
        Err(e) => {
            let mut m = String::new();
            push_str(&mut m, "failed to extract PDF text: ");
            push_str(&mut m, e.as_str());
            Err(ToolError::new(ErrorKind::InvalidData, m))
        },
    }
}

/// The handling the read tool chooses for a file, once its size is known.
#[derive(Debug, Clone, PartialEq, Eq)]
pub enum ReadStep {
    /// Extract the text of a PDF.
    Pdf,
    /// Encode an image of the given media type.
    Image { media_type: String },
    /// Render a Jupyter notebook.
    Notebook,
    /// Read a text file, unless its first chunk shows it is binary.
    Text,
}

/// Decides how the read tool handles the file at `path` of `len` bytes, in
/// the order the tool checks: a PDF (by extension, under the PDF size
/// limit), then an image (by extension, under the image size limit, with a
/// known media type), then any other file under the read size limit, as a
/// notebook (`ipynb`) or as text.
pub fn read_plan(path: &str, len: u64) -> (r: Result<ReadStep, ToolError>)
    ensures
        match read_kind(path@) {
            ReadFileKind::Pdf => if len <= MAX_PDF_SIZE {
                r == Ok::<ReadStep, ToolError>(ReadStep::Pdf)
            } else {
                r is Err && is_error(
                    r->Err_0,
                    ErrorKind::InvalidData,
                    "PDF too large ("@ + decimal(len as nat) + " bytes, max "@ + decimal(
                        MAX_PDF_SIZE as nat,
                    ) + " bytes)"@,
                )
            },
            ReadFileKind::Image => match image_check(path@, len as nat) {
                Ok(m) => (r matches Ok(ReadStep::Image { media_type }) && media_type@ == m),
                Err((k, m)) => r is Err && is_error(r->Err_0, k, m),
            },
            kind => if len <= MAX_READ_SIZE {
                r == Ok::<ReadStep, ToolError>(
                    if kind == ReadFileKind::Notebook {
                        ReadStep::Notebook
                    } else {
                        ReadStep::Text
                    },
                )
            } else {
                r is Err && is_error(
                    r->Err_0,
                    ErrorKind::InvalidData,
                    "file is too large ("@ + decimal(len as nat) + " bytes, max "@ + decimal(
                        MAX_READ_SIZE as nat,
                    ) + " bytes)"@,
                )
            },
        },
{
    match read_file_kind(path) {
        ReadFileKind::Pdf => {
            check_pdf_size(len)?;
            Ok(ReadStep::Pdf)
        },
        ReadFileKind::Image => {
            let m = check_image(path, len)?;
            Ok(ReadStep::Image { media_type: String::from_str(m) })
        },
        ReadFileKind::Notebook => {
            check_read_size(len)?;
            Ok(ReadStep::Notebook)
        },
        ReadFileKind::Text => {
            check_read_size(len)?;
            Ok(ReadStep::Text)
        },
    }
}

} // verus!
