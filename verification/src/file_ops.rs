//! File tool support: error values, size limits, media types, line windows,
//! patches and the output envelopes of the read, write and edit tools.
use vstd::prelude::*;
use vstd::string::StringExecFns;
use base64::Engine;
use crate::text::{
    chars_of, decimal, eq_ignore_case, join, join_range, lemma_ignore_case_one_keyword, lines,
    lines_of, matches_ignore_case, push_char, push_decimal, push_str, string_of, views,
};

verus! {

/// Maximum file size that can be read (10 MB).
pub const MAX_READ_SIZE: u64 = 10485760;

/// Maximum file size that can be written (10 MB).
pub const MAX_WRITE_SIZE: usize = 10485760;

/// Maximum number of PDF pages per request.
pub const MAX_PDF_PAGES: usize = 20;

/// Maximum PDF file size (20 MB).
pub const MAX_PDF_SIZE: u64 = 20971520;

/// Maximum image file size (20 MB).
pub const MAX_IMAGE_SIZE: u64 = 20971520;

/// The category of a failed operation.
#[derive(Debug, Clone, Copy, PartialEq, Eq, Structural)]
pub enum ErrorKind {
    InvalidData,
    InvalidInput,
    NotFound,
    PermissionDenied,
    Other,
}

/// A failed operation of a tool: its category and a human readable message.
#[derive(Debug, Clone)]
pub struct ToolError {
    pub kind: ErrorKind,
    pub message: String,
}

impl ToolError {
    /// An error of the given kind carrying `message`.
    pub fn new(kind: ErrorKind, message: String) -> (e: ToolError)
        ensures
            e.kind == kind,
            e.message@ == message@,
    {
        ToolError { kind, message }
    }

    /// The category of the error.
    pub fn kind(&self) -> (k: ErrorKind)
        ensures
            k == self.kind,
    {
        self.kind
    }

    /// The message of the error.
    pub fn to_string(&self) -> (s: String)
        ensures
            s@ == self.message@,
    {
        self.message.clone()
    }
}

/// An error of kind `kind` with the message `message`.
pub open spec fn is_error(r: ToolError, kind: ErrorKind, message: Seq<char>) -> bool {
    r.kind == kind && r.message@ == message
}

/// The extension that `std::path::Path::extension` finds in a path: the part
/// of its last component after the final `.`, when that component has an
/// embedded `.` that does not start it.  Paths are read with the separator of
/// the target the crate is built for.
pub uninterp spec fn path_extension(path: Seq<char>) -> Option<Seq<char>>;

/// Calls `Path::extension` on `path` and converts the result (which is valid
/// UTF-8, being a part of a `str`) back to a string.  Claims nothing beyond
/// the result being named `path_extension(path)`.
#[verifier::external_body]
pub(crate) fn extension_of(path: &str) -> (r: Option<String>)
    ensures
        match r {
            Some(e) => path_extension(path@) == Some(e@),
            None => path_extension(path@) is None,
        },
{
    std::path::Path::new(path).extension().and_then(|e| e.to_str()).map(|e| e.to_string())
}

// ---------------------------------------------------------------------------
// Media types and dispatch on extensions
// ---------------------------------------------------------------------------

/// The MIME media type of a recognized image extension (compared without
/// regard to case).
pub open spec fn media_type(ext: Seq<char>) -> Option<Seq<char>> {
    if eq_ignore_case(ext, "png"@) {
        Some("image/png"@)
    } else if eq_ignore_case(ext, "jpg"@) || eq_ignore_case(ext, "jpeg"@) {
        Some("image/jpeg"@)
    } else if eq_ignore_case(ext, "gif"@) {
        Some("image/gif"@)
    } else if eq_ignore_case(ext, "webp"@) {
        Some("image/webp"@)
    } else {
        None
    }
}

/// Returns the MIME media type for a recognized image extension.
pub fn media_type_for_extension(ext: &str) -> (r: Option<&'static str>)
    ensures
        match r {
            Some(m) => media_type(ext@) == Some(m@),
            None => media_type(ext@) is None,
        },
{
    let v = chars_of(ext);
    if matches_ignore_case(v.as_slice(), "png") {
        Some("image/png")
    } else if matches_ignore_case(v.as_slice(), "jpg") || matches_ignore_case(v.as_slice(), "jpeg") {
        Some("image/jpeg")
    } else if matches_ignore_case(v.as_slice(), "gif") {
        Some("image/gif")
    } else if matches_ignore_case(v.as_slice(), "webp") {
        Some("image/webp")
    } else {
        None
    }
}

/// Whether a path names an image by its extension.
pub open spec fn image_path(path: Seq<char>) -> bool {
    match path_extension(path) {
        Some(e) => media_type(e) is Some,
        None => false,
    }
}

/// Checks whether a path has a recognized image file extension.
pub fn is_image_extension(path: &str) -> (b: bool)
    ensures
        b == image_path(path@),
{
    match extension_of(path) {
        Some(e) => media_type_for_extension(e.as_str()).is_some(),
        None => false,
    }
}

/// ASCII upper case letters in lower case; everything else unchanged.
pub open spec fn ascii_lower(c: char) -> char {
    if 'A' <= c <= 'Z' {
        ((c as u32) + 32) as char
    } else {
        c
    }
}

/// What `str::eq_ignore_ascii_case` decides for a lower case keyword.
pub open spec fn eq_ignore_ascii(s: Seq<char>, kw: Seq<char>) -> bool {
    &&& s.len() == kw.len()
    &&& forall|i: int| 0 <= i < s.len() ==> ascii_lower(#[trigger] s[i]) == kw[i]
}

/// How the read tool handles a file.
#[derive(Debug, Clone, Copy, PartialEq, Eq, Structural)]
pub enum ReadFileKind {
    Pdf,
    Image,
    Notebook,
    Text,
}

/// How the read tool handles a path: PDF by a `pdf` extension in any ASCII
/// case, then images by their extension, then notebooks by an exact `ipynb`
/// extension, and text otherwise.
pub open spec fn read_kind(path: Seq<char>) -> ReadFileKind {
    if path_extension(path) matches Some(e) && eq_ignore_ascii(e, "pdf"@) {
        ReadFileKind::Pdf
    } else if image_path(path) {
        ReadFileKind::Image
    } else if path_extension(path) == Some("ipynb"@) {
        ReadFileKind::Notebook
    } else {
        ReadFileKind::Text
    }
}

/// Whether `v` is `pdf` in any ASCII case.
fn is_pdf_extension(v: &[char]) -> (b: bool)
    ensures
        b == eq_ignore_ascii(v@, "pdf"@),
{
    let k = chars_of("pdf");
    if v.len() != k.len() {
        return false;
    }
    let mut i: usize = 0;
    while i < v.len()
        invariant
            0 <= i <= v.len(),
            v.len() == k.len(),
            k@ == "pdf"@,
            forall|j: int| 0 <= j < i ==> ascii_lower(#[trigger] v@[j]) == k@[j],
        decreases v.len() - i,
    {
        let c = v[i];
        let f = if 'A' <= c && c <= 'Z' {
            ((c as u32) + 32) as u8 as char
        } else {
            c
        };
        assert(f == ascii_lower(c)) by {
            if 'A' <= c && c <= 'Z' {
                assert((((c as u32) + 32) as u8 as char) == (((c as u32) + 32) as char));
            }
        }
        if f != k[i] {
            return false;
        }
        i = i + 1;
    }
    true
}

/// Decides how the read tool handles a path.
pub fn read_file_kind(path: &str) -> (k: ReadFileKind)
    ensures
        k == read_kind(path@),
{
    let ext = extension_of(path);
    if let Some(e) = &ext {
        if is_pdf_extension(chars_of(e.as_str()).as_slice()) {
            return ReadFileKind::Pdf;
        }
    }
    if is_image_extension(path) {
        return ReadFileKind::Image;
    }
    if let Some(e) = &ext {
        if crate::text::str_eq(e.as_str(), "ipynb") {
            return ReadFileKind::Notebook;
        }
    }
    ReadFileKind::Text
}

// ---------------------------------------------------------------------------
// Read tool output
// ---------------------------------------------------------------------------

/// Text payload returned by file-reading operations.
#[derive(Debug, Clone, PartialEq, Eq)]
pub struct TextFilePayload {
    pub file_path: String,
    pub content: String,
    pub num_lines: usize,
    pub start_line: usize,
    pub total_lines: usize,
}

/// Output envelope for the `read_file` tool.
#[derive(Debug, Clone, PartialEq, Eq)]
pub struct ReadFileOutput {
    pub kind: String,
    pub file: TextFilePayload,
}

/// Whether an output has the given kind, path, content and line counts.
pub open spec fn read_output_is(
    out: ReadFileOutput,
    kind: Seq<char>,
    path: Seq<char>,
    content: Seq<char>,
    num_lines: nat,
    start_line: nat,
    total_lines: nat,
) -> bool {
    &&& out.kind@ == kind
    &&& out.file.file_path@ == path
    &&& out.file.content@ == content
    &&& out.file.num_lines == num_lines
    &&& out.file.start_line == start_line
    &&& out.file.total_lines == total_lines
}

/// The first line of the window: `offset` (0 by default), at most `total`.
pub open spec fn window_first(total: nat, offset: Option<usize>) -> nat {
    let o: nat = match offset {
        Some(x) => x as nat,
        None => 0,
    };
    if o <= total {
        o
    } else {
        total
    }
}

/// The end (exclusive) of the window: `limit` lines after its start, at most
/// `total`; all remaining lines without a limit.
pub open spec fn window_last(total: nat, offset: Option<usize>, limit: Option<usize>) -> nat {
    let start = window_first(total, offset);
    match limit {
        Some(l) => if start + l <= total {
            (start + l) as nat
        } else {
            total
        },
        None => total,
    }
}

/// The output of the read tool for a window of the lines of `text`.
pub open spec fn window_output_is(
    out: ReadFileOutput,
    kind: Seq<char>,
    path: Seq<char>,
    text: Seq<char>,
    offset: Option<usize>,
    limit: Option<usize>,
) -> bool {
    let ls = lines(text);
    let start = window_first(ls.len(), offset);
    let end = window_last(ls.len(), offset, limit);
    read_output_is(
        out,
        kind,
        path,
        join(ls.subrange(start as int, end as int), "\n"@),
        (end - start) as nat,
        if start < usize::MAX {
            start + 1
        } else {
            usize::MAX as nat
        },
        ls.len(),
    )
}

/// Builds the output for a window of lines.
fn window_output(
    kind: &str,
    file_path: &str,
    text: &str,
    offset: Option<usize>,
    limit: Option<usize>,
) -> (out: ReadFileOutput)
    ensures
        window_output_is(out, kind@, file_path@, text@, offset, limit),
{
    let chars = chars_of(text);
    let ls = lines_of(chars.as_slice());
    let total = ls.len();
    let start: usize = match offset {
        Some(o) => if o <= total {
            o
        } else {
            total
        },
        None => 0,
    };
    let end: usize = match limit {
        Some(l) => if l <= total - start {
            start + l
        } else {
            total
        },
        None => total,
    };
    let content = join_range(&ls, start, end, "\n");
    ReadFileOutput {
        kind: String::from_str(kind),
        file: TextFilePayload {
            file_path: String::from_str(file_path),
            content,
            num_lines: end - start,
            start_line: start.saturating_add(1),
            total_lines: total,
        },
    }
}

/// The read tool's output for a text file: the lines from `offset` (0 by
/// default), at most `limit` of them, joined with `\n`.
pub fn text_file_output(file_path: &str, text: &str, offset: Option<usize>, limit: Option<usize>) -> (out:
    ReadFileOutput)
    ensures
        window_output_is(out, "text"@, file_path@, text@, offset, limit),
{
    window_output("text", file_path, text, offset, limit)
}

/// Rejects a file larger than `MAX_READ_SIZE`.
pub fn check_read_size(len: u64) -> (r: Result<(), ToolError>)
    ensures
        r is Ok <==> len <= MAX_READ_SIZE,
        r matches Err(e) ==> is_error(
            e,
            ErrorKind::InvalidData,
            "file is too large ("@ + decimal(len as nat) + " bytes, max "@ + decimal(
                MAX_READ_SIZE as nat,
            ) + " bytes)"@,
        ),
{
    if len > MAX_READ_SIZE {
        let mut m = String::new();
        push_str(&mut m, "file is too large (");
        push_decimal(&mut m, len);
        push_str(&mut m, " bytes, max ");
        push_decimal(&mut m, MAX_READ_SIZE);
        push_str(&mut m, " bytes)");
        return Err(ToolError::new(ErrorKind::InvalidData, m));
    }
    Ok(())
}

/// Whether the first chunk of a file holds a NUL byte, which marks the file
/// as binary.
pub fn is_binary_chunk(chunk: &[u8]) -> (b: bool)
    ensures
        b == chunk@.contains(0u8),
{
    let mut i: usize = 0;
    while i < chunk.len()
        invariant
            0 <= i <= chunk.len(),
            forall|j: int| 0 <= j < i ==> chunk@[j] != 0u8,
        decreases chunk.len() - i,
    {
        if chunk[i] == 0 {
            assert(chunk@[i as int] == 0u8);
            return true;
        }
        i = i + 1;
    }
    false
}

/// The error for a file whose first chunk holds a NUL byte.
pub fn binary_file_error() -> (e: ToolError)
    ensures
        is_error(e, ErrorKind::InvalidData, "file appears to be binary"@),
{
    ToolError::new(ErrorKind::InvalidData, String::from_str("file appears to be binary"))
}

/// The read tool's output for a rendered notebook: the lines from `offset`
/// (0 by default), at most `limit` of them, joined with `\n`.
pub fn notebook_window_output(
    file_path: &str,
    rendered: &str,
    offset: Option<usize>,
    limit: Option<usize>,
) -> (out: ReadFileOutput)
    requires
        limit matches Some(l) ==> window_first(lines(rendered@).len(), offset) + l <= usize::MAX,
    ensures
        window_output_is(out, "notebook"@, file_path@, rendered@, offset, limit),
{
    window_output("notebook", file_path, rendered, offset, limit)
}

// ---------------------------------------------------------------------------
// Images
// ---------------------------------------------------------------------------

/// The Base64 alphabet of RFC 4648.
pub open spec fn b64_digit(v: nat) -> char {
    if v < 26 {
        (v + 65) as char
    } else if v < 52 {
        (v - 26 + 97) as char
    } else if v < 62 {
        (v - 52 + 48) as char
    } else if v == 62 {
        '+'
    } else {
        '/'
    }
}

/// Standard Base64 with padding (RFC 4648, section 4): every 3 bytes become
/// 4 characters, and a final group of 1 or 2 bytes is padded with `=`.
pub open spec fn base64_standard(b: Seq<u8>) -> Seq<char>
    decreases b.len(),
{
    if b.len() == 0 {
        Seq::empty()
    } else if b.len() == 1 {
        seq![b64_digit((b[0] / 4) as nat), b64_digit(((b[0] % 4) * 16) as nat), '=', '=']
    } else if b.len() == 2 {
        seq![
            b64_digit((b[0] / 4) as nat),
            b64_digit(((b[0] % 4) * 16 + b[1] / 16) as nat),
            b64_digit(((b[1] % 16) * 4) as nat),
            '=',
        ]
    } else {
        seq![
            b64_digit((b[0] / 4) as nat),
            b64_digit(((b[0] % 4) * 16 + b[1] / 16) as nat),
            b64_digit(((b[1] % 16) * 4 + b[2] / 64) as nat),
            b64_digit((b[2] % 64) as nat),
        ] + base64_standard(b.skip(3))
    }
}

/// Encodes bytes with the `STANDARD` engine of the `base64` crate (standard
/// alphabet, padded).  The engine panics only when the encoded length does
/// not fit in `usize`, which `requires` rules out.
#[verifier::external_body]
fn encode_base64(bytes: &[u8]) -> (r: String)
    requires
        bytes@.len() / 3 * 4 + 4 <= usize::MAX,
    ensures
        r@ == base64_standard(bytes@),
{
    base64::engine::general_purpose::STANDARD.encode(bytes)
}

/// The message for an image that exceeds `MAX_IMAGE_SIZE`.
pub open spec fn msg_image_too_large(len: nat) -> Seq<char> {
    "image too large ("@ + decimal(len) + " bytes, max "@ + decimal(MAX_IMAGE_SIZE as nat)
        + " bytes)"@
}

/// The media type an image file is read with, or the error that stops it:
/// a size above `MAX_IMAGE_SIZE`, then an extension that names no image
/// format.
pub open spec fn image_check(path: Seq<char>, len: nat) -> Result<Seq<char>, (ErrorKind, Seq<char>)> {
    if len > MAX_IMAGE_SIZE {
        Err((ErrorKind::InvalidData, msg_image_too_large(len)))
    } else {
        let ext = match path_extension(path) {
            Some(e) => e,
            None => ""@,
        };
        match media_type(ext) {
            Some(m) => Ok(m),
            None => Err((ErrorKind::InvalidInput, "unsupported image format"@)),
        }
    }
}

/// Checks the size and extension of an image file before it is read.
pub fn check_image(path: &str, len: u64) -> (r: Result<&'static str, ToolError>)
    ensures
        match image_check(path@, len as nat) {
            Ok(m) => r is Ok && r->Ok_0@ == m,
            Err((k, m)) => r is Err && is_error(r->Err_0, k, m),
        },
{
    if len > MAX_IMAGE_SIZE {
        let mut m = String::new();
        push_str(&mut m, "image too large (");
        push_decimal(&mut m, len);
        push_str(&mut m, " bytes, max ");
        push_decimal(&mut m, MAX_IMAGE_SIZE);
        push_str(&mut m, " bytes)");
        return Err(ToolError::new(ErrorKind::InvalidData, m));
    }
    let ext = match extension_of(path) {
        Some(e) => e,
        None => String::new(),
    };
    proof {
        reveal_strlit("");
    }
    match media_type_for_extension(ext.as_str()) {
        Some(m) => Ok(m),
        None => Err(ToolError::new(ErrorKind::InvalidInput, String::from_str("unsupported image format"))),
    }
}

/// The JSON text of an image content block, with its members in the sorted
/// order in which `serde_json` writes them.
pub open spec fn image_block(media_type: Seq<char>, data: Seq<char>) -> Seq<char> {
    "{\"source\":{\"data\":"@ + crate::json::json_quoted(data) + ",\"media_type\":"@
        + crate::json::json_quoted(media_type) + ",\"type\":\"base64\"},\"type\":\"image\"}"@
}

/// The read tool's output for an image: a one-line JSON image block with
/// the Base64 text of its bytes.
pub fn image_file_output(file_path: &str, media_type: &str, bytes: &[u8]) -> (out: ReadFileOutput)
    requires
        bytes@.len() / 3 * 4 + 4 <= usize::MAX,
    ensures
        read_output_is(
            out,
            "image"@,
            file_path@,
            image_block(media_type@, base64_standard(bytes@)),
            1,
            1,
            1,
        ),
{
    let encoded = encode_base64(bytes);
    let mut content = String::new();
    push_str(&mut content, "{\"source\":{\"data\":");
    push_str(&mut content, crate::json::quote_json(encoded.as_str()).as_str());
    push_str(&mut content, ",\"media_type\":");
    push_str(&mut content, crate::json::quote_json(media_type).as_str());
    push_str(&mut content, ",\"type\":\"base64\"},\"type\":\"image\"}");
    ReadFileOutput {
        kind: String::from_str("image"),
        file: TextFilePayload {
            file_path: String::from_str(file_path),
            content,
            num_lines: 1,
            start_line: 1,
            total_lines: 1,
        },
    }
}

// ---------------------------------------------------------------------------
// Patches
// ---------------------------------------------------------------------------

/// Structured patch hunk emitted by write and edit operations.
#[derive(Debug, Clone, PartialEq, Eq)]
pub struct StructuredPatchHunk {
    pub old_start: usize,
    pub old_lines: usize,
    pub new_start: usize,
    pub new_lines: usize,
    pub lines: Vec<String>,
}

/// Every line with `c` put in front of it.
pub open spec fn marked(ls: Seq<Seq<char>>, c: char) -> Seq<Seq<char>> {
    ls.map_values(|l: Seq<char>| seq![c] + l)
}

/// Whether `h` is the single hunk that replaces all lines of `original` by
/// all lines of `updated`: the old lines marked `-`, then the new lines
/// marked `+`.
pub open spec fn whole_file_hunk(h: StructuredPatchHunk, original: Seq<char>, updated: Seq<char>) -> bool {
    &&& h.old_start == 1
    &&& h.old_lines == lines(original).len()
    &&& h.new_start == 1
    &&& h.new_lines == lines(updated).len()
    &&& h.lines@.map_values(|l: String| l@) == marked(lines(original), '-') + marked(
        lines(updated),
        '+',
    )
}

/// Appends every line of `ls`, marked with `c`, to `out`.
fn push_marked(out: &mut Vec<String>, ls: &Vec<Vec<char>>, c: char)
    ensures
        final(out)@.map_values(|l: String| l@) == old(out)@.map_values(|l: String| l@) + marked(
            views(ls@),
            c,
        ),
{
    let ghost start = out@.map_values(|l: String| l@);
    let mut i: usize = 0;
    assert(marked(views(ls@), c).take(0) =~= Seq::<Seq<char>>::empty());
    assert(start + Seq::<Seq<char>>::empty() =~= start);
    while i < ls.len()
        invariant
            0 <= i <= ls.len(),
            out@.map_values(|l: String| l@) == start + marked(views(ls@), c).take(i as int),
        decreases ls.len() - i,
    {
        let mut line = String::new();
        push_char(&mut line, c);
        push_str(&mut line, string_of(ls[i].as_slice()).as_str());
        let ghost before = out@;
        out.push(line);
        proof {
            assert(line@ =~= seq![c] + views(ls@)[i as int]);
            assert(out@.map_values(|l: String| l@) =~= before.map_values(|l: String| l@).push(
                line@,
            ));
            assert(marked(views(ls@), c).take(i + 1) =~= marked(views(ls@), c).take(i as int).push(
                line@,
            ));
        }
        i = i + 1;
    }
    assert(marked(views(ls@), c).take(ls.len() as int) =~= marked(views(ls@), c));
}

/// A patch with a single hunk replacing every line of `original` by every
/// line of `updated`.
pub fn make_patch(original: &str, updated: &str) -> (r: Vec<StructuredPatchHunk>)
    ensures
        r.len() == 1,
        whole_file_hunk(r@[0], original@, updated@),
{
    let old_lines = lines_of(chars_of(original).as_slice());
    let new_lines = lines_of(chars_of(updated).as_slice());
    let mut lines: Vec<String> = Vec::new();
    assert(lines@.map_values(|l: String| l@) =~= Seq::<Seq<char>>::empty());
    push_marked(&mut lines, &old_lines, '-');
    push_marked(&mut lines, &new_lines, '+');
    assert(Seq::<Seq<char>>::empty() + marked(views(old_lines@), '-') =~= marked(
        views(old_lines@),
        '-',
    ));
    let mut r: Vec<StructuredPatchHunk> = Vec::new();
    r.push(
        StructuredPatchHunk {
            old_start: 1,
            old_lines: old_lines.len(),
            new_start: 1,
            new_lines: new_lines.len(),
            lines,
        },
    );
    r
}

// ---------------------------------------------------------------------------
// Writing
// ---------------------------------------------------------------------------

/// Output envelope for full-file write operations.
#[derive(Debug, Clone, PartialEq, Eq)]
pub struct WriteFileOutput {
    pub kind: String,
    pub file_path: String,
    pub content: String,
    pub structured_patch: Vec<StructuredPatchHunk>,
    pub original_file: Option<String>,
    pub git_diff: Option<serde_json::Value>,
}

/// Rejects content of more than `MAX_WRITE_SIZE` bytes (its UTF-8 length,
/// `str::len`).
pub fn check_write_size(content: &str) -> (r: Result<(), ToolError>)
    ensures
        r is Ok <==> content.len() <= MAX_WRITE_SIZE,
        r matches Err(e) ==> is_error(
            e,
            ErrorKind::InvalidData,
            "content is too large ("@ + decimal(content.len() as nat) + " bytes, max "@
                + decimal(MAX_WRITE_SIZE as nat) + " bytes)"@,
        ),
{
    let n = content.len();
    if n > MAX_WRITE_SIZE {
        let mut m = String::new();
        push_str(&mut m, "content is too large (");
        push_decimal(&mut m, n as u64);
        push_str(&mut m, " bytes, max ");
        push_decimal(&mut m, MAX_WRITE_SIZE as u64);
        push_str(&mut m, " bytes)");
        return Err(ToolError::new(ErrorKind::InvalidData, m));
    }
    Ok(())
}

/// The write tool's output: `update` when the file existed before (with its
/// former contents), `create` otherwise, and a patch from the former
/// contents (empty for a new file) to the written ones.
pub fn write_file_output(file_path: &str, content: &str, original: Option<String>) -> (out:
    WriteFileOutput)
    ensures
        out.kind@ == (if original is Some {
            "update"@
        } else {
            "create"@
        }),
        out.file_path@ == file_path@,
        out.content@ == content@,
        out.original_file == original,
        out.git_diff is None,
        out.structured_patch.len() == 1,
        whole_file_hunk(
            out.structured_patch@[0],
            match original {
                Some(o) => o@,
                None => ""@,
            },
            content@,
        ),
{
    let patch = match &original {
        Some(o) => make_patch(o.as_str(), content),
        None => make_patch("", content),
    };
    WriteFileOutput {
        kind: if original.is_some() {
            String::from_str("update")
        } else {
            String::from_str("create")
        },
        file_path: String::from_str(file_path),
        content: String::from_str(content),
        structured_patch: patch,
        original_file: original,
        git_diff: None,
    }
}

// ---------------------------------------------------------------------------
// Workspace boundary
// ---------------------------------------------------------------------------

/// What `Path::starts_with` says of two paths: whether `base` is a prefix
/// of `path`, whole components at a time.
pub uninterp spec fn path_starts_with(path: Seq<char>, base: Seq<char>) -> bool;

/// Calls `Path::starts_with`.
#[verifier::external_body]
fn path_has_prefix(path: &str, base: &str) -> (b: bool)
    ensures
        b == path_starts_with(path@, base@),
{
    std::path::Path::new(path).starts_with(base)
}

/// The message for a path outside the workspace.
pub open spec fn msg_escapes_workspace(resolved: Seq<char>, root: Seq<char>) -> Seq<char> {
    "path "@ + resolved + " escapes workspace boundary "@ + root
}

/// The outcome of the boundary check once it is known whether the resolved
/// path lies under the workspace root: the resolved path itself, or a
/// `PermissionDenied` error.
pub fn boundary_result(within: bool, resolved: &str, workspace_root: &str) -> (r: Result<String, ToolError>)
    ensures
        within ==> (r matches Ok(p) && p@ == resolved@),
        !within ==> r is Err && is_error(
            r->Err_0,
            ErrorKind::PermissionDenied,
            msg_escapes_workspace(resolved@, workspace_root@),
        ),
{
    if within {
        Ok(String::from_str(resolved))
    } else {
        let mut m = String::new();
        push_str(&mut m, "path ");
        push_str(&mut m, resolved);
        push_str(&mut m, " escapes workspace boundary ");
        push_str(&mut m, workspace_root);
        Err(ToolError::new(ErrorKind::PermissionDenied, m))
    }
}

/// Validates that a resolved path stays within the workspace root and
/// returns that (already canonical) path, or a `PermissionDenied` error when
/// it escapes the workspace.
pub fn validate_workspace_boundary(resolved: &str, workspace_root: &str) -> (r: Result<String, ToolError>)
    ensures
        path_starts_with(resolved@, workspace_root@) ==> (r matches Ok(p) && p@ == resolved@),
        !path_starts_with(resolved@, workspace_root@) ==> r is Err && is_error(
            r->Err_0,
            ErrorKind::PermissionDenied,
            msg_escapes_workspace(resolved@, workspace_root@),
        ),
{
    let within = path_has_prefix(resolved, workspace_root);
    boundary_result(within, resolved, workspace_root)
}

/// A patch hunk holds one line for every old line and one for every new
/// line.
pub proof fn law_patch_holds_every_line(h: StructuredPatchHunk, original: Seq<char>, updated: Seq<char>)
    requires
        whole_file_hunk(h, original, updated),
    ensures
        h.lines.len() == h.old_lines + h.new_lines,
{
    assert(h.lines@.map_values(|l: String| l@).len() == h.lines@.len());
}

/// Within the size limit, an image passes the image check exactly when its
/// extension is one of the image extensions.
pub proof fn law_image_check_accepts_image_paths(path: Seq<char>, len: nat)
    requires
        len <= MAX_IMAGE_SIZE,
    ensures
        image_check(path, len) is Ok <==> image_path(path),
{
    reveal_strlit("png");
    reveal_strlit("jpg");
    reveal_strlit("jpeg");
    reveal_strlit("gif");
    reveal_strlit("webp");
    reveal_strlit("");
}

/// A read shows the lines from the offset (0 when none is given, the end of
/// the text when it lies beyond) on: `limit` of them when a limit is given,
/// fewer only where the text ends first, and every remaining line without
/// one.  The content is those lines joined by newlines, the start line is
/// the 1-based number of the first of them, and the total counts every line
/// of the text.
pub proof fn law_read_window(
    out: ReadFileOutput,
    kind: Seq<char>,
    path: Seq<char>,
    text: Seq<char>,
    offset: Option<usize>,
    limit: Option<usize>,
)
    requires
        window_output_is(out, kind, path, text, offset, limit),
    ensures
        ({
            let ls = lines(text);
            let n = ls.len() as int;
            let o: int = match offset {
                Some(x) => x as int,
                None => 0,
            };
            let start: int = if o <= n { o } else { n };
            let shown: int = match limit {
                Some(l) => if (l as int) <= n - start { l as int } else { n - start },
                None => n - start,
            };
            &&& out.file.total_lines == n
            &&& out.file.num_lines == shown
            &&& out.file.content@ == join(ls.subrange(start, start + shown), "\n"@)
            &&& start < usize::MAX ==> out.file.start_line == start + 1
        }),
{
}

/// An image extension is recognised whatever the case of its letters
/// (`PNG`, `Png` and `png` alike), and gives its media type.
pub proof fn law_media_type_ignores_case(ext: Seq<char>)
    ensures
        eq_ignore_case(ext, "png"@) ==> media_type(ext) == Some("image/png"@),
        eq_ignore_case(ext, "jpg"@) ==> media_type(ext) == Some("image/jpeg"@),
        eq_ignore_case(ext, "jpeg"@) ==> media_type(ext) == Some("image/jpeg"@),
        eq_ignore_case(ext, "gif"@) ==> media_type(ext) == Some("image/gif"@),
        eq_ignore_case(ext, "webp"@) ==> media_type(ext) == Some("image/webp"@),
{
    reveal_strlit("png");
    reveal_strlit("jpg");
    reveal_strlit("jpeg");
    reveal_strlit("gif");
    reveal_strlit("webp");
    if eq_ignore_case(ext, "png"@) {
        if eq_ignore_case(ext, "jpg"@) {
            lemma_ignore_case_one_keyword(ext, "png"@, "jpg"@);
        }
        if eq_ignore_case(ext, "gif"@) {
            lemma_ignore_case_one_keyword(ext, "png"@, "gif"@);
        }
        assert("png"@[0] != "jpg"@[0]);
        assert("png"@[0] != "gif"@[0]);
    }
    if eq_ignore_case(ext, "gif"@) {
        if eq_ignore_case(ext, "jpg"@) {
            lemma_ignore_case_one_keyword(ext, "gif"@, "jpg"@);
        }
        assert("gif"@[0] != "jpg"@[0]);
    }
    if eq_ignore_case(ext, "webp"@) {
        if eq_ignore_case(ext, "jpeg"@) {
            lemma_ignore_case_one_keyword(ext, "webp"@, "jpeg"@);
        }
        assert("webp"@[0] != "jpeg"@[0]);
    }
}

} // verus!
