//! Rendering of Jupyter `.ipynb` notebooks into readable cell-by-cell text.
use vstd::prelude::*;
use crate::text::{decimal, push_char, push_decimal, push_str, str_eq};
use crate::json::{json_array, json_get, json_parse, json_str, parse_json, JsonValue};
use crate::file_ops::{is_error, ErrorKind, ToolError};

verus! {

/// `s` with a `\n` added unless it already ends with one.
pub open spec fn with_newline(s: Seq<char>) -> Seq<char> {
    if s.len() > 0 && s.last() == '\n' {
        s
    } else {
        s.push('\n')
    }
}

/// The strings among `items`, concatenated; other items are ignored.
pub open spec fn concat_strings(items: Seq<JsonValue>) -> Seq<char>
    decreases items.len(),
{
    if items.len() == 0 {
        Seq::empty()
    } else {
        concat_strings(items.drop_last()) + match items.last() {
            JsonValue::String(s) => s@,
            _ => Seq::empty(),
        }
    }
}

/// The text of a JSON value that is a string or an array of strings (as in
/// `.ipynb` cell sources and outputs), ending with a newline when it is not
/// empty; nothing for any other value.  A string always gets a newline.
pub open spec fn json_text(v: JsonValue) -> Seq<char> {
    match v {
        JsonValue::String(s) => with_newline(s@),
        JsonValue::Array(items) => {
            let r = concat_strings(items@);
            if r.len() == 0 {
                r
            } else {
                with_newline(r)
            }
        },
        _ => Seq::empty(),
    }
}

/// The text of an optional value.
pub open spec fn opt_text(v: Option<JsonValue>) -> Seq<char> {
    match v {
        Some(x) => json_text(x),
        None => Seq::empty(),
    }
}

/// A string member, or `default` when it is missing or not a string.
pub open spec fn str_or(v: JsonValue, key: Seq<char>, default: Seq<char>) -> Seq<char> {
    match json_str(json_get(v, key)) {
        Some(s) => s,
        None => default,
    }
}

/// The rendering of one output of a code cell.
pub open spec fn render_output(out: JsonValue) -> Seq<char> {
    let kind = str_or(out, "output_type"@, ""@);
    if kind == "stream"@ {
        opt_text(json_get(out, "text"@))
    } else if kind == "execute_result"@ || kind == "display_data"@ {
        match json_get(out, "data"@) {
            Some(d) => opt_text(json_get(d, "text/plain"@)),
            None => Seq::empty(),
        }
    } else if kind == "error"@ {
        str_or(out, "ename"@, "Error"@) + ": "@ + str_or(out, "evalue"@, ""@) + "\n"@
    } else {
        Seq::empty()
    }
}

/// The renderings of the outputs of a code cell, concatenated.
pub open spec fn render_outputs(outs: Seq<JsonValue>) -> Seq<char>
    decreases outs.len(),
{
    if outs.len() == 0 {
        Seq::empty()
    } else {
        render_outputs(outs.drop_last()) + render_output(outs.last())
    }
}

/// The type of a cell, `unknown` when it has none.
pub open spec fn cell_kind(cell: JsonValue) -> Seq<char> {
    str_or(cell, "cell_type"@, "unknown"@)
}

/// The header line of the cell at 0-based position `i`, followed by its
/// source.
pub open spec fn cell_header(i: nat, cell: JsonValue) -> Seq<char> {
    "--- Cell "@ + decimal(i + 1) + " ["@ + cell_kind(cell) + "] ---\n"@ + opt_text(
        json_get(cell, "source"@),
    )
}

/// The outputs shown for a cell: those of a code cell, nothing otherwise.
pub open spec fn cell_outputs(cell: JsonValue) -> Seq<char> {
    if cell_kind(cell) == "code"@ {
        match json_array(json_get(cell, "outputs"@)) {
            Some(outs) => render_outputs(outs),
            None => Seq::empty(),
        }
    } else {
        Seq::empty()
    }
}

/// The rendering of the cell at 0-based position `i`: a header with its
/// 1-based number and type, its source, for code cells its outputs, and a
/// blank line.
pub open spec fn render_cell(i: nat, cell: JsonValue) -> Seq<char> {
    cell_header(i, cell) + cell_outputs(cell) + "\n"@
}

/// The renderings of the cells, concatenated.
pub open spec fn render_cells(cells: Seq<JsonValue>) -> Seq<char>
    decreases cells.len(),
{
    if cells.len() == 0 {
        Seq::empty()
    } else {
        render_cells(cells.drop_last()) + render_cell((cells.len() - 1) as nat, cells.last())
    }
}

/// The rendering of a parsed notebook, or the message of the error it
/// causes when it has no `cells` array.
pub open spec fn render_document(doc: JsonValue) -> Result<Seq<char>, Seq<char>> {
    match json_array(json_get(doc, "cells"@)) {
        Some(cells) => Ok(render_cells(cells)),
        None => Err("notebook JSON missing 'cells' array"@),
    }
}

/// The rendering of a notebook text, or the message of its error.
pub open spec fn render_notebook_text(raw: Seq<char>) -> Result<Seq<char>, Seq<char>> {
    match json_parse(raw) {
        Ok(doc) => render_document(doc),
        Err(e) => Err("invalid notebook JSON: "@ + e),
    }
}

/// Whether an executable result carries the specified text or message, with
/// errors of kind `InvalidData`.
pub open spec fn text_result_matches(r: Result<String, ToolError>, s: Result<Seq<char>, Seq<char>>) -> bool {
    match s {
        Ok(t) => r is Ok && r->Ok_0@ == t,
        Err(m) => r is Err && is_error(r->Err_0, ErrorKind::InvalidData, m),
    }
}

/// Whether a string ends with a line feed.
fn ends_with_newline(s: &String) -> (b: bool)
    ensures
        b == (s@.len() > 0 && s@.last() == '\n'),
{
    let v = crate::text::chars_of(s.as_str());
    v.len() > 0 && v[v.len() - 1] == '\n'
}

/// Extracts text from a JSON value that may be a string or an array of
/// strings (common in `.ipynb` cell source and output fields).
pub fn json_text_value(value: &JsonValue) -> (r: String)
    ensures
        r@ == json_text(*value),
{
    match value {
        JsonValue::String(s) => {
            let mut result = s.clone();
            if !ends_with_newline(&result) {
                push_char(&mut result, '\n');
            }
            result
        },
        JsonValue::Array(items) => {
            let mut result = String::new();
            let mut i: usize = 0;
            while i < items.len()
                invariant
                    0 <= i <= items.len(),
                    result@ == concat_strings(items@.take(i as int)),
                decreases items.len() - i,
            {
                assert(items@.take(i + 1).drop_last() =~= items@.take(i as int));
                if let JsonValue::String(s) = &items[i] {
                    push_str(&mut result, s.as_str());
                }
                i = i + 1;
            }
            assert(items@.take(items.len() as int) =~= items@);
            if !result.as_str().is_empty() && !ends_with_newline(&result) {
                push_char(&mut result, '\n');
            }
            result
        },
        _ => String::new(),
    }
}

/// The text of an optional member.
fn push_opt_text(out: &mut String, v: Option<&JsonValue>)
    ensures
        final(out)@ == old(out)@ + match v {
            Some(x) => json_text(*x),
            None => Seq::empty(),
        },
{
    if let Some(x) = v {
        let t = json_text_value(x);
        push_str(out, t.as_str());
    } else {
        assert(out@ + Seq::<char>::empty() =~= out@);
    }
}

/// A string member, or `default`.
fn member_str_or<'a>(v: &'a JsonValue, key: &str, default: &'a str) -> (r: &'a str)
    ensures
        r@ == str_or(*v, key@, default@),
{
    match v.get(key) {
        Some(x) => match x.as_str() {
            Some(s) => s,
            None => default,
        },
        None => default,
    }
}

/// Appends the rendering of one output of a code cell.
fn push_output(out: &mut String, o: &JsonValue)
    ensures
        final(out)@ == old(out)@ + render_output(*o),
{
    let kind = member_str_or(o, "output_type", "");
    if str_eq(kind, "stream") {
        push_opt_text(out, o.get("text"));
    } else if str_eq(kind, "execute_result") || str_eq(kind, "display_data") {
        match o.get("data") {
            Some(d) => push_opt_text(out, d.get("text/plain")),
            None => {
                assert(out@ + Seq::<char>::empty() =~= out@);
            },
        }
    } else if str_eq(kind, "error") {
        let ename = member_str_or(o, "ename", "Error");
        let evalue = member_str_or(o, "evalue", "");
        let ghost before = out@;
        push_str(out, ename);
        push_str(out, ": ");
        push_str(out, evalue);
        push_str(out, "\n");
        assert(out@ =~= before + (ename@ + ": "@ + evalue@ + "\n"@));
    } else {
        assert(out@ + Seq::<char>::empty() =~= out@);
    }
}

/// Appends the header and source of the cell at 0-based position `i`.
fn push_cell_header(out: &mut String, i: usize, cell: &JsonValue)
    requires
        i < usize::MAX,
    ensures
        final(out)@ == old(out)@ + cell_header(i as nat, *cell),
{
    let ghost before = out@;
    let kind = member_str_or(cell, "cell_type", "unknown");
    push_str(out, "--- Cell ");
    push_decimal(out, (i + 1) as u64);
    push_str(out, " [");
    push_str(out, kind);
    push_str(out, "] ---\n");
    let ghost mid = out@;
    push_opt_text(out, cell.get("source"));
    assert(mid =~= before + ("--- Cell "@ + decimal((i + 1) as nat) + " ["@ + kind@ + "] ---\n"@));
    assert(out@ =~= before + cell_header(i as nat, *cell));
}

/// Appends the outputs shown for a cell.
fn push_cell_outputs(out: &mut String, cell: &JsonValue)
    ensures
        final(out)@ == old(out)@ + cell_outputs(*cell),
{
    let ghost before = out@;
    let kind = member_str_or(cell, "cell_type", "unknown");
    if str_eq(kind, "code") {
        let outputs = match cell.get("outputs") {
            Some(v) => v.as_array(),
            None => None,
        };
        if let Some(outs) = outputs {
            let mut k: usize = 0;
            assert(outs@.take(0) =~= Seq::<JsonValue>::empty());
            assert(out@ =~= before + render_outputs(outs@.take(0)));
            while k < outs.len()
                invariant
                    0 <= k <= outs.len(),
                    out@ == before + render_outputs(outs@.take(k as int)),
                decreases outs.len() - k,
            {
                assert(outs@.take(k + 1).drop_last() =~= outs@.take(k as int));
                push_output(out, &outs[k]);
                k = k + 1;
                assert(out@ =~= before + render_outputs(outs@.take(k as int)));
            }
            assert(outs@.take(outs.len() as int) =~= outs@);
            return;
        }
    }
    assert(out@ =~= before + cell_outputs(*cell));
}

/// Appends the rendering of the cell at 0-based position `i`.
fn push_cell(out: &mut String, i: usize, cell: &JsonValue)
    requires
        i < usize::MAX,
    ensures
        final(out)@ == old(out)@ + render_cell(i as nat, *cell),
{
    let ghost before = out@;
    push_cell_header(out, i, cell);
    push_cell_outputs(out, cell);
    push_str(out, "\n");
    assert(out@ =~= before + render_cell(i as nat, *cell));
}

/// Renders a parsed notebook cell by cell.
pub fn render_notebook_value(notebook: &JsonValue) -> (r: Result<String, ToolError>)
    ensures
        text_result_matches(r, render_document(*notebook)),
{
    let found = match notebook.get("cells") {
        Some(v) => v.as_array(),
        None => None,
    };
    let cells = match found {
        Some(c) => c,
        None => {
            let mut m = String::new();
            push_str(&mut m, "notebook JSON missing 'cells' array");
            return Err(ToolError::new(ErrorKind::InvalidData, m));
        },
    };
    let mut output = String::new();
    let mut i: usize = 0;
    while i < cells.len()
        invariant
            0 <= i <= cells.len(),
            output@ == render_cells(cells@.take(i as int)),
        decreases cells.len() - i,
    {
        assert(cells@.take(i + 1).drop_last() =~= cells@.take(i as int));
        push_cell(&mut output, i, &cells[i]);
        i = i + 1;
    }
    assert(cells@.take(cells.len() as int) =~= cells@);
    Ok(output)
}

/// Renders the text of a Jupyter `.ipynb` notebook into human-readable
/// cell-by-cell output.
pub fn render_notebook(raw: &str) -> (r: Result<String, ToolError>)
    ensures
        text_result_matches(r, render_notebook_text(raw@)),
{
    match parse_json(raw) {
        Ok(doc) => render_notebook_value(&doc),
        Err(e) => {
            let mut m = String::new();
            push_str(&mut m, "invalid notebook JSON: ");
            push_str(&mut m, e.as_str());
            Err(ToolError::new(ErrorKind::InvalidData, m))
        },
    }
}

} // verus!
