use claw_runtime::file_ops::{notebook_window_output, ErrorKind};
use claw_runtime::notebook::render_notebook;

#[test]
fn notebook_render_code_cell_with_output() {
    let notebook_json = r#"{
        "cells": [
            {
                "cell_type": "code",
                "source": ["print('hello')\n", "print('world')"],
                "outputs": [
                    {
                        "output_type": "stream",
                        "name": "stdout",
                        "text": ["hello\n", "world\n"]
                    }
                ]
            }
        ],
        "metadata": {},
        "nbformat": 4,
        "nbformat_minor": 5
    }"#;
    let rendered = render_notebook(notebook_json).expect("render should succeed");
    assert!(rendered.contains("--- Cell 1 [code] ---"));
    assert!(rendered.contains("print('hello')"));
    assert!(rendered.contains("print('world')"));
    assert!(rendered.contains("hello\n"));
    assert!(rendered.contains("world\n"));
    assert_eq!(
        rendered,
        "--- Cell 1 [code] ---\nprint('hello')\nprint('world')\nhello\nworld\n\n"
    );
}

#[test]
fn notebook_render_markdown_cell() {
    let notebook_json = r##"{
        "cells": [
            {
                "cell_type": "markdown",
                "source": "# Title\n\nSome **bold** text.",
                "metadata": {}
            }
        ],
        "metadata": {},
        "nbformat": 4,
        "nbformat_minor": 5
    }"##;
    let rendered = render_notebook(notebook_json).expect("render should succeed");
    assert!(rendered.contains("--- Cell 1 [markdown] ---"));
    assert!(rendered.contains("# Title"));
    assert!(rendered.contains("Some **bold** text."));
    assert!(!rendered.contains("output_type"));
}

#[test]
fn notebook_source_as_string_and_array() {
    let notebook_json = r#"{
        "cells": [
            { "cell_type": "code", "source": "x = 1", "outputs": [] },
            { "cell_type": "code", "source": ["y = 2\n", "z = 3"], "outputs": [] }
        ],
        "metadata": {},
        "nbformat": 4,
        "nbformat_minor": 5
    }"#;
    let rendered = render_notebook(notebook_json).expect("render should succeed");
    assert!(rendered.contains("x = 1"));
    assert!(rendered.contains("y = 2"));
    assert!(rendered.contains("z = 3"));
}

#[test]
fn notebook_execute_result_and_error_outputs() {
    let notebook_json = r#"{
        "cells": [
            {
                "cell_type": "code",
                "source": "1 + 1",
                "outputs": [
                    {
                        "output_type": "execute_result",
                        "data": { "text/plain": "2" },
                        "metadata": {},
                        "execution_count": 1
                    }
                ]
            },
            {
                "cell_type": "code",
                "source": "raise ValueError('bad')",
                "outputs": [
                    {
                        "output_type": "error",
                        "ename": "ValueError",
                        "evalue": "bad",
                        "traceback": []
                    }
                ]
            }
        ],
        "metadata": {},
        "nbformat": 4,
        "nbformat_minor": 5
    }"#;
    let rendered = render_notebook(notebook_json).expect("render should succeed");
    assert!(rendered.contains("2"));
    assert!(rendered.contains("ValueError: bad"));
}

#[test]
fn notebook_read_file_with_offset_limit() {
    let notebook_json = r#"{
        "cells": [
            { "cell_type": "code", "source": "line_a = 1", "outputs": [] },
            { "cell_type": "code", "source": "line_b = 2", "outputs": [] }
        ],
        "metadata": {},
        "nbformat": 4,
        "nbformat_minor": 5
    }"#;
    let rendered = render_notebook(notebook_json).expect("render should succeed");
    let full = notebook_window_output("/nb.ipynb", &rendered, None, None);
    assert_eq!(full.kind, "notebook");
    assert!(full.file.total_lines > 0);

    let sliced = notebook_window_output("/nb.ipynb", &rendered, Some(1), Some(2));
    assert_eq!(sliced.kind, "notebook");
    assert_eq!(sliced.file.num_lines, 2);
    assert_eq!(sliced.file.start_line, 2);
}

#[test]
fn notebook_invalid_json_returns_error() {
    let result = render_notebook("this is not json");
    assert!(result.is_err());
    let error = result.unwrap_err();
    assert_eq!(error.kind(), ErrorKind::InvalidData);
    assert!(error.to_string().contains("invalid notebook JSON"));
}

#[test]
fn notebook_missing_cells_returns_error() {
    let result = render_notebook(r#"{"metadata": {}}"#);
    assert!(result.is_err());
    let error = result.unwrap_err();
    assert!(error.to_string().contains("missing 'cells' array"));
}

#[test]
fn notebook_display_data_output() {
    let notebook_json = r#"{
        "cells": [
            {
                "cell_type": "code",
                "source": "display(df)",
                "outputs": [
                    {
                        "output_type": "display_data",
                        "data": { "text/plain": ["<DataFrame>\n", "  col1  col2"] },
                        "metadata": {}
                    }
                ]
            }
        ],
        "metadata": {},
        "nbformat": 4,
        "nbformat_minor": 5
    }"#;
    let rendered = render_notebook(notebook_json).expect("render should succeed");
    assert!(rendered.contains("<DataFrame>"));
    assert!(rendered.contains("col1  col2"));
}

#[test]
fn notebook_cells_without_type_or_outputs_of_markdown() {
    let rendered = render_notebook(
        r#"{"cells": [{"source": []}, {"cell_type": "markdown", "source": "m", "outputs": [{"output_type": "stream", "text": "hidden"}]}]}"#,
    )
    .unwrap();
    assert_eq!(rendered, "--- Cell 1 [unknown] ---\n\n--- Cell 2 [markdown] ---\nm\n\n");
}
