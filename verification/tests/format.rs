use std::cell::Cell;
use std::cell::RefCell;

use dprint_plugin_jupyter::Configuration;
use dprint_plugin_jupyter::FormatError;
use dprint_plugin_jupyter::format_text;

fn python_notebook() -> &'static str {
    "{
  \"metadata\": {\"language_info\": {\"name\": \"python\"}},
  \"cells\": [{
    \"cell_type\": \"code\",
    \"source\": [
      \"print(1)\\n\",
      \"print(2)\"
    ]
  }]
}"
}

#[test]
fn noop_callback_formats_nothing() {
    let r = format_text(python_notebook().as_bytes(), |_path: &[u8], _text: &[u8]| {
        Ok::<Option<Vec<u8>>, String>(None)
    });
    assert!(matches!(r, Ok(None)));
}

#[test]
fn unsupported_language_round_trips() {
    let input = "{
  \"cells\": [{
    \"cell_type\": \"code\",
    \"metadata\": {\"vscode\": {\"languageId\": \"fortran\"}},
    \"source\": [\"print 1\"]
  }]
}";
    let calls = Cell::new(0u32);
    let r = format_text(input.as_bytes(), |_path: &[u8], _text: &[u8]| {
        calls.set(calls.get() + 1);
        Ok::<Option<Vec<u8>>, String>(Some(b"never used".to_vec()))
    });
    assert!(matches!(r, Ok(None)));
    assert_eq!(calls.get(), 0);
}

#[test]
fn multi_line_source_is_reencoded() {
    let input = python_notebook();
    let r = format_text(input.as_bytes(), |path: &[u8], text: &[u8]| {
        assert_eq!(path, b"code_block.py");
        assert_eq!(text, b"print(1)\nprint(2)");
        let mut out = text.to_vec();
        out.extend_from_slice(b"_python");
        Ok::<Option<Vec<u8>>, String>(Some(out))
    });
    let expected = input.replace(
        "\"print(1)\\n\",\n      \"print(2)\"",
        "\"print(1)\\n\",\n      \"print(2)_python\"",
    );
    assert_eq!(r.unwrap().unwrap(), expected.as_bytes().to_vec());
}

#[test]
fn trailing_newline_is_trimmed() {
    let input = "{
  \"metadata\": {\"language_info\": {\"name\": \"python\"}},
  \"cells\": [{\"cell_type\": \"code\", \"source\": \"x = 1\"}]
}";
    let r = format_text(input.as_bytes(), |_path: &[u8], text: &[u8]| {
        let mut out = text.to_vec();
        out.push(b'\n');
        Ok::<Option<Vec<u8>>, String>(Some(out))
    });
    // the answer "x = 1\n" is trimmed back to "x = 1", so the single string
    // literal is replaced by itself and the document is unchanged
    assert_eq!(r.unwrap().unwrap(), input.as_bytes().to_vec());
}

#[test]
fn markdown_cell_ignores_default_language() {
    let input = "{
  \"metadata\": {\"language_info\": {\"name\": \"python\"}},
  \"cells\": [{\"cell_type\": \"markdown\", \"source\": \"# title\"}]
}";
    let paths = RefCell::new(Vec::<Vec<u8>>::new());
    let r = format_text(input.as_bytes(), |path: &[u8], _text: &[u8]| {
        paths.borrow_mut().push(path.to_vec());
        Ok::<Option<Vec<u8>>, String>(None)
    });
    assert!(matches!(r, Ok(None)));
    assert_eq!(paths.borrow().len(), 1);
    assert_eq!(paths.borrow()[0], b"code_block.md".to_vec());
}

#[test]
fn explicit_language_id_wins() {
    let input = "{
  \"metadata\": {\"language_info\": {\"name\": \"python\"}},
  \"cells\": [{
    \"cell_type\": \"code\",
    \"metadata\": {\"vscode\": {\"languageId\": \"typescript\"}},
    \"source\": \"let x = 1\"
  }]
}";
    let paths = RefCell::new(Vec::<Vec<u8>>::new());
    let r = format_text(input.as_bytes(), |path: &[u8], _text: &[u8]| {
        paths.borrow_mut().push(path.to_vec());
        Ok::<Option<Vec<u8>>, String>(None)
    });
    assert!(matches!(r, Ok(None)));
    assert_eq!(paths.borrow()[0], b"code_block.ts".to_vec());
}

#[test]
fn callback_error_propagates() {
    let r = format_text(python_notebook().as_bytes(), |_path: &[u8], _text: &[u8]| {
        Err::<Option<Vec<u8>>, String>("boom".to_string())
    });
    assert!(matches!(r, Err(FormatError::Callback(e)) if e == "boom"));
}

#[test]
fn non_notebook_json_is_skipped() {
    let r = format_text(b"[1, 2, 3]", |_path: &[u8], _text: &[u8]| {
        Ok::<Option<Vec<u8>>, String>(Some(b"x".to_vec()))
    });
    assert!(matches!(r, Ok(None)));
    let r = format_text(b"{\"a\": 1}", |_path: &[u8], _text: &[u8]| {
        Ok::<Option<Vec<u8>>, String>(Some(b"x".to_vec()))
    });
    assert!(matches!(r, Ok(None)));
}

#[test]
fn parse_failure_is_reported() {
    let r = format_text(b"{\"cells\": [", |_path: &[u8], _text: &[u8]| {
        Ok::<Option<Vec<u8>>, String>(None)
    });
    assert!(matches!(r, Err(FormatError::Parse(_))));
}

#[test]
fn comments_and_trailing_commas_are_tolerated() {
    let input = "{
  // a notebook with comments
  \"metadata\": {\"language_info\": {\"name\": \"python\"}},
  \"cells\": [{\"cell_type\": \"code\", \"source\": \"x = 1\",}],
}";
    let calls = Cell::new(0u32);
    let r = format_text(input.as_bytes(), |_path: &[u8], _text: &[u8]| {
        calls.set(calls.get() + 1);
        Ok::<Option<Vec<u8>>, String>(None)
    });
    assert!(matches!(r, Ok(None)));
    assert_eq!(calls.get(), 1);
}

#[test]
fn cells_without_language_are_skipped() {
    // no language_info and no languageId: the code cell has no language
    let input = "{\"cells\": [{\"cell_type\": \"code\", \"source\": \"x = 1\"}]}";
    let calls = Cell::new(0u32);
    let r = format_text(input.as_bytes(), |_path: &[u8], _text: &[u8]| {
        calls.set(calls.get() + 1);
        Ok::<Option<Vec<u8>>, String>(Some(b"y".to_vec()))
    });
    assert!(matches!(r, Ok(None)));
    assert_eq!(calls.get(), 0);
}

#[test]
fn empty_input_is_skipped() {
    let calls = Cell::new(0u32);
    let r = format_text(b"", |_path: &[u8], _text: &[u8]| {
        calls.set(calls.get() + 1);
        Ok::<Option<Vec<u8>>, String>(Some(b"x".to_vec()))
    });
    assert!(matches!(r, Ok(None)));
    assert_eq!(calls.get(), 0);
}

#[test]
fn default_configuration_exists() {
    let c = Configuration::default();
    assert!(c == Configuration {});
}
