use dprint_plugin_jupyter::indent::get_indent_text;
use dprint_plugin_jupyter::json_text::build_json_text;
use dprint_plugin_jupyter::language::language_to_path;

#[test]
fn test_get_indent_text() {
    assert_eq!(get_indent_text(b"  hello", 2), b"  ".to_vec());
    assert_eq!(get_indent_text(b"\n  hello", 3), b"  ".to_vec());
    assert_eq!(get_indent_text(b"t\n  hello", 4), b"  ".to_vec());
    assert_eq!(get_indent_text(b"t\n\t\thello", 4), b"\t\t".to_vec());
    assert_eq!(get_indent_text(b"hello", 0), b"".to_vec());
    assert_eq!(get_indent_text(b"\nhello", 1), b"".to_vec());
    assert_eq!(get_indent_text(b"\nhello", 2), b"".to_vec());
}

#[test]
fn builds_single_line_literal() {
    assert_eq!(build_json_text(b"x = 1", b"    "), b"\"x = 1\"".to_vec());
    assert_eq!(build_json_text(b"", b"  "), b"\"\"".to_vec());
}

#[test]
fn builds_multi_line_literals_with_indent() {
    assert_eq!(
        build_json_text(b"print(1)\nprint(2)", b"      "),
        b"\"print(1)\\n\",\n      \"print(2)\"".to_vec(),
    );
    // a trailing line feed yields a final empty element
    assert_eq!(
        build_json_text(b"a\n", b"  "),
        b"\"a\\n\",\n  \"\"".to_vec(),
    );
}

#[test]
fn escapes_inside_literals() {
    // quoting is real JSON encoding, not the text handed back unchanged
    assert_eq!(build_json_text(b"a\"b", b""), b"\"a\\\"b\"".to_vec());
    assert_eq!(build_json_text(b"a\\b\tc", b""), b"\"a\\\\b\\tc\"".to_vec());
}

#[test]
fn maps_languages_to_paths() {
    assert_eq!(language_to_path(b"python"), Some(b"code_block.py".to_vec()));
    assert_eq!(language_to_path(b"python3"), Some(b"code_block.py".to_vec()));
    assert_eq!(language_to_path(b"PYTHON"), Some(b"code_block.py".to_vec()));
    assert_eq!(language_to_path(b"MarkDown"), Some(b"code_block.md".to_vec()));
    assert_eq!(language_to_path(b"c++"), Some(b"code_block.cpp".to_vec()));
    assert_eq!(language_to_path(b"bash"), Some(b"code_block.sh".to_vec()));
    assert_eq!(language_to_path(b"typescript"), Some(b"code_block.ts".to_vec()));
    assert_eq!(language_to_path(b"yaml"), Some(b"code_block.yml".to_vec()));
    assert_eq!(language_to_path(b"r"), Some(b"code_block.r".to_vec()));
    assert_eq!(language_to_path(b"fortran"), None);
    assert_eq!(language_to_path(b""), None);
}
