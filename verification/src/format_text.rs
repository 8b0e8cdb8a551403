//! The cell locator and the formatting pipeline.
//!
//! The pipeline parses the document, walks the `cells` array of the root
//! object, resolves each cell's language, extracts the byte range and plain
//! text of its source, asks the formatter collaborator for new text, encodes
//! every answer back into the array-of-line-strings shape, and applies all
//! collected changes to the original text in one pass.
use crate::byte_ops::push_array;
use crate::byte_ops::push_range;
use crate::indent::get_indent_text;
use crate::indent::indent_of;
use crate::json_model::JsonProp;
use crate::json_model::JsonStr;
use crate::json_model::JsonValue;
use crate::json_model::ParseFailure;
use crate::json_model::lookup_arr;
use crate::json_model::lookup_obj;
use crate::json_model::lookup_prop;
use crate::json_model::lookup_str;
use crate::json_model::obj_get;
use crate::json_model::obj_get_array;
use crate::json_model::obj_get_object;
use crate::json_model::obj_get_string;
use crate::json_model::parse_document;
use crate::json_model::parsed_doc;
use crate::json_text::build_json_text;
use crate::json_text::build_json_text_spec;
use crate::language::language_to_path;
use crate::language::path_for_language;
use crate::text_changes::ConsistencyError;
use crate::text_changes::TextChange;
use crate::text_changes::apply_changes_spec;
use crate::text_changes::apply_text_changes;
use vstd::prelude::*;

verus! {

/// The bytes of `"metadata"`.
pub open spec fn key_metadata() -> Seq<u8> {
    seq![109u8, 101u8, 116u8, 97u8, 100u8, 97u8, 116u8, 97u8]
}

fn key_metadata_exec() -> (r: Vec<u8>)
    ensures
        r@ == key_metadata(),
{
    let a: [u8; 8] = [109u8, 101u8, 116u8, 97u8, 100u8, 97u8, 116u8, 97u8];
    let mut v: Vec<u8> = Vec::new();
    push_array(&mut v, &a);
    proof {
        assert(Seq::<u8>::empty() + a@ =~= key_metadata());
    }
    v
}

/// The bytes of `"language_info"`.
pub open spec fn key_language_info() -> Seq<u8> {
    seq![108u8, 97u8, 110u8, 103u8, 117u8, 97u8, 103u8, 101u8, 95u8, 105u8, 110u8, 102u8, 111u8]
}

fn key_language_info_exec() -> (r: Vec<u8>)
    ensures
        r@ == key_language_info(),
{
    let a: [u8; 13] = [108u8, 97u8, 110u8, 103u8, 117u8, 97u8, 103u8, 101u8, 95u8, 105u8, 110u8, 102u8, 111u8];
    let mut v: Vec<u8> = Vec::new();
    push_array(&mut v, &a);
    proof {
        assert(Seq::<u8>::empty() + a@ =~= key_language_info());
    }
    v
}

/// The bytes of `"name"`.
pub open spec fn key_name() -> Seq<u8> {
    seq![110u8, 97u8, 109u8, 101u8]
}

fn key_name_exec() -> (r: Vec<u8>)
    ensures
        r@ == key_name(),
{
    let a: [u8; 4] = [110u8, 97u8, 109u8, 101u8];
    let mut v: Vec<u8> = Vec::new();
    push_array(&mut v, &a);
    proof {
        assert(Seq::<u8>::empty() + a@ =~= key_name());
    }
    v
}

/// The bytes of `"vscode"`.
pub open spec fn key_vscode() -> Seq<u8> {
    seq![118u8, 115u8, 99u8, 111u8, 100u8, 101u8]
}

fn key_vscode_exec() -> (r: Vec<u8>)
    ensures
        r@ == key_vscode(),
{
    let a: [u8; 6] = [118u8, 115u8, 99u8, 111u8, 100u8, 101u8];
    let mut v: Vec<u8> = Vec::new();
    push_array(&mut v, &a);
    proof {
        assert(Seq::<u8>::empty() + a@ =~= key_vscode());
    }
    v
}

/// The bytes of `"languageId"`.
pub open spec fn key_languageid() -> Seq<u8> {
    seq![108u8, 97u8, 110u8, 103u8, 117u8, 97u8, 103u8, 101u8, 73u8, 100u8]
}

fn key_languageid_exec() -> (r: Vec<u8>)
    ensures
        r@ == key_languageid(),
{
    let a: [u8; 10] = [108u8, 97u8, 110u8, 103u8, 117u8, 97u8, 103u8, 101u8, 73u8, 100u8];
    let mut v: Vec<u8> = Vec::new();
    push_array(&mut v, &a);
    proof {
        assert(Seq::<u8>::empty() + a@ =~= key_languageid());
    }
    v
}

/// The bytes of `"cell_type"`.
pub open spec fn key_cell_type() -> Seq<u8> {
    seq![99u8, 101u8, 108u8, 108u8, 95u8, 116u8, 121u8, 112u8, 101u8]
}

fn key_cell_type_exec() -> (r: Vec<u8>)
    ensures
        r@ == key_cell_type(),
{
    let a: [u8; 9] = [99u8, 101u8, 108u8, 108u8, 95u8, 116u8, 121u8, 112u8, 101u8];
    let mut v: Vec<u8> = Vec::new();
    push_array(&mut v, &a);
    proof {
        assert(Seq::<u8>::empty() + a@ =~= key_cell_type());
    }
    v
}

/// The bytes of `"cells"`.
pub open spec fn key_cells() -> Seq<u8> {
    seq![99u8, 101u8, 108u8, 108u8, 115u8]
}

fn key_cells_exec() -> (r: Vec<u8>)
    ensures
        r@ == key_cells(),
{
    let a: [u8; 5] = [99u8, 101u8, 108u8, 108u8, 115u8];
    let mut v: Vec<u8> = Vec::new();
    push_array(&mut v, &a);
    proof {
        assert(Seq::<u8>::empty() + a@ =~= key_cells());
    }
    v
}

/// The bytes of `"source"`.
pub open spec fn key_source() -> Seq<u8> {
    seq![115u8, 111u8, 117u8, 114u8, 99u8, 101u8]
}

fn key_source_exec() -> (r: Vec<u8>)
    ensures
        r@ == key_source(),
{
    let a: [u8; 6] = [115u8, 111u8, 117u8, 114u8, 99u8, 101u8];
    let mut v: Vec<u8> = Vec::new();
    push_array(&mut v, &a);
    proof {
        assert(Seq::<u8>::empty() + a@ =~= key_source());
    }
    v
}

/// The bytes of `"markdown"`.
pub open spec fn key_markdown() -> Seq<u8> {
    seq![109u8, 97u8, 114u8, 107u8, 100u8, 111u8, 119u8, 110u8]
}

fn key_markdown_exec() -> (r: Vec<u8>)
    ensures
        r@ == key_markdown(),
{
    let a: [u8; 8] = [109u8, 97u8, 114u8, 107u8, 100u8, 111u8, 119u8, 110u8];
    let mut v: Vec<u8> = Vec::new();
    push_array(&mut v, &a);
    proof {
        assert(Seq::<u8>::empty() + a@ =~= key_markdown());
    }
    v
}

/// The bytes of `"code"`.
pub open spec fn key_code() -> Seq<u8> {
    seq![99u8, 111u8, 100u8, 101u8]
}

fn key_code_exec() -> (r: Vec<u8>)
    ensures
        r@ == key_code(),
{
    let a: [u8; 4] = [99u8, 111u8, 100u8, 101u8];
    let mut v: Vec<u8> = Vec::new();
    push_array(&mut v, &a);
    proof {
        assert(Seq::<u8>::empty() + a@ =~= key_code());
    }
    v
}
/// The document's default language for code cells:
/// `metadata.language_info.name`, when present as a string.
pub open spec fn spec_metadata_language(root_props: Seq<JsonProp>) -> Option<Seq<u8>> {
    match lookup_obj(root_props, key_metadata()) {
        Some(meta) => match lookup_obj(meta, key_language_info()) {
            Some(info) => match lookup_str(info, key_name()) {
                Some(s) => Some(s.value@),
                None => None,
            },
            None => None,
        },
        None => None,
    }
}

/// A cell's explicit language override: `metadata.vscode.languageId`, when
/// present as a string.
pub open spec fn spec_cell_vscode_language(cell_props: Seq<JsonProp>) -> Option<Seq<u8>> {
    match lookup_obj(cell_props, key_metadata()) {
        Some(meta) => match lookup_obj(meta, key_vscode()) {
            Some(vs) => match lookup_str(vs, key_languageid()) {
                Some(s) => Some(s.value@),
                None => None,
            },
            None => None,
        },
        None => None,
    }
}

/// The language a cell resolves to: the explicit `languageId` override if
/// any; otherwise `markdown` for markdown cells, the document default for
/// code cells, and nothing for anything else.
pub open spec fn spec_cell_language(
    cell_props: Seq<JsonProp>,
    default_language: Option<Seq<u8>>,
) -> Option<Seq<u8>> {
    match spec_cell_vscode_language(cell_props) {
        Some(l) => Some(l),
        None => match lookup_str(cell_props, key_cell_type()) {
            Some(t) => if t.value@ == key_markdown() {
                Some(key_markdown())
            } else if t.value@ == key_code() {
                default_language
            } else {
                None
            },
            None => None,
        },
    }
}

/// Law: a markdown cell with no explicit `languageId` resolves to
/// `markdown`, whatever the document's default language is.
pub proof fn lemma_markdown_language(
    cell_props: Seq<JsonProp>,
    d1: Option<Seq<u8>>,
    d2: Option<Seq<u8>>,
)
    requires
        spec_cell_vscode_language(cell_props) is None,
        lookup_str(cell_props, key_cell_type()) matches Some(t) && t.value@ == key_markdown(),
    ensures
        spec_cell_language(cell_props, d1) == Some(key_markdown()),
        spec_cell_language(cell_props, d1) == spec_cell_language(cell_props, d2),
{
}

/// The text of `default_language`, when one was found.
pub open spec fn language_view(d: Option<&JsonStr>) -> Option<Seq<u8>> {
    match d {
        Some(s) => Some(s.value@),
        None => None,
    }
}

/// Reads the document's default language from the root object.
pub fn get_metadata_language<'a>(root_props: &'a Vec<JsonProp>) -> (r: Option<&'a JsonStr>)
    ensures
        spec_metadata_language(root_props@) == language_view(r),
{
    let key_m = key_metadata_exec();
    match obj_get_object(root_props, key_m.as_slice()) {
        Some(meta) => {
            let key_li = key_language_info_exec();
            match obj_get_object(meta, key_li.as_slice()) {
                Some(info) => {
                    let key_n = key_name_exec();
                    obj_get_string(info, key_n.as_slice())
                },
                None => None,
            }
        },
        None => None,
    }
}

/// Reads a cell's explicit `languageId` override.
pub fn get_cell_vscode_language_id<'a>(cell_props: &'a Vec<JsonProp>) -> (r: Option<&'a JsonStr>)
    ensures
        spec_cell_vscode_language(cell_props@) == language_view(r),
{
    let key_m = key_metadata_exec();
    match obj_get_object(cell_props, key_m.as_slice()) {
        Some(meta) => {
            let key_v = key_vscode_exec();
            match obj_get_object(meta, key_v.as_slice()) {
                Some(vs) => {
                    let key_l = key_languageid_exec();
                    obj_get_string(vs, key_l.as_slice())
                },
                None => None,
            }
        },
        None => None,
    }
}

/// Resolves the language of one cell, as `spec_cell_language` describes.
pub fn get_cell_language(cell_props: &Vec<JsonProp>, default_language: Option<&JsonStr>) -> (r:
    Option<Vec<u8>>)
    ensures
        (match r {
            Some(l) => spec_cell_language(cell_props@, language_view(default_language)) == Some(
                l@,
            ),
            None => spec_cell_language(cell_props@, language_view(default_language)) is None,
        }),
{
    match get_cell_vscode_language_id(cell_props) {
        Some(s) => {
            let mut v: Vec<u8> = Vec::new();
            let n = s.value.len();
            push_range(&mut v, s.value.as_slice(), 0, n);
            proof {
                assert(Seq::<u8>::empty() + s.value@.subrange(0, s.value@.len() as int) =~= s.value@);
            }
            Some(v)
        },
        None => {
            let key_ct = key_cell_type_exec();
            match obj_get_string(cell_props, key_ct.as_slice()) {
                Some(t) => {
                    let key_md = key_markdown_exec();
                    let key_cd = key_code_exec();
                    if crate::byte_ops::bytes_eq(t.value.as_slice(), key_md.as_slice()) {
                        Some(key_md)
                    } else if crate::byte_ops::bytes_eq(t.value.as_slice(), key_cd.as_slice()) {
                        match default_language {
                            Some(s) => {
                                let mut v: Vec<u8> = Vec::new();
                                let n = s.value.len();
                                push_range(&mut v, s.value.as_slice(), 0, n);
                                proof {
                                    assert(Seq::<u8>::empty() + s.value@.subrange(
                                        0,
                                        s.value@.len() as int,
                                    ) =~= s.value@);
                                }
                                Some(v)
                            },
                            None => None,
                        }
                    } else {
                        None
                    }
                },
                None => None,
            }
        },
    }
}
/// The extracted representation of one cell's source: the indentation before
/// its first string literal, the byte range of its JSON representation, and
/// its concatenated plain text.
pub struct CodeBlockText {
    pub indent_text: Vec<u8>,
    pub start: usize,
    pub end: usize,
    pub source: Vec<u8>,
}

/// Ghost view of a code block.
pub struct SpecBlock {
    pub indent: Seq<u8>,
    pub start: int,
    pub end: int,
    pub source: Seq<u8>,
}

impl View for CodeBlockText {
    type V = SpecBlock;

    open spec fn view(&self) -> SpecBlock {
        SpecBlock {
            indent: self.indent_text@,
            start: self.start as int,
            end: self.end as int,
            source: self.source@,
        }
    }
}

/// The decoded text of a string value, empty for any other shape.
pub open spec fn str_value(v: JsonValue) -> Seq<u8> {
    match v {
        JsonValue::Str(s) => s.value@,
        _ => Seq::empty(),
    }
}

/// The string literal inside a string value.
pub open spec fn str_lit(v: JsonValue) -> JsonStr {
    match v {
        JsonValue::Str(s) => s,
        _ => arbitrary(),
    }
}

/// Whether every element of the sequence is a string value.
pub open spec fn all_strings(elems: Seq<JsonValue>) -> bool {
    forall|i: int| 0 <= i < elems.len() ==> elems[i] is Str
}

/// The concatenation of the elements' decoded texts, with no separator: each
/// line string of a notebook cell already carries its own line terminator,
/// except possibly the last.
pub open spec fn concat_sources(elems: Seq<JsonValue>) -> Seq<u8>
    decreases elems.len(),
{
    if elems.len() == 0 {
        Seq::empty()
    } else {
        str_value(elems[0]) + concat_sources(elems.drop_first())
    }
}

proof fn lemma_concat_take_step(elems: Seq<JsonValue>, i: int)
    requires
        0 <= i < elems.len(),
    ensures
        concat_sources(elems.take(i + 1)) == concat_sources(elems.take(i)) + str_value(elems[i]),
    decreases i,
{
    if i == 0 {
        assert(elems.take(0) =~= Seq::<JsonValue>::empty());
        assert(elems.take(1)[0] == elems[0]);
        assert(elems.take(1).drop_first() =~= Seq::<JsonValue>::empty());
        assert(str_value(elems[0]) + Seq::<u8>::empty() =~= Seq::<u8>::empty() + str_value(
            elems[0],
        ));
    } else {
        let d = elems.drop_first();
        lemma_concat_take_step(d, i - 1);
        assert(elems.take(i + 1)[0] == elems[0]);
        assert(elems.take(i + 1).drop_first() =~= d.take(i));
        assert(elems.take(i)[0] == elems[0]);
        assert(elems.take(i).drop_first() =~= d.take(i - 1));
        assert(d[i - 1] == elems[i]);
        assert(str_value(elems[0]) + (concat_sources(d.take(i - 1)) + str_value(elems[i])) =~= (
        str_value(elems[0]) + concat_sources(d.take(i - 1))) + str_value(elems[i]));
    }
}

/// What `analyze_code_block` extracts from a cell.  A single-string source
/// keeps that literal's own byte span and has no indentation to recover; an
/// array of strings spans from the first literal's start to the last
/// literal's end, with the indentation recovered before the first literal;
/// any other shape of `source` (or any non-string array element) yields
/// nothing.
pub open spec fn spec_code_block(cell_props: Seq<JsonProp>, text: Seq<u8>) -> Option<SpecBlock> {
    match lookup_prop(cell_props, key_source()) {
        Some(JsonValue::Str(s)) => Some(
            SpecBlock {
                indent: Seq::empty(),
                start: s.start as int,
                end: s.end as int,
                source: s.value@,
            },
        ),
        Some(JsonValue::Arr(elems)) => if !all_strings(elems@) {
            None
        } else if elems@.len() == 0 {
            Some(SpecBlock { indent: Seq::empty(), start: 0, end: 0, source: Seq::empty() })
        } else {
            let first = str_lit(elems@[0]);
            let lastl = str_lit(elems@.last());
            let ip = if first.start <= text.len() {
                first.start as int
            } else {
                text.len() as int
            };
            Some(
                SpecBlock {
                    indent: indent_of(text, ip),
                    start: first.start as int,
                    end: lastl.end as int,
                    source: concat_sources(elems@),
                },
            )
        },
        _ => None,
    }
}

/// Extracts the source text, byte range and indentation of one cell, as
/// `spec_code_block` describes.
#[verifier::loop_isolation(false)]
pub fn analyze_code_block(cell_props: &Vec<JsonProp>, file_text: &[u8]) -> (r: Option<
    CodeBlockText,
>)
    ensures
        (match r {
            Some(b) => spec_code_block(cell_props@, file_text@) == Some(b@),
            None => spec_code_block(cell_props@, file_text@) is None,
        }),
{
    let key_s = key_source_exec();
    match obj_get(cell_props, key_s.as_slice()) {
        Some(v) => match v {
            JsonValue::Str(s) => {
                let mut value: Vec<u8> = Vec::new();
                let n = s.value.len();
                push_range(&mut value, s.value.as_slice(), 0, n);
                proof {
                    assert(Seq::<u8>::empty() + s.value@.subrange(0, s.value@.len() as int)
                        =~= s.value@);
                    assert(lookup_prop(cell_props@, key_source()) == Some(JsonValue::Str(*s)));
                }
                let result = CodeBlockText {
                    indent_text: Vec::new(),
                    start: s.start,
                    end: s.end,
                    source: value,
                };
                proof {
                    assert(result@.indent =~= Seq::<u8>::empty());
                    assert(result@ == (SpecBlock {
                        indent: Seq::<u8>::empty(),
                        start: s.start as int,
                        end: s.end as int,
                        source: s.value@,
                    }));
                    assert(spec_code_block(cell_props@, file_text@) == Some(result@));
                }
                Some(result)
            },
            JsonValue::Arr(elems) => {
                let mut source: Vec<u8> = Vec::new();
                let mut start: usize = 0;
                let mut end: usize = 0;
                let mut indent_text: Vec<u8> = Vec::new();
                let mut i: usize = 0;
                proof {
                    assert(elems@.take(0) =~= Seq::<JsonValue>::empty());
                }
                while i < elems.len()
                    invariant
                        i <= elems@.len(),
                        forall|k: int| 0 <= k < i ==> elems@[k] is Str,
                        source@ == concat_sources(elems@.take(i as int)),
                        i > 0 ==> start == str_lit(elems@[0]).start,
                        i > 0 ==> indent_text@ == indent_of(
                            file_text@,
                            (if str_lit(elems@[0]).start <= file_text@.len() {
                                str_lit(elems@[0]).start as int
                            } else {
                                file_text@.len() as int
                            }),
                        ),
                        i > 0 ==> end == str_lit(elems@[i - 1]).end,
                        i == 0 ==> indent_text@ == Seq::<u8>::empty() && start == 0 && end == 0,
                    decreases elems@.len() - i,
                {
                    match &elems[i] {
                        JsonValue::Str(s) => {
                            if i == 0 {
                                start = s.start;
                                let p = if s.start <= file_text.len() {
                                    s.start
                                } else {
                                    file_text.len()
                                };
                                indent_text = get_indent_text(file_text, p);
                            }
                            end = s.end;
                            let n = s.value.len();
                            push_range(&mut source, s.value.as_slice(), 0, n);
                            proof {
                                assert(s.value@.subrange(0, s.value@.len() as int) =~= s.value@);
                                lemma_concat_take_step(elems@, i as int);
                                assert(str_value(elems@[i as int]) == s.value@);
                            }
                        },
                        _ => {
                            proof {
                                assert(!all_strings(elems@));
                            }
                            return None;
                        },
                    }
                    i += 1;
                }
                let result = CodeBlockText { indent_text, start, end, source };
                proof {
                    assert(elems@.take(elems@.len() as int) =~= elems@);
                    assert(lookup_prop(cell_props@, key_source()) == Some(JsonValue::Arr(*elems)));
                    assert(all_strings(elems@));
                    if elems@.len() == 0 {
                        assert(result@ == (SpecBlock {
                            indent: Seq::<u8>::empty(),
                            start: 0,
                            end: 0,
                            source: Seq::<u8>::empty(),
                        }));
                    } else {
                        let first = str_lit(elems@[0]);
                        let lastl = str_lit(elems@.last());
                        let ip = if first.start <= file_text@.len() {
                            first.start as int
                        } else {
                            file_text@.len() as int
                        };
                        assert(result@ == (SpecBlock {
                            indent: indent_of(file_text@, ip),
                            start: first.start as int,
                            end: lastl.end as int,
                            source: concat_sources(elems@),
                        }));
                    }
                    assert(spec_code_block(cell_props@, file_text@) == Some(result@));
                }
                Some(result)
            },
            JsonValue::Obj(_) => None,
            JsonValue::Other => None,
        },
        None => None,
    }
}
/// One planned formatter invocation: the synthetic path, the plain source
/// text handed to the collaborator, and where its answer will be spliced.
pub struct FormatRequest {
    pub path: Vec<u8>,
    pub source: Vec<u8>,
    pub start: usize,
    pub end: usize,
    pub indent_text: Vec<u8>,
}

/// Ghost view of a format request.
pub struct SpecRequest {
    pub path: Seq<u8>,
    pub source: Seq<u8>,
    pub start: int,
    pub end: int,
    pub indent: Seq<u8>,
}

impl View for FormatRequest {
    type V = SpecRequest;

    open spec fn view(&self) -> SpecRequest {
        SpecRequest {
            path: self.path@,
            source: self.source@,
            start: self.start as int,
            end: self.end as int,
            indent: self.indent_text@,
        }
    }
}

/// The formatter invocation a cell gives rise to, if any: the cell must be
/// an object whose language resolves and is supported, and whose `source`
/// has a recognisable shape.
pub open spec fn spec_cell_request(
    cell: JsonValue,
    default_language: Option<Seq<u8>>,
    text: Seq<u8>,
) -> Option<SpecRequest> {
    match cell {
        JsonValue::Obj(props) => match spec_cell_language(props@, default_language) {
            Some(lang) => match spec_code_block(props@, text) {
                Some(block) => match path_for_language(lang) {
                    Some(path) => Some(
                        SpecRequest {
                            path: path,
                            source: block.source,
                            start: block.start,
                            end: block.end,
                            indent: block.indent,
                        },
                    ),
                    None => None,
                },
                None => None,
            },
            None => None,
        },
        _ => None,
    }
}

/// Plans the formatter invocation for one cell, as `spec_cell_request`
/// describes; `None` skips the cell silently.
pub fn get_cell_request(cell: &JsonValue, default_language: Option<&JsonStr>, file_text: &[u8]) -> (
    r: Option<FormatRequest>)
    ensures
        (match r {
            Some(req) => spec_cell_request(*cell, language_view(default_language), file_text@)
                == Some(req@),
            None => spec_cell_request(*cell, language_view(default_language), file_text@)
                is None,
        }),
{
    match cell {
        JsonValue::Obj(props) => {
            let lang = match get_cell_language(props, default_language) {
                Some(l) => l,
                None => {
                    return None;
                },
            };
            let block = match analyze_code_block(props, file_text) {
                Some(b) => b,
                None => {
                    return None;
                },
            };
            let path = match language_to_path(lang.as_slice()) {
                Some(p) => p,
                None => {
                    return None;
                },
            };
            Some(
                FormatRequest {
                    path,
                    source: block.source,
                    start: block.start,
                    end: block.end,
                    indent_text: block.indent_text,
                },
            )
        },
        JsonValue::Str(_) => None,
        JsonValue::Arr(_) => None,
        JsonValue::Other => None,
    }
}

/// `s` with one final line feed removed, when it ends in one.
pub open spec fn trim_final_newline(s: Seq<u8>) -> Seq<u8> {
    if s.len() > 0 && s.last() == 10 {
        s.drop_last()
    } else {
        s
    }
}

/// Removes a single trailing line feed: many formatters append one, and it
/// does not belong inside a notebook cell.
pub fn trim_trailing_newline(text: Vec<u8>) -> (r: Vec<u8>)
    ensures
        r@ == trim_final_newline(text@),
{
    let mut t = text;
    if t.len() > 0 {
        let b = t[t.len() - 1];
        if b == 10 {
            let _last = t.pop();
        }
    }
    t
}

/// Ghost description of the change built for one formatted block.
pub struct SpecChange {
    pub start: int,
    pub end: int,
    pub new_text: Seq<u8>,
}

/// The change a formatter answer produces for a request: the block's byte
/// range is replaced by the re-encoded answer, after trimming one trailing
/// line feed.
pub open spec fn spec_change_for(req: SpecRequest, answer: Seq<u8>) -> SpecChange {
    SpecChange {
        start: req.start,
        end: req.end,
        new_text: build_json_text_spec(trim_final_newline(answer), req.indent),
    }
}

/// Law: an answer with one appended trailing line feed produces the same
/// change as the answer without it.
pub proof fn lemma_trailing_newline_irrelevant(req: SpecRequest, answer: Seq<u8>)
    requires
        answer.len() == 0 || answer.last() != 10,
    ensures
        spec_change_for(req, answer.push(10)) == spec_change_for(req, answer),
{
    assert(trim_final_newline(answer.push(10)) =~= answer);
    assert(trim_final_newline(answer) =~= answer);
}

/// Builds the text change for a request from the collaborator's answer.
pub fn make_cell_change(req: &FormatRequest, formatted: Vec<u8>) -> (c: TextChange)
    ensures
        c.start == req.start,
        c.end == req.end,
        c.new_text@ == spec_change_for(req@, formatted@).new_text,
{
    let trimmed = trim_trailing_newline(formatted);
    let new_text = build_json_text(trimmed.as_slice(), req.indent_text.as_slice());
    TextChange { start: req.start, end: req.end, new_text }
}

/// Law: a cell whose resolved language has no mapped extension plans no
/// formatter invocation: the cell is skipped silently rather than failing.
pub proof fn lemma_unsupported_language_skipped(
    cell: JsonValue,
    default_language: Option<Seq<u8>>,
    text: Seq<u8>,
)
    requires
        (match cell {
            JsonValue::Obj(props) => match spec_cell_language(props@, default_language) {
                Some(lang) => path_for_language(lang) is None,
                None => true,
            },
            _ => true,
        }),
    ensures
        spec_cell_request(cell, default_language, text) is None,
{
}

/// Why formatting a document failed.
#[derive(Debug)]
pub enum FormatError<E> {
    /// The document text did not parse.
    Parse(ParseFailure),
    /// The formatter collaborator failed on one block; nothing is emitted
    /// rather than a partially formatted document.
    Callback(E),
    /// The planned changes were inconsistent: a defect in the planner, not
    /// in the input document.
    Changes(ConsistencyError),
}

/// Whether `c` is the change the pipeline produces for `cell`: the cell's
/// request, answered by the collaborator with new text, re-encoded and
/// aimed at the cell's byte range.
pub open spec fn produced_for_cell<F, E>(
    c: TextChange,
    cell: JsonValue,
    default_language: Option<Seq<u8>>,
    text: Seq<u8>,
    f: F,
) -> bool where F: Fn(&[u8], &[u8]) -> Result<Option<Vec<u8>>, E> {
    exists|req: SpecRequest, path: &[u8], source: &[u8], t: Vec<u8>|
        #![trigger call_ensures(f, (path, source), Ok::<Option<Vec<u8>>, E>(Some(t))), spec_change_for(req, t@)]
        spec_cell_request(cell, default_language, text) == Some(req) && path@ == req.path
            && source@ == req.source && call_ensures(
            f,
            (path, source),
            Ok::<Option<Vec<u8>>, E>(Some(t)),
        ) && c.start == req.start && c.end == req.end && c.new_text@ == spec_change_for(
            req,
            t@,
        ).new_text
}

/// Whether `c` is a change that the pipeline could have produced for some
/// cell of `cells`.
pub open spec fn is_produced_change<F, E>(
    c: TextChange,
    cells: Seq<JsonValue>,
    default_language: Option<Seq<u8>>,
    text: Seq<u8>,
    f: F,
) -> bool where F: Fn(&[u8], &[u8]) -> Result<Option<Vec<u8>>, E> {
    exists|i: int|
        0 <= i < cells.len() && produced_for_cell::<F, E>(
            c,
            #[trigger] cells[i],
            default_language,
            text,
            f,
        )
}

/// Formats one cell: plans its request, asks the collaborator once, and
/// builds the text change.  `Ok(None)` means the cell is skipped (no
/// request) or already formatted (the collaborator answered `None`); a
/// collaborator error is handed back untouched.
pub fn get_cell_text_change<F, E>(
    file_text: &[u8],
    cell: &JsonValue,
    default_language: Option<&JsonStr>,
    format_with_host: &F,
) -> (r: Result<Option<TextChange>, E>) where F: Fn(&[u8], &[u8]) -> Result<Option<Vec<u8>>, E>
    requires
        forall|path: &[u8], text: &[u8]| #[trigger] call_requires(
            *format_with_host,
            (path, text),
        ),
    ensures
        spec_cell_request(*cell, language_view(default_language), file_text@) is None ==> r
            == Ok::<Option<TextChange>, E>(None),
        r matches Ok(Some(c)) ==> produced_for_cell::<F, E>(
            c,
            *cell,
            language_view(default_language),
            file_text@,
            *format_with_host,
        ),
        r matches Err(ce) ==> callback_error_witnessed::<F, E>(*format_with_host, ce)
            && spec_cell_request(*cell, language_view(default_language), file_text@) is Some,
        r == Ok::<Option<TextChange>, E>(None) ==> (match spec_cell_request(
            *cell,
            language_view(default_language),
            file_text@,
        ) {
            Some(req) => none_answer_witnessed::<F, E>(*format_with_host, req),
            None => true,
        }),
{
    let req = match get_cell_request(cell, default_language, file_text) {
        Some(req) => req,
        None => {
            return Ok(None);
        },
    };
    let p = req.path.as_slice();
    let s = req.source.as_slice();
    let answer = (format_with_host)(p, s);
    match answer {
        Err(e) => {
            proof {
                assert(callback_error_witnessed::<F, E>(*format_with_host, e)) by {
                    assert(call_ensures(
                        *format_with_host,
                        (p, s),
                        Err::<Option<Vec<u8>>, E>(e),
                    ));
                }
            }
            Err(e)
        },
        Ok(None) => {
            proof {
                assert(none_answer_witnessed::<F, E>(*format_with_host, req@)) by {
                    assert(call_ensures(
                        *format_with_host,
                        (p, s),
                        Ok::<Option<Vec<u8>>, E>(None),
                    ));
                }
            }
            Ok(None)
        },
        Ok(Some(t)) => {
            let ghost tg = t;
            let c = make_cell_change(&req, t);
            proof {
                assert(produced_for_cell::<F, E>(
                    c,
                    *cell,
                    language_view(default_language),
                    file_text@,
                    *format_with_host,
                )) by {
                    assert(spec_cell_request(*cell, language_view(default_language), file_text@)
                        == Some(req@) && p@ == req@.path && s@ == req@.source && call_ensures(
                        *format_with_host,
                        (p, s),
                        Ok::<Option<Vec<u8>>, E>(Some(tg)),
                    ) && c.start == req@.start && c.end == req@.end && c.new_text@
                        == spec_change_for(req@, tg@).new_text);
                }
            }
            Ok(Some(c))
        },
    }
}

/// Whether the collaborator can answer some invocation with this error.
pub open spec fn callback_error_witnessed<F, E>(f: F, ce: E) -> bool
    where F: Fn(&[u8], &[u8]) -> Result<Option<Vec<u8>>, E> {
    exists|path: &[u8], text: &[u8]| #[trigger] call_ensures(
        f,
        (path, text),
        Err::<Option<Vec<u8>>, E>(ce),
    )
}

/// Whether the collaborator can answer the request with `None`: the block
/// is already formatted and needs no change.
pub open spec fn none_answer_witnessed<F, E>(f: F, req: SpecRequest) -> bool
    where F: Fn(&[u8], &[u8]) -> Result<Option<Vec<u8>>, E> {
    exists|path: &[u8], source: &[u8]|
        path@ == req.path && source@ == req.source && #[trigger] call_ensures(
            f,
            (path, source),
            Ok::<Option<Vec<u8>>, E>(None),
        )
}

/// Whether the root value plans no formatter invocation at all: it is not
/// an object with a `cells` array, or no cell of that array yields a
/// request.
pub open spec fn no_cell_requests(root: JsonValue, text: Seq<u8>) -> bool {
    match root {
        JsonValue::Obj(props) => match lookup_arr(props@, key_cells()) {
            Some(cells) => forall|i: int|
                0 <= i < cells.len() ==> spec_cell_request(
                    #[trigger] cells[i],
                    spec_metadata_language(props@),
                    text,
                ) is None,
            None => true,
        },
        _ => true,
    }
}

/// Whether `out` is explained by the pipeline: a non-empty set of changes,
/// each produced for one cell of the document by a collaborator answer,
/// spliced into the text.
pub open spec fn result_explained<F, E>(root: JsonValue, text: Seq<u8>, f: F, out: Seq<u8>) -> bool
    where F: Fn(&[u8], &[u8]) -> Result<Option<Vec<u8>>, E> {
    match root {
        JsonValue::Obj(props) => match lookup_arr(props@, key_cells()) {
            Some(cells) => exists|changes: Seq<TextChange>|
                changes.len() > 0 && (forall|j: int|
                    0 <= j < changes.len() ==> is_produced_change::<F, E>(
                        #[trigger] changes[j],
                        cells,
                        spec_metadata_language(props@),
                        text,
                        f,
                    )) && apply_changes_spec(text, changes) == Ok::<Seq<u8>, ConsistencyError>(
                    out,
                ),
            None => false,
        },
        _ => false,
    }
}

/// Whether every cell that plans a request got a witnessed `None` answer
/// from the collaborator: only then may the document be reported as needing
/// no change.
pub open spec fn all_requests_answered_none<F, E>(root: JsonValue, text: Seq<u8>, f: F) -> bool
    where F: Fn(&[u8], &[u8]) -> Result<Option<Vec<u8>>, E> {
    match root {
        JsonValue::Obj(props) => match lookup_arr(props@, key_cells()) {
            Some(cells) => forall|i: int|
                0 <= i < cells.len() ==> (match spec_cell_request(
                    #[trigger] cells[i],
                    spec_metadata_language(props@),
                    text,
                ) {
                    Some(req) => none_answer_witnessed::<F, E>(f, req),
                    None => true,
                }),
            None => true,
        },
        _ => true,
    }
}

/// Whether some non-empty set of changes, each produced for a cell of the
/// document by a collaborator answer, is rejected by the applier with
/// exactly this consistency error.
pub open spec fn changes_inconsistent<F, E>(
    root: JsonValue,
    text: Seq<u8>,
    f: F,
    ce: ConsistencyError,
) -> bool where F: Fn(&[u8], &[u8]) -> Result<Option<Vec<u8>>, E> {
    match root {
        JsonValue::Obj(props) => match lookup_arr(props@, key_cells()) {
            Some(cells) => exists|changes: Seq<TextChange>|
                changes.len() > 0 && (forall|j: int|
                    0 <= j < changes.len() ==> is_produced_change::<F, E>(
                        #[trigger] changes[j],
                        cells,
                        spec_metadata_language(props@),
                        text,
                        f,
                    )) && apply_changes_spec(text, changes) == Err::<Seq<u8>, ConsistencyError>(
                    ce,
                ),
            None => false,
        },
        _ => false,
    }
}

/// Formats every qualifying cell under an already-parsed root value.
///
/// The collaborator is invoked once per qualifying cell, in document order;
/// a collaborator error aborts the whole operation.  When nothing qualifies,
/// or every answer is `None`, the result is `Ok(None)`: the document needs
/// no rewrite.  Otherwise every produced change replaces one cell's source
/// range and the spliced document is returned.
#[verifier::loop_isolation(false)]
#[verifier::rlimit(60)]
pub fn format_root<F, E>(input_text: &[u8], root: &JsonValue, format_with_host: F) -> (r: Result<
    Option<Vec<u8>>,
    FormatError<E>,
>) where F: Fn(&[u8], &[u8]) -> Result<Option<Vec<u8>>, E>
    requires
        forall|path: &[u8], text: &[u8]| #[trigger] call_requires(
            format_with_host,
            (path, text),
        ),
    ensures
        !(r matches Err(FormatError::Parse(_))),
        (forall|path: &[u8], text: &[u8], out: Result<Option<Vec<u8>>, E>| #[trigger] call_ensures(
            format_with_host,
            (path, text),
            out,
        ) ==> out == Ok::<Option<Vec<u8>>, E>(None)) ==> r == Ok::<
            Option<Vec<u8>>,
            FormatError<E>,
        >(None),
        no_cell_requests(*root, input_text@) ==> r == Ok::<Option<Vec<u8>>, FormatError<E>>(
            None,
        ),
        r matches Ok(Some(v)) ==> result_explained::<F, E>(
            *root,
            input_text@,
            format_with_host,
            v@,
        ),
        r matches Err(FormatError::Callback(ce)) ==> callback_error_witnessed::<F, E>(
            format_with_host,
            ce,
        ),
        r == Ok::<Option<Vec<u8>>, FormatError<E>>(None) ==> all_requests_answered_none::<F, E>(
            *root,
            input_text@,
            format_with_host,
        ),
        r matches Err(FormatError::Changes(ce)) ==> changes_inconsistent::<F, E>(
            *root,
            input_text@,
            format_with_host,
            ce,
        ),
{
    let props = match root {
        JsonValue::Obj(p) => p,
        JsonValue::Str(_) => {
            return Ok(None);
        },
        JsonValue::Arr(_) => {
            return Ok(None);
        },
        JsonValue::Other => {
            return Ok(None);
        },
    };
    let default_language = get_metadata_language(props);
    let key_c = key_cells_exec();
    let cells = match obj_get_array(props, key_c.as_slice()) {
        Some(c) => c,
        None => {
            return Ok(None);
        },
    };
    let mut changes: Vec<TextChange> = Vec::new();
    let mut i: usize = 0;
    while i < cells.len()
        invariant
            i <= cells@.len(),
            forall|j: int|
                0 <= j < changes@.len() ==> is_produced_change::<F, E>(
                    #[trigger] changes@[j],
                    cells@,
                    spec_metadata_language(props@),
                    input_text@,
                    format_with_host,
                ),
            (forall|path: &[u8], text: &[u8], out: Result<Option<Vec<u8>>, E>|
                #[trigger] call_ensures(format_with_host, (path, text), out) ==> out == Ok::<
                    Option<Vec<u8>>,
                    E,
                >(None)) ==> changes@.len() == 0,
            (forall|j: int|
                0 <= j < cells@.len() ==> spec_cell_request(
                    #[trigger] cells@[j],
                    spec_metadata_language(props@),
                    input_text@,
                ) is None) ==> changes@.len() == 0,
            changes@.len() == 0 ==> (forall|j: int|
                0 <= j < i ==> (match spec_cell_request(
                    #[trigger] cells@[j],
                    spec_metadata_language(props@),
                    input_text@,
                ) {
                    Some(req) => none_answer_witnessed::<F, E>(format_with_host, req),
                    None => true,
                })),
        decreases cells@.len() - i,
    {
        match get_cell_text_change(input_text, &cells[i], default_language, &format_with_host) {
            Ok(Some(c)) => {
                changes.push(c);
                proof {
                    assert(is_produced_change::<F, E>(
                        c,
                        cells@,
                        spec_metadata_language(props@),
                        input_text@,
                        format_with_host,
                    )) by {
                        assert(0 <= (i as int) < cells@.len() && produced_for_cell::<F, E>(
                            c,
                            cells@[i as int],
                            spec_metadata_language(props@),
                            input_text@,
                            format_with_host,
                        ));
                    }
                }
            },
            Ok(None) => {
                proof {
                    assert(match spec_cell_request(
                        cells@[i as int],
                        spec_metadata_language(props@),
                        input_text@,
                    ) {
                        Some(req) => none_answer_witnessed::<F, E>(format_with_host, req),
                        None => true,
                    });
                }
            },
            Err(e) => {
                proof {
                    assert(!no_cell_requests(*root, input_text@)) by {
                        assert(spec_cell_request(
                            cells@[i as int],
                            spec_metadata_language(props@),
                            input_text@,
                        ) is Some);
                    }
                }
                return Err(FormatError::Callback(e));
            },
        }
        i += 1;
    }
    if changes.len() == 0 {
        proof {
            assert(all_requests_answered_none::<F, E>(*root, input_text@, format_with_host));
        }
        return Ok(None);
    }
    let ghost change_seq = changes@;
    proof {
        if no_cell_requests(*root, input_text@) {
            assert(forall|j: int|
                0 <= j < cells@.len() ==> spec_cell_request(
                    #[trigger] cells@[j],
                    spec_metadata_language(props@),
                    input_text@,
                ) is None);
            assert(change_seq.len() == 0);
        }
    }
    match apply_text_changes(input_text, changes) {
        Ok(out) => {
            proof {
                assert(exists|cs: Seq<TextChange>|
                    cs.len() > 0 && (forall|j: int|
                        0 <= j < cs.len() ==> is_produced_change::<F, E>(
                            #[trigger] cs[j],
                            cells@,
                            spec_metadata_language(props@),
                            input_text@,
                            format_with_host,
                        )) && apply_changes_spec(input_text@, cs) == Ok::<
                        Seq<u8>,
                        ConsistencyError,
                    >(out@)) by {
                    assert(change_seq.len() > 0);
                    assert(apply_changes_spec(input_text@, change_seq) == Ok::<
                        Seq<u8>,
                        ConsistencyError,
                    >(out@));
                }
                assert(result_explained::<F, E>(*root, input_text@, format_with_host, out@));
            }
            Ok(Some(out))
        },
        Err(ce) => {
            proof {
                assert(changes_inconsistent::<F, E>(*root, input_text@, format_with_host, ce)) by {
                    assert(change_seq.len() > 0);
                    assert(apply_changes_spec(input_text@, change_seq) == Err::<
                        Seq<u8>,
                        ConsistencyError,
                    >(ce));
                }
            }
            Err(FormatError::Changes(ce))
        },
    }
}

/// Formats a notebook document.
///
/// The text is parsed as JSON tolerant of comments, trailing commas and
/// loose property names; a parse failure carries the parser's error and is
/// the only case in which `Err(Parse)` is returned.  A text that parses but
/// holds no root value, or whose root is not an object with a `cells`
/// array, is not a notebook: the result is `Ok(None)`, nothing to do.
/// Otherwise the cells are formatted as `format_root` describes: `Ok(None)`
/// only when every planned request was answered `None` by the collaborator,
/// `Ok(Some)` only for the splice of the produced changes, and a
/// collaborator error is handed back.
pub fn format_text<F, E>(input_text: &[u8], format_with_host: F) -> (r: Result<
    Option<Vec<u8>>,
    FormatError<E>,
>) where F: Fn(&[u8], &[u8]) -> Result<Option<Vec<u8>>, E>
    requires
        forall|path: &[u8], text: &[u8]| #[trigger] call_requires(
            format_with_host,
            (path, text),
        ),
    ensures
        (forall|path: &[u8], text: &[u8], out: Result<Option<Vec<u8>>, E>| #[trigger] call_ensures(
            format_with_host,
            (path, text),
            out,
        ) ==> out == Ok::<Option<Vec<u8>>, E>(None)) ==> (r == Ok::<
            Option<Vec<u8>>,
            FormatError<E>,
        >(None) || r matches Err(FormatError::Parse(_))),
        r matches Err(FormatError::Callback(ce)) ==> callback_error_witnessed::<F, E>(
            format_with_host,
            ce,
        ),
        input_text@.len() == 0 ==> r == Ok::<Option<Vec<u8>>, FormatError<E>>(None),
        (match parsed_doc(input_text@) {
            Err(p) => r == Err::<Option<Vec<u8>>, FormatError<E>>(FormatError::Parse(p)),
            Ok(None) => r == Ok::<Option<Vec<u8>>, FormatError<E>>(None),
            Ok(Some(root)) => !(r matches Err(FormatError::Parse(_))) && (no_cell_requests(
                root,
                input_text@,
            ) ==> r == Ok::<Option<Vec<u8>>, FormatError<E>>(None)),
        }),
        (match parsed_doc(input_text@) {
            Ok(Some(root)) => r matches Ok(Some(v)) ==> result_explained::<F, E>(
                root,
                input_text@,
                format_with_host,
                v@,
            ),
            _ => true,
        }),
        (match parsed_doc(input_text@) {
            Ok(Some(root)) => r == Ok::<Option<Vec<u8>>, FormatError<E>>(None)
                ==> all_requests_answered_none::<F, E>(root, input_text@, format_with_host),
            _ => true,
        }),
        (match parsed_doc(input_text@) {
            Ok(Some(root)) => r matches Err(FormatError::Changes(ce))
                ==> changes_inconsistent::<F, E>(root, input_text@, format_with_host, ce),
            _ => true,
        }),
{
    match parse_document(input_text) {
        Err(p) => Err(FormatError::Parse(p)),
        Ok(None) => Ok(None),
        Ok(Some(root)) => format_root(input_text, &root, format_with_host),
    }
}

} // verus!
