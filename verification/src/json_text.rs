//! Re-encoding of formatted text as the notebook's array-of-line-strings
//! JSON shape.
//!
//! The formatted text is split on line feeds.  Every line but the last is
//! JSON-string-encoded with its line feed kept inside the string value, the
//! last without one, and the encoded literals are joined by `,\n` plus the
//! indentation of the original first element.  Only the literal sequence is
//! produced: the surrounding brackets of the original document stay in place
//! because only the inner byte range is replaced.
use crate::byte_ops::push_range;
use vstd::prelude::*;

verus! {

/// The JSON string literal (quotes and escapes included) that represents the
/// given text, exactly as `serde_json` renders it.
pub uninterp spec fn json_quoted(s: Seq<u8>) -> Seq<u8>;

/// Relies on `serde_json::to_string` applied to a string value: it returns
/// the quoted, escaped JSON literal for the text decoded from the bytes
/// (lossily, where they are not UTF-8), a function of the bytes alone, and
/// cannot fail for a string value.
#[verifier::external_body]
fn quote_json_string(text: &[u8]) -> (r: Vec<u8>)
    ensures
        r@ == json_quoted(text@),
{
    let s = String::from_utf8_lossy(text);
    match serde_json::to_string(s.as_ref()) {
        Ok(q) => q.into_bytes(),
        Err(_) => Vec::new(),
    }
}

/// The lines of `s`, split on line feeds.  A text with no line feed is one
/// line; every line feed ends a line, so a trailing one yields a final empty
/// line.
pub open spec fn split_lines(s: Seq<u8>) -> Seq<Seq<u8>>
    decreases s.len(),
{
    if s.len() == 0 {
        seq![Seq::<u8>::empty()]
    } else if s[0] == 10 {
        seq![Seq::<u8>::empty()] + split_lines(s.drop_first())
    } else {
        let rest = split_lines(s.drop_first());
        seq![seq![s[0]] + rest[0]] + rest.drop_first()
    }
}

/// The joined encoding of the lines: every line but the last is encoded with
/// its line feed inside the string, and `,\n` plus the indentation separates
/// successive elements.
pub open spec fn encode_lines(lines: Seq<Seq<u8>>, indent: Seq<u8>) -> Seq<u8>
    decreases lines.len(),
{
    if lines.len() == 0 {
        Seq::empty()
    } else if lines.len() == 1 {
        json_quoted(lines[0])
    } else {
        json_quoted(lines[0].push(10)) + seq![44u8, 10u8] + indent + encode_lines(
            lines.drop_first(),
            indent,
        )
    }
}

/// What `build_json_text` returns for a formatted text and an indentation.
pub open spec fn build_json_text_spec(formatted: Seq<u8>, indent: Seq<u8>) -> Seq<u8> {
    encode_lines(split_lines(formatted), indent)
}

proof fn lemma_split_len(s: Seq<u8>)
    ensures
        split_lines(s).len() >= 1,
    decreases s.len(),
{
    if s.len() > 0 {
        lemma_split_len(s.drop_first());
    }
}

proof fn lemma_split_no_newline(s: Seq<u8>)
    requires
        forall|k: int| 0 <= k < s.len() ==> s[k] != 10,
    ensures
        split_lines(s) == seq![s],
    decreases s.len(),
{
    if s.len() == 0 {
        assert(s =~= Seq::<u8>::empty());
        assert(split_lines(s) =~= seq![s]);
    } else {
        assert(forall|k: int| 0 <= k < s.len() - 1 ==> #[trigger] s.drop_first()[k] == s[k + 1]);
        lemma_split_no_newline(s.drop_first());
        assert(seq![s[0]] + s.drop_first() =~= s);
        assert(split_lines(s) =~= seq![s]);
    }
}

proof fn lemma_split_at_newline(s: Seq<u8>, i: int)
    requires
        0 <= i < s.len(),
        s[i] == 10,
        forall|k: int| 0 <= k < i ==> s[k] != 10,
    ensures
        split_lines(s) == seq![s.take(i)] + split_lines(s.skip(i + 1)),
    decreases i,
{
    if i == 0 {
        assert(s.take(0) =~= Seq::<u8>::empty());
        assert(s.skip(1) =~= s.drop_first());
        assert(split_lines(s) =~= seq![s.take(0)] + split_lines(s.skip(1)));
    } else {
        let d = s.drop_first();
        assert(forall|k: int| 0 <= k < d.len() ==> #[trigger] d[k] == s[k + 1]);
        lemma_split_at_newline(d, i - 1);
        lemma_split_len(d.skip(i));
        assert(d.skip(i) =~= s.skip(i + 1));
        assert(seq![s[0]] + d.take(i - 1) =~= s.take(i));
        assert((seq![d.take(i - 1)] + split_lines(d.skip(i))).drop_first() =~= split_lines(
            s.skip(i + 1),
        ));
        assert((seq![d.take(i - 1)] + split_lines(d.skip(i)))[0] == d.take(i - 1));
        assert(split_lines(s) =~= seq![s.take(i)] + split_lines(s.skip(i + 1)));
    }
}

/// Renders the formatted text as the comma-joined sequence of JSON string
/// literals described at the top of this module.
#[verifier::loop_isolation(false)]
pub fn build_json_text(formatted: &[u8], indent_text: &[u8]) -> (r: Vec<u8>)
    ensures
        r@ == build_json_text_spec(formatted@, indent_text@),
{
    let mut out: Vec<u8> = Vec::new();
    let mut line_start: usize = 0;
    let mut i: usize = 0;
    proof {
        assert(formatted@.skip(0) =~= formatted@);
        assert(out@ + encode_lines(split_lines(formatted@), indent_text@) =~= encode_lines(
            split_lines(formatted@),
            indent_text@,
        ));
    }
    while i < formatted.len()
        invariant
            line_start <= i <= formatted@.len(),
            forall|k: int| line_start <= k < i ==> formatted@[k] != 10,
            build_json_text_spec(formatted@, indent_text@) == out@ + encode_lines(
                split_lines(formatted@.skip(line_start as int)),
                indent_text@,
            ),
        decreases formatted.len() - i,
    {
        if formatted[i] == 10 {
            let mut line: Vec<u8> = Vec::new();
            push_range(&mut line, formatted, line_start, i);
            line.push(10);
            let q = quote_json_string(line.as_slice());
            let ghost out0 = out@;
            let qn = q.len();
            push_range(&mut out, q.as_slice(), 0, qn);
            out.push(44);
            out.push(10);
            let in_n = indent_text.len();
            push_range(&mut out, indent_text, 0, in_n);
            proof {
                let rem = formatted@.skip(line_start as int);
                let cur = formatted@.subrange(line_start as int, i as int);
                assert(forall|k: int|
                    0 <= k < rem.len() ==> #[trigger] rem[k] == formatted@[k + line_start]);
                assert(rem[i - line_start] == 10);
                assert(forall|k: int| 0 <= k < i - line_start ==> #[trigger] rem[k] != 10);
                assert(rem.take(i - line_start) =~= cur);
                assert(rem.skip(i - line_start + 1) =~= formatted@.skip(i + 1));
                lemma_split_at_newline(rem, i - line_start);
                lemma_split_len(formatted@.skip(i + 1));
                let lines_rest = split_lines(formatted@.skip(i + 1));
                assert(split_lines(rem) == seq![cur] + lines_rest);
                assert(split_lines(rem)[0] == cur);
                assert(split_lines(rem).drop_first() =~= lines_rest);
                assert(line@ =~= cur.push(10));
                assert(q@ == json_quoted(cur.push(10)));
                assert(encode_lines(split_lines(rem), indent_text@) == json_quoted(cur.push(10))
                    + seq![44u8, 10u8] + indent_text@ + encode_lines(lines_rest, indent_text@));
                assert(out@ =~= out0 + json_quoted(cur.push(10)) + seq![44u8, 10u8]
                    + indent_text@);
                assert(out0 + (json_quoted(cur.push(10)) + seq![44u8, 10u8] + indent_text@
                    + encode_lines(lines_rest, indent_text@)) =~= out@ + encode_lines(
                    lines_rest,
                    indent_text@,
                ));
            }
            line_start = i + 1;
        }
        i += 1;
    }
    let mut line: Vec<u8> = Vec::new();
    push_range(&mut line, formatted, line_start, formatted.len());
    let q = quote_json_string(line.as_slice());
    let qn = q.len();
    push_range(&mut out, q.as_slice(), 0, qn);
    proof {
        let rem = formatted@.skip(line_start as int);
        assert(forall|k: int|
            0 <= k < rem.len() ==> #[trigger] rem[k] == formatted@[k + line_start]);
        assert(forall|k: int| 0 <= k < rem.len() ==> #[trigger] rem[k] != 10);
        lemma_split_no_newline(rem);
        assert(line@ =~= rem);
        assert(encode_lines(seq![rem], indent_text@) == json_quoted(rem));
    }
    out
}

} // verus!
