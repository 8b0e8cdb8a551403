//! Recovery of the indentation that precedes a position in the document.
//!
//! When a cell's source is stored as an array of line strings, the re-encoded
//! replacement must indent every array element like the first one.  The
//! indentation is found by looking just before the first element's literal:
//! trailing whitespace is trimmed from the text before that position, and the
//! bytes after the most recent line feed inside that trimmed-off whitespace
//! (or all of it, when it holds no line feed) are the indentation.
use crate::byte_ops::is_space_byte;
use crate::byte_ops::push_range;
use crate::byte_ops::space_byte;
use vstd::prelude::*;

verus! {

/// Length of `s` once trailing whitespace bytes are removed.
pub open spec fn trim_end_len(s: Seq<u8>) -> int
    decreases s.len(),
{
    if s.len() > 0 && is_space_byte(s.last()) {
        trim_end_len(s.drop_last())
    } else {
        s.len() as int
    }
}

/// Index of the last occurrence of `b` in `s`.
pub open spec fn last_index_of(s: Seq<u8>, b: u8) -> Option<int>
    decreases s.len(),
{
    if s.len() == 0 {
        None
    } else if s.last() == b {
        Some(s.len() - 1)
    } else {
        last_index_of(s.drop_last(), b)
    }
}

/// The indentation immediately preceding byte position `pos` of `text`: the
/// part of the trailing whitespace run before `pos` that follows its last
/// line feed.
pub open spec fn indent_of(text: Seq<u8>, pos: int) -> Seq<u8> {
    let prec = text.take(pos);
    let tail = prec.skip(trim_end_len(prec));
    match last_index_of(tail, 10) {
        Some(i) => tail.skip(i + 1),
        None => tail,
    }
}

proof fn lemma_last_index_of_none(s: Seq<u8>, b: u8)
    requires
        forall|k: int| 0 <= k < s.len() ==> s[k] != b,
    ensures
        last_index_of(s, b) is None,
    decreases s.len(),
{
    if s.len() > 0 {
        assert(forall|k: int| 0 <= k < s.len() - 1 ==> #[trigger] s.drop_last()[k] == s[k]);
        lemma_last_index_of_none(s.drop_last(), b);
    }
}

proof fn lemma_last_index_of_some(s: Seq<u8>, b: u8, i: int)
    requires
        0 <= i < s.len(),
        s[i] == b,
        forall|k: int| i < k < s.len() ==> s[k] != b,
    ensures
        last_index_of(s, b) == Some(i),
    decreases s.len(),
{
    if i == s.len() - 1 {
    } else {
        assert(s.last() != b);
        assert(forall|k: int| 0 <= k < s.len() - 1 ==> #[trigger] s.drop_last()[k] == s[k]);
        lemma_last_index_of_some(s.drop_last(), b, i);
    }
}

/// Returns the indentation immediately preceding byte position `start_pos`.
#[verifier::loop_isolation(false)]
pub fn get_indent_text(file_text: &[u8], start_pos: usize) -> (r: Vec<u8>)
    requires
        start_pos <= file_text@.len(),
    ensures
        r@ == indent_of(file_text@, start_pos as int),
{
    let ghost prec = file_text@.take(start_pos as int);
    let mut t: usize = start_pos;
    while t > 0 && space_byte(file_text[t - 1])
        invariant
            t <= start_pos,
            trim_end_len(prec) == trim_end_len(file_text@.take(t as int)),
        decreases t,
    {
        proof {
            assert(file_text@.take(t as int).drop_last() =~= file_text@.take(t - 1));
            assert(file_text@.take(t as int).last() == file_text@[t - 1]);
        }
        t -= 1;
    }
    proof {
        if t > 0 {
            assert(file_text@.take(t as int).last() == file_text@[t - 1]);
        }
        assert(trim_end_len(prec) == t as int);
    }
    let ghost t0 = t as int;
    let ghost tail = prec.skip(t0);
    let mut j: usize = start_pos;
    while j > t && file_text[j - 1] != 10
        invariant
            t <= j <= start_pos,
            forall|k: int| j <= k < start_pos ==> file_text@[k] != 10,
        decreases j,
    {
        j -= 1;
    }
    let mut out: Vec<u8> = Vec::new();
    push_range(&mut out, file_text, j, start_pos);
    proof {
        assert(forall|k: int|
            0 <= k < tail.len() ==> #[trigger] tail[k] == file_text@[k + t0]);
        if j == t {
            assert(forall|k: int| 0 <= k < tail.len() ==> #[trigger] tail[k] != 10);
            lemma_last_index_of_none(tail, 10);
            assert(file_text@.subrange(j as int, start_pos as int) =~= tail);
        } else {
            assert(file_text@[j - 1] == 10);
            assert(tail[j - 1 - t0] == 10);
            lemma_last_index_of_some(tail, 10, j - 1 - t0);
            assert(file_text@.subrange(j as int, start_pos as int) =~= tail.skip(j - t0));
        }
    }
    out
}

} // verus!
