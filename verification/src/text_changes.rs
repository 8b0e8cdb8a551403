//! Application of byte-range replacements to a source text.
//!
//! A [`TextChange`] plans one replacement of the half-open byte range
//! `[start, end)` with `new_text`.  [`apply_text_changes`] sorts the planned
//! changes by `(start, end)` (stably, so that zero-width insertions at one
//! point keep their insertion order), then splices them into the source in a
//! single left-to-right pass.  Overlapping or inverted ranges are reported as
//! a [`ConsistencyError`]: they mean the planner itself is broken, never the
//! input document.
use crate::byte_ops::push_range;
use vstd::prelude::*;

verus! {

/// One planned replacement: the bytes at `[start, end)` of the original
/// source are replaced by `new_text`.
#[derive(Clone, Debug)]
pub struct TextChange {
    /// Start byte index of the replaced range.
    pub start: usize,
    /// End byte index (exclusive) of the replaced range.
    pub end: usize,
    /// New text to insert or replace at the provided range.
    pub new_text: Vec<u8>,
}

impl TextChange {
    pub fn new(start: usize, end: usize, new_text: Vec<u8>) -> (c: TextChange)
        ensures
            c.start == start,
            c.end == end,
            c.new_text == new_text,
    {
        TextChange { start, end, new_text }
    }
}

/// Why a set of changes was rejected.
#[derive(Clone, Copy, Debug, PartialEq, Eq, Structural)]
pub enum ConsistencyError {
    /// In sorted order, a change started before the previous one ended.
    Overlap { past_index: usize, start: usize },
    /// A change had `start > end`.
    InvertedRange { start: usize, end: usize },
}

/// The sort order of changes: ascending by start, ties by ascending end.
pub open spec fn change_le(a: TextChange, b: TextChange) -> bool {
    a.start < b.start || (a.start == b.start && a.end <= b.end)
}

/// Inserts `c` into the already-sorted `s`, after every element that is
/// less than or equal to it, which makes the overall sort stable.
pub open spec fn insert_change(c: TextChange, s: Seq<TextChange>) -> Seq<TextChange>
    decreases s.len(),
{
    if s.len() > 0 && change_le(s[0], c) {
        seq![s[0]] + insert_change(c, s.drop_first())
    } else {
        seq![c] + s
    }
}

/// The stable sort of `s` by `change_le`.
pub open spec fn sort_changes(s: Seq<TextChange>) -> Seq<TextChange>
    decreases s.len(),
{
    if s.len() == 0 {
        Seq::empty()
    } else {
        insert_change(s.last(), sort_changes(s.drop_last()))
    }
}

/// The first consistency violation found while scanning sorted changes with
/// the cursor at `past_index`, or `None` when the changes are valid.
pub open spec fn scan_error(s: Seq<TextChange>, past_index: usize) -> Option<ConsistencyError>
    decreases s.len(),
{
    if s.len() == 0 {
        None
    } else if s[0].start > s[0].end {
        Some(ConsistencyError::InvertedRange { start: s[0].start, end: s[0].end })
    } else if s[0].start < past_index {
        Some(ConsistencyError::Overlap { past_index, start: s[0].start })
    } else {
        scan_error(s.drop_first(), s[0].end)
    }
}

/// The text produced by splicing sorted changes into `source`, starting with
/// the cursor at `cursor`.  Each step emits the untouched gap before the
/// change, then the replacement text, and moves the cursor to the change's
/// end; a range reaching past the end of the source is clamped to it.
pub open spec fn apply_rec(source: Seq<u8>, s: Seq<TextChange>, cursor: usize) -> Seq<u8>
    decreases s.len(),
{
    if s.len() == 0 {
        if (cursor as int) < source.len() {
            source.skip(cursor as int)
        } else {
            Seq::empty()
        }
    } else {
        let c = s[0];
        let hi = if source.len() <= c.start as int {
            source.len() as int
        } else {
            c.start as int
        };
        let gap = if c.start > cursor && (cursor as int) < source.len() {
            source.subrange(cursor as int, hi)
        } else {
            Seq::<u8>::empty()
        };
        gap + c.new_text@ + apply_rec(source, s.drop_first(), c.end)
    }
}

/// What applying `changes` to `source` returns: the spliced text, or the
/// first consistency violation in sorted order.
pub open spec fn apply_changes_spec(source: Seq<u8>, changes: Seq<TextChange>) -> Result<
    Seq<u8>,
    ConsistencyError,
> {
    let sorted = sort_changes(changes);
    match scan_error(sorted, 0) {
        Some(e) => Err(e),
        None => Ok(apply_rec(source, sorted, 0)),
    }
}

/// Law: an empty change set leaves any source byte-identical.
pub proof fn lemma_apply_empty_identity(source: Seq<u8>)
    ensures
        apply_changes_spec(source, Seq::<TextChange>::empty()) == Ok::<
            Seq<u8>,
            ConsistencyError,
        >(source),
{
    assert(sort_changes(Seq::<TextChange>::empty()) =~= Seq::<TextChange>::empty());
    assert(apply_rec(source, Seq::<TextChange>::empty(), 0) =~= source);
}

fn change_le_exec(a: &TextChange, b: &TextChange) -> (r: bool)
    ensures
        r == change_le(*a, *b),
{
    a.start < b.start || (a.start == b.start && a.end <= b.end)
}

proof fn lemma_insert_change_at(c: TextChange, s: Seq<TextChange>, j: int)
    requires
        0 <= j <= s.len(),
        forall|k: int| 0 <= k < j ==> change_le(#[trigger] s[k], c),
        j < s.len() ==> !change_le(s[j], c),
    ensures
        insert_change(c, s) == s.insert(j, c),
    decreases s.len(),
{
    if s.len() == 0 {
        assert(insert_change(c, s) =~= s.insert(0, c));
    } else if j == 0 {
        assert(insert_change(c, s) =~= s.insert(0, c));
    } else {
        assert(change_le(s[0], c));
        assert(forall|k: int| 0 <= k < j - 1 ==> change_le(#[trigger] s.drop_first()[k], c)) by {
            assert(forall|k: int|
                0 <= k < j - 1 ==> #[trigger] s.drop_first()[k] == s[k + 1] && change_le(
                    s[k + 1],
                    c,
                ));
        }
        lemma_insert_change_at(c, s.drop_first(), j - 1);
        assert(seq![s[0]] + s.drop_first().insert(j - 1, c) =~= s.insert(j, c));
    }
}

/// Stable insertion sort of the changes by `(start, end)`.
fn sort_text_changes(changes: Vec<TextChange>) -> (r: Vec<TextChange>)
    ensures
        r@ == sort_changes(changes@),
{
    let ghost all = changes@;
    let mut rest = changes;
    let mut result: Vec<TextChange> = Vec::new();
    while rest.len() > 0
        invariant
            rest@.len() <= all.len(),
            rest@ == all.subrange(all.len() - rest@.len(), all.len() as int),
            result@ == sort_changes(all.take(all.len() - rest@.len())),
        decreases rest.len(),
    {
        let ghost done = all.len() - rest@.len();
        let c = rest.remove(0);
        proof {
            assert(c == all[done]);
            assert(rest@ =~= all.subrange(done + 1, all.len() as int));
        }
        let mut j: usize = 0;
        while j < result.len() && change_le_exec(&result[j], &c)
            invariant
                j <= result.len(),
                forall|k: int| 0 <= k < j ==> change_le(#[trigger] result@[k], c),
            decreases result.len() - j,
        {
            j += 1;
        }
        let ghost before = result@;
        result.insert(j, c);
        proof {
            lemma_insert_change_at(c, before, j as int);
            assert(all.take(done + 1).drop_last() =~= all.take(done));
            assert(all.take(done + 1).last() == all[done]);
        }
    }
    proof {
        assert(all.take(all.len() as int) =~= all);
    }
    result
}

/// Applies the text changes to the given source text, or reports the first
/// overlapping or inverted range found in sorted order.
#[verifier::loop_isolation(false)]
pub fn apply_text_changes(source: &[u8], changes: Vec<TextChange>) -> (r: Result<
    Vec<u8>,
    ConsistencyError,
>)
    ensures
        (match r {
            Ok(v) => apply_changes_spec(source@, changes@) == Ok::<Seq<u8>, ConsistencyError>(v@),
            Err(e) => apply_changes_spec(source@, changes@) == Err::<Seq<u8>, ConsistencyError>(e),
        }),
{
    let sorted = sort_text_changes(changes);
    let ghost sseq = sorted@;
    let mut out: Vec<u8> = Vec::new();
    let mut last_index: usize = 0;
    let mut i: usize = 0;
    proof {
        assert(sseq.skip(0) =~= sseq);
        assert(out@ + apply_rec(source@, sseq, 0) =~= apply_rec(source@, sseq, 0));
    }
    while i < sorted.len()
        invariant
            i <= sorted.len(),
            sseq == sorted@,
            scan_error(sseq, 0) == scan_error(sseq.skip(i as int), last_index),
            apply_rec(source@, sseq, 0) == out@ + apply_rec(
                source@,
                sseq.skip(i as int),
                last_index,
            ),
        decreases sorted.len() - i,
    {
        proof {
            assert(sseq.skip(i as int)[0] == sseq[i as int]);
            assert(sseq.skip(i as int).drop_first() =~= sseq.skip(i + 1 as int));
        }
        let c_start = sorted[i].start;
        let c_end = sorted[i].end;
        if c_start > c_end {
            proof {
                assert(scan_error(sseq.skip(i as int), last_index) == Some(
                    ConsistencyError::InvertedRange { start: c_start, end: c_end },
                ));
            }
            return Err(ConsistencyError::InvertedRange { start: c_start, end: c_end });
        }
        if c_start < last_index {
            proof {
                assert(scan_error(sseq.skip(i as int), last_index) == Some(
                    ConsistencyError::Overlap { past_index: last_index, start: c_start },
                ));
            }
            return Err(ConsistencyError::Overlap { past_index: last_index, start: c_start });
        }
        let ghost out_before = out@;
        if c_start > last_index && last_index < source.len() {
            let hi = if source.len() < c_start {
                source.len()
            } else {
                c_start
            };
            push_range(&mut out, source, last_index, hi);
        }
        let n = sorted[i].new_text.len();
        push_range(&mut out, sorted[i].new_text.as_slice(), 0, n);
        proof {
            let c = sseq[i as int];
            assert(c.new_text@.subrange(0, c.new_text@.len() as int) =~= c.new_text@);
            let gap = if c.start > last_index && (last_index as int) < source@.len() {
                source@.subrange(
                    last_index as int,
                    if source@.len() <= c.start as int {
                        source@.len() as int
                    } else {
                        c.start as int
                    },
                )
            } else {
                Seq::<u8>::empty()
            };
            assert(out@ =~= out_before + gap + c.new_text@);
            assert(apply_rec(source@, sseq.skip(i as int), last_index) == gap + c.new_text@
                + apply_rec(source@, sseq.skip(i + 1 as int), c.end));
            assert(out_before + (gap + c.new_text@ + apply_rec(
                source@,
                sseq.skip(i + 1 as int),
                c.end,
            )) =~= (out_before + gap + c.new_text@) + apply_rec(
                source@,
                sseq.skip(i + 1 as int),
                c.end,
            ));
        }
        last_index = c_end;
        i += 1;
    }
    proof {
        assert(sseq.skip(sseq.len() as int) =~= Seq::<TextChange>::empty());
    }
    if last_index < source.len() {
        push_range(&mut out, source, last_index, source.len());
        proof {
            assert(source@.subrange(last_index as int, source@.len() as int) =~= source@.skip(
                last_index as int,
            ));
        }
    }
    Ok(out)
}

} // verus!
