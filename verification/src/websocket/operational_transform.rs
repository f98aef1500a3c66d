//! Character-level operational transform for plain-text documents.
//!
//! Positions and lengths count bytes of the document's UTF-8 encoding.  An
//! operation is modelled by [`OpView`] and its effect on a document's bytes
//! by [`apply_bytes`]; [`transform_spec`] states how two concurrent
//! operations are rebased onto each other, and
//! [`lemma_transform_converges`] proves that both orders of application
//! reach the same document.

use vstd::prelude::*;
use vstd::utf8::{encode_utf8, encode_utf8_decode_utf8, is_char_boundary};
use crate::text::push_str;

verus! {

broadcast use vstd::string::group_string_axioms;

// ---------------------------------------------------------------------------
// Model
// ---------------------------------------------------------------------------

/// An edit, with its inserted text taken by its characters.
pub enum OpView {
    Insert { position: nat, text: Seq<char> },
    Delete { position: nat, length: nat },
}

/// The number of bytes that a text occupies.
pub open spec fn byte_len(t: Seq<char>) -> nat {
    encode_utf8(t).len()
}

pub open spec fn min_nat(a: nat, b: nat) -> nat {
    if a <= b {
        a
    } else {
        b
    }
}

/// The document bytes after the edit.  Positions past the end are clamped
/// to the end, and a deletion stops at the end.
pub open spec fn apply_bytes(op: OpView, doc: Seq<u8>) -> Seq<u8> {
    match op {
        OpView::Insert { position, text } => {
            let pos = min_nat(position, doc.len());
            doc.subrange(0, pos as int) + encode_utf8(text) + doc.subrange(pos as int, doc.len() as int)
        },
        OpView::Delete { position, length } => {
            let pos = min_nat(position, doc.len());
            let end = min_nat(pos + length, doc.len());
            doc.subrange(0, pos as int) + doc.subrange(end as int, doc.len() as int)
        },
    }
}

/// The edit can be carried out on the document: the clamped positions fall
/// between characters and no position overflows.
pub open spec fn applicable(op: OpView, doc: Seq<u8>) -> bool {
    match op {
        OpView::Insert { position, text } => {
            let pos = min_nat(position, doc.len());
            is_char_boundary(doc, pos as int)
        },
        OpView::Delete { position, length } => {
            let pos = min_nat(position, doc.len());
            let end = min_nat(pos + length, doc.len());
            &&& pos + length <= usize::MAX
            &&& is_char_boundary(doc, pos as int)
            &&& is_char_boundary(doc, end as int)
        },
    }
}

/// The edit lies within the document: an insertion point at most its
/// length, a deleted range inside it.
pub open spec fn within(op: OpView, doc_len: nat) -> bool {
    match op {
        OpView::Insert { position, .. } => position <= doc_len,
        OpView::Delete { position, length } => position + length <= doc_len,
    }
}

/// `(op1', op2')`: `op1` rebased to follow `op2`, and `op2` rebased to
/// follow `op1`.  When two insertions share a position, `op1`'s text comes
/// first.  An insertion strictly inside a range the other side deletes is
/// deleted with it: the deletion widens over the inserted text and the
/// insertion becomes empty.  Of two overlapping deletions, each rebased
/// one removes what the other left of its range.
pub open spec fn transform_spec(op1: OpView, op2: OpView) -> (OpView, OpView) {
    match (op1, op2) {
        (
            OpView::Insert { position: p1, text: t1 },
            OpView::Insert { position: p2, text: t2 },
        ) => {
            if p1 <= p2 {
                (op1, OpView::Insert { position: p2 + byte_len(t1), text: t2 })
            } else {
                (OpView::Insert { position: p1 + byte_len(t2), text: t1 }, op2)
            }
        },
        (
            OpView::Insert { position: p1, text: t1 },
            OpView::Delete { position: p2, length: l2 },
        ) => {
            if p1 <= p2 {
                (op1, OpView::Delete { position: p2 + byte_len(t1), length: l2 })
            } else if p1 >= p2 + l2 {
                (OpView::Insert { position: (p1 - l2) as nat, text: t1 }, op2)
            } else {
                (
                    OpView::Insert { position: p2, text: Seq::empty() },
                    OpView::Delete { position: p2, length: l2 + byte_len(t1) },
                )
            }
        },
        (
            OpView::Delete { position: p1, length: l1 },
            OpView::Insert { position: p2, text: t2 },
        ) => {
            if p2 <= p1 {
                (OpView::Delete { position: p1 + byte_len(t2), length: l1 }, op2)
            } else if p2 >= p1 + l1 {
                (op1, OpView::Insert { position: (p2 - l1) as nat, text: t2 })
            } else {
                (
                    OpView::Delete { position: p1, length: l1 + byte_len(t2) },
                    OpView::Insert { position: p1, text: Seq::empty() },
                )
            }
        },
        (
            OpView::Delete { position: p1, length: l1 },
            OpView::Delete { position: p2, length: l2 },
        ) => {
            let end1 = p1 + l1;
            let end2 = p2 + l2;
            if end1 <= p2 {
                (op1, OpView::Delete { position: (p2 - l1) as nat, length: l2 })
            } else if end2 <= p1 {
                (OpView::Delete { position: (p1 - l2) as nat, length: l1 }, op2)
            } else if p1 <= p2 && end1 >= end2 {
                (
                    OpView::Delete { position: p1, length: (l1 - l2) as nat },
                    OpView::Delete { position: p1, length: 0 },
                )
            } else if p2 <= p1 && end2 >= end1 {
                (
                    OpView::Delete { position: p2, length: 0 },
                    OpView::Delete { position: p2, length: (l2 - l1) as nat },
                )
            } else if p1 < p2 {
                let overlap = (end1 - p2) as nat;
                (
                    OpView::Delete { position: p1, length: (p2 - p1) as nat },
                    OpView::Delete { position: p1, length: (l2 - overlap) as nat },
                )
            } else {
                let overlap = (end2 - p1) as nat;
                (
                    OpView::Delete { position: p2, length: (l1 - overlap) as nat },
                    OpView::Delete { position: p2, length: (p1 - p2) as nat },
                )
            }
        },
    }
}

/// Every position and sum that `transform` computes fits in a `usize`.
pub open spec fn transform_fits(op1: OpView, op2: OpView) -> bool {
    match (op1, op2) {
        (OpView::Insert { position: p1, text: t1 }, OpView::Insert { position: p2, text: t2 }) => {
            &&& p2 + byte_len(t1) <= usize::MAX
            &&& p1 + byte_len(t2) <= usize::MAX
        },
        (OpView::Insert { position: p1, text: t1 }, OpView::Delete { position: p2, length: l2 }) => {
            &&& p2 + byte_len(t1) <= usize::MAX
            &&& p2 + l2 <= usize::MAX
            &&& (p2 < p1 < p2 + l2 ==> l2 + byte_len(t1) <= usize::MAX)
        },
        (OpView::Delete { position: p1, length: l1 }, OpView::Insert { position: p2, text: t2 }) => {
            &&& p1 + byte_len(t2) <= usize::MAX
            &&& p1 + l1 <= usize::MAX
            &&& (p1 < p2 < p1 + l1 ==> l1 + byte_len(t2) <= usize::MAX)
        },
        (OpView::Delete { position: p1, length: l1 }, OpView::Delete { position: p2, length: l2 }) => {
            &&& p1 + l1 <= usize::MAX
            &&& p2 + l2 <= usize::MAX
        },
    }
}

// ---------------------------------------------------------------------------
// Operations
// ---------------------------------------------------------------------------

/// A text edit at a byte position.
#[derive(Debug, Clone, PartialEq)]
pub enum Operation {
    Insert { position: usize, text: String },
    Delete { position: usize, length: usize },
}

impl View for Operation {
    type V = OpView;

    open spec fn view(&self) -> OpView {
        match self {
            Operation::Insert { position, text } => OpView::Insert {
                position: *position as nat,
                text: text@,
            },
            Operation::Delete { position, length } => OpView::Delete {
                position: *position as nat,
                length: *length as nat,
            },
        }
    }
}

/// `encode_utf8` maps concatenation to concatenation.
pub proof fn lemma_encode_concat(a: Seq<char>, b: Seq<char>)
    ensures
        encode_utf8(a + b) == encode_utf8(a) + encode_utf8(b),
    decreases a.len(),
{
    if a.len() == 0 {
        assert(a + b =~= b);
        assert(encode_utf8(a) =~= Seq::<u8>::empty());
        assert(encode_utf8(a) + encode_utf8(b) =~= encode_utf8(b));
    } else {
        lemma_encode_concat(a.drop_first(), b);
        assert((a + b).drop_first() =~= a.drop_first() + b);
        assert((a + b)[0] == a[0]);
        let e0 = vstd::utf8::encode_scalar(a[0] as u32);
        assert(encode_utf8(a + b) == e0 + encode_utf8(a.drop_first() + b));
        assert(encode_utf8(a) == e0 + encode_utf8(a.drop_first()));
        assert(e0 + (encode_utf8(a.drop_first()) + encode_utf8(b)) =~= (e0 + encode_utf8(
            a.drop_first(),
        )) + encode_utf8(b));
    }
}

/// A copy of the operation.
fn copy_op(op: &Operation) -> (r: Operation)
    ensures
        r@ == op@,
{
    match op {
        Operation::Insert { position, text } => Operation::Insert {
            position: *position,
            text: text.clone(),
        },
        Operation::Delete { position, length } => Operation::Delete {
            position: *position,
            length: *length,
        },
    }
}

/// The number of bytes that a string occupies, which fits in a `usize`.
fn text_bytes(t: &str) -> (r: usize)
    ensures
        r == byte_len(t@),
{
    let b = t.as_bytes();
    proof {
        vstd::slice::axiom_spec_len(b);
    }
    b.len()
}

impl Operation {
    pub fn insert(position: usize, text: String) -> (r: Self)
        ensures
            r@ == (OpView::Insert { position: position as nat, text: text@ }),
    {
        Operation::Insert { position, text }
    }

    pub fn delete(position: usize, length: usize) -> (r: Self)
        ensures
            r@ == (OpView::Delete { position: position as nat, length: length as nat }),
    {
        Operation::Delete { position, length }
    }

    /// The document after the edit.
    pub fn apply(&self, content: &str) -> (r: String)
        requires
            applicable(self@, encode_utf8(content@)),
        ensures
            encode_utf8(r@) == apply_bytes(self@, encode_utf8(content@)),
    {
        let ghost doc = encode_utf8(content@);
        let _ = text_bytes(content);
        match self {
            Operation::Insert { position, text } => {
                let pos = if *position < content.len() {
                    *position
                } else {
                    content.len()
                };
                let (a, b) = content.split_at(pos);
                let mut result = String::new();
                push_str(&mut result, a);
                push_str(&mut result, text.as_str());
                push_str(&mut result, b);
                proof {
                    assert(result@ == a@ + text@ + b@);
                    lemma_encode_concat(a@ + text@, b@);
                    lemma_encode_concat(a@, text@);
                }
                result
            },
            Operation::Delete { position, length } => {
                let pos = if *position < content.len() {
                    *position
                } else {
                    content.len()
                };
                let end = if pos + *length < content.len() {
                    pos + *length
                } else {
                    content.len()
                };
                let (a, _rest) = content.split_at(pos);
                let (_skipped, b) = content.split_at(end);
                let mut result = String::new();
                push_str(&mut result, a);
                push_str(&mut result, b);
                proof {
                    lemma_encode_concat(a@, b@);
                }
                result
            },
        }
    }

    /// Whether the edit can be made to the text: its positions fall on
    /// character boundaries and the end of a deletion fits in a `usize`.
    pub fn applies_to(&self, content: &str) -> (r: bool)
        ensures
            r == applicable(self@, encode_utf8(content@)),
    {
        let len = text_bytes(content);
        match self {
            Operation::Insert { position, .. } => {
                let pos = if *position < len {
                    *position
                } else {
                    len
                };
                content.is_char_boundary(pos)
            },
            Operation::Delete { position, length } => {
                let pos = if *position < len {
                    *position
                } else {
                    len
                };
                match pos.checked_add(*length) {
                    None => false,
                    Some(sum) => {
                        let end = if sum < len {
                            sum
                        } else {
                            len
                        };
                        content.is_char_boundary(pos) && content.is_char_boundary(end)
                    },
                }
            },
        }
    }
}

/// The two operations rebased onto each other.
#[derive(Debug)]
pub struct TransformResult {
    pub op1_prime: Operation,
    pub op2_prime: Operation,
}

/// Rebases two concurrent operations onto each other (see [`transform_spec`]).
pub fn transform(op1: &Operation, op2: &Operation) -> (r: TransformResult)
    requires
        transform_fits(op1@, op2@),
    ensures
        (r.op1_prime@, r.op2_prime@) == transform_spec(op1@, op2@),
{
    match (op1, op2) {
        (Operation::Insert { position: p1, text: t1 }, Operation::Insert { position: p2, text: t2 }) => {
            if *p1 <= *p2 {
                TransformResult {
                    op1_prime: copy_op(op1),
                    op2_prime: Operation::Insert { position: *p2 + text_bytes(t1), text: t2.clone() },
                }
            } else {
                TransformResult {
                    op1_prime: Operation::Insert { position: *p1 + text_bytes(t2), text: t1.clone() },
                    op2_prime: copy_op(op2),
                }
            }
        },
        (Operation::Insert { position: p1, text: t1 }, Operation::Delete { position: p2, length: l2 }) => {
            if *p1 <= *p2 {
                TransformResult {
                    op1_prime: copy_op(op1),
                    op2_prime: Operation::Delete { position: *p2 + text_bytes(t1), length: *l2 },
                }
            } else if *p1 >= *p2 + *l2 {
                TransformResult {
                    op1_prime: Operation::Insert { position: *p1 - *l2, text: t1.clone() },
                    op2_prime: copy_op(op2),
                }
            } else {
                TransformResult {
                    op1_prime: Operation::Insert { position: *p2, text: String::new() },
                    op2_prime: Operation::Delete { position: *p2, length: *l2 + text_bytes(t1) },
                }
            }
        },
        (Operation::Delete { position: p1, length: l1 }, Operation::Insert { position: p2, text: t2 }) => {
            if *p2 <= *p1 {
                TransformResult {
                    op1_prime: Operation::Delete { position: *p1 + text_bytes(t2), length: *l1 },
                    op2_prime: copy_op(op2),
                }
            } else if *p2 >= *p1 + *l1 {
                TransformResult {
                    op1_prime: copy_op(op1),
                    op2_prime: Operation::Insert { position: *p2 - *l1, text: t2.clone() },
                }
            } else {
                TransformResult {
                    op1_prime: Operation::Delete { position: *p1, length: *l1 + text_bytes(t2) },
                    op2_prime: Operation::Insert { position: *p1, text: String::new() },
                }
            }
        },
        (Operation::Delete { position: p1, length: l1 }, Operation::Delete { position: p2, length: l2 }) => {
            let start1 = *p1;
            let end1 = *p1 + *l1;
            let start2 = *p2;
            let end2 = *p2 + *l2;
            if end1 <= start2 {
                TransformResult {
                    op1_prime: copy_op(op1),
                    op2_prime: Operation::Delete { position: *p2 - *l1, length: *l2 },
                }
            } else if end2 <= start1 {
                TransformResult {
                    op1_prime: Operation::Delete { position: *p1 - *l2, length: *l1 },
                    op2_prime: copy_op(op2),
                }
            } else if start1 <= start2 && end1 >= end2 {
                let overlap = end2 - start2;
                TransformResult {
                    op1_prime: Operation::Delete { position: *p1, length: *l1 - overlap },
                    op2_prime: Operation::Delete { position: *p1, length: 0 },
                }
            } else if start2 <= start1 && end2 >= end1 {
                let overlap = end1 - start1;
                TransformResult {
                    op1_prime: Operation::Delete { position: start2, length: 0 },
                    op2_prime: Operation::Delete { position: *p2, length: *l2 - overlap },
                }
            } else if start1 < start2 {
                let overlap = end1 - start2;
                TransformResult {
                    op1_prime: Operation::Delete { position: *p1, length: start2 - start1 },
                    op2_prime: Operation::Delete {
                        position: start2 - (start2 - start1),
                        length: *l2 - overlap,
                    },
                }
            } else {
                let overlap = end2 - start1;
                TransformResult {
                    op1_prime: Operation::Delete { position: start2, length: *l1 - overlap },
                    op2_prime: Operation::Delete { position: *p2, length: start1 - start2 },
                }
            }
        },
    }
}

/// Whether [`transform`] can rebase the two operations: every position and
/// sum it computes fits in a `usize`.
pub fn can_transform(op1: &Operation, op2: &Operation) -> (r: bool)
    ensures
        r == transform_fits(op1@, op2@),
{
    match (op1, op2) {
        (Operation::Insert { position: p1, text: t1 }, Operation::Insert { position: p2, text: t2 }) => {
            p2.checked_add(text_bytes(t1)).is_some() && p1.checked_add(text_bytes(t2)).is_some()
        },
        (Operation::Insert { position: p1, text: t1 }, Operation::Delete { position: p2, length: l2 }) => {
            p2.checked_add(text_bytes(t1)).is_some() && match p2.checked_add(*l2) {
                None => false,
                Some(end) => !(*p2 < *p1 && *p1 < end) || l2.checked_add(text_bytes(t1)).is_some(),
            }
        },
        (Operation::Delete { position: p1, length: l1 }, Operation::Insert { position: p2, text: t2 }) => {
            p1.checked_add(text_bytes(t2)).is_some() && match p1.checked_add(*l1) {
                None => false,
                Some(end) => !(*p1 < *p2 && *p2 < end) || l1.checked_add(text_bytes(t2)).is_some(),
            }
        },
        (Operation::Delete { position: p1, length: l1 }, Operation::Delete { position: p2, length: l2 }) => {
            p1.checked_add(*l1).is_some() && p2.checked_add(*l2).is_some()
        },
    }
}

// ---------------------------------------------------------------------------
// Convergence
// ---------------------------------------------------------------------------

/// `doc` with `e` inserted at `p`.
pub open spec fn insert_at(doc: Seq<u8>, p: int, e: Seq<u8>) -> Seq<u8> {
    doc.subrange(0, p) + e + doc.subrange(p, doc.len() as int)
}

/// `doc` without the bytes in `[a, b)`.
pub open spec fn remove_range(doc: Seq<u8>, a: int, b: int) -> Seq<u8> {
    doc.subrange(0, a) + doc.subrange(b, doc.len() as int)
}

proof fn lemma_insert_insert(doc: Seq<u8>, p1: int, e1: Seq<u8>, p2: int, e2: Seq<u8>)
    requires
        0 <= p1 <= p2 <= doc.len(),
    ensures
        insert_at(insert_at(doc, p1, e1), p2 + e1.len(), e2) == insert_at(
            insert_at(doc, p2, e2),
            p1,
            e1,
        ),
{
    let n = doc.len() as int;
    let whole = doc.subrange(0, p1) + e1 + doc.subrange(p1, p2) + e2 + doc.subrange(p2, n);
    assert(insert_at(insert_at(doc, p1, e1), p2 + e1.len(), e2) =~= whole);
    assert(insert_at(insert_at(doc, p2, e2), p1, e1) =~= whole);
}

proof fn lemma_insert_remove_after(doc: Seq<u8>, p1: int, e1: Seq<u8>, p2: int, q2: int)
    requires
        0 <= p1 <= p2 <= q2 <= doc.len(),
    ensures
        remove_range(insert_at(doc, p1, e1), p2 + e1.len(), q2 + e1.len()) == insert_at(
            remove_range(doc, p2, q2),
            p1,
            e1,
        ),
{
    let n = doc.len() as int;
    let whole = doc.subrange(0, p1) + e1 + doc.subrange(p1, p2) + doc.subrange(q2, n);
    assert(remove_range(insert_at(doc, p1, e1), p2 + e1.len(), q2 + e1.len()) =~= whole);
    assert(insert_at(remove_range(doc, p2, q2), p1, e1) =~= whole);
}

proof fn lemma_insert_remove_before(doc: Seq<u8>, p2: int, q2: int, p1: int, e1: Seq<u8>)
    requires
        0 <= p2 <= q2 <= p1 <= doc.len(),
    ensures
        remove_range(insert_at(doc, p1, e1), p2, q2) == insert_at(
            remove_range(doc, p2, q2),
            p1 - (q2 - p2),
            e1,
        ),
{
    let n = doc.len() as int;
    let whole = doc.subrange(0, p2) + doc.subrange(q2, p1) + e1 + doc.subrange(p1, n);
    assert(remove_range(insert_at(doc, p1, e1), p2, q2) =~= whole);
    assert(insert_at(remove_range(doc, p2, q2), p1 - (q2 - p2), e1) =~= whole);
}

proof fn lemma_insert_inside(doc: Seq<u8>, a: int, b: int, p: int, e: Seq<u8>)
    requires
        0 <= a < p < b <= doc.len(),
    ensures
        remove_range(insert_at(doc, p, e), a, b + e.len()) == insert_at(
            remove_range(doc, a, b),
            a,
            encode_utf8(Seq::<char>::empty()),
        ),
{
    let n = doc.len() as int;
    let whole = doc.subrange(0, a) + doc.subrange(b, n);
    assert(encode_utf8(Seq::<char>::empty()) =~= Seq::<u8>::empty());
    assert(remove_range(insert_at(doc, p, e), a, b + e.len()) =~= whole);
    assert(insert_at(remove_range(doc, a, b), a, Seq::<u8>::empty()) =~= whole);
}

proof fn lemma_remove_disjoint(doc: Seq<u8>, a1: int, b1: int, a2: int, b2: int)
    requires
        0 <= a1 <= b1 <= a2 <= b2 <= doc.len(),
    ensures
        remove_range(remove_range(doc, a1, b1), a2 - (b1 - a1), b2 - (b1 - a1)) == remove_range(
            remove_range(doc, a2, b2),
            a1,
            b1,
        ),
{
    let n = doc.len() as int;
    let whole = doc.subrange(0, a1) + doc.subrange(b1, a2) + doc.subrange(b2, n);
    assert(remove_range(remove_range(doc, a1, b1), a2 - (b1 - a1), b2 - (b1 - a1)) =~= whole);
    assert(remove_range(remove_range(doc, a2, b2), a1, b1) =~= whole);
}

proof fn lemma_remove_nested(doc: Seq<u8>, a1: int, b1: int, a2: int, b2: int)
    requires
        0 <= a1 <= a2 <= b2 <= b1 <= doc.len(),
    ensures
        remove_range(remove_range(doc, a1, b1), a1, a1) == remove_range(
            remove_range(doc, a2, b2),
            a1,
            a1 + (b1 - a1) - (b2 - a2),
        ),
{
    let n = doc.len() as int;
    let whole = doc.subrange(0, a1) + doc.subrange(b1, n);
    assert(remove_range(remove_range(doc, a1, b1), a1, a1) =~= whole);
    assert(remove_range(remove_range(doc, a2, b2), a1, a1 + (b1 - a1) - (b2 - a2)) =~= whole);
}

proof fn lemma_remove_overlap(doc: Seq<u8>, a1: int, b1: int, a2: int, b2: int)
    requires
        0 <= a1 < a2 < b1 < b2 <= doc.len(),
    ensures
        remove_range(remove_range(doc, a1, b1), a1, a1 + (b2 - b1)) == remove_range(
            remove_range(doc, a2, b2),
            a1,
            a2,
        ),
{
    let n = doc.len() as int;
    let whole = doc.subrange(0, a1) + doc.subrange(b2, n);
    assert(remove_range(remove_range(doc, a1, b1), a1, a1 + (b2 - b1)) =~= whole);
    assert(remove_range(remove_range(doc, a2, b2), a1, a2) =~= whole);
}

/// Convergence of concurrent edits: for two operations that both lie within
/// a document, applying `op1` and then `op2` rebased, or `op2` and then
/// `op1` rebased, gives the same document.
#[verifier::spinoff_prover]
pub proof fn lemma_transform_converges(op1: OpView, op2: OpView, doc: Seq<u8>)
    requires
        within(op1, doc.len()),
        within(op2, doc.len()),
    ensures
        apply_bytes(transform_spec(op1, op2).1, apply_bytes(op1, doc)) == apply_bytes(
            transform_spec(op1, op2).0,
            apply_bytes(op2, doc),
        ),
{
    let n = doc.len() as int;
    match (op1, op2) {
        (OpView::Insert { position: p1, text: t1 }, OpView::Insert { position: p2, text: t2 }) => {
            let e1 = encode_utf8(t1);
            let e2 = encode_utf8(t2);
            if p1 <= p2 {
                lemma_insert_insert(doc, p1 as int, e1, p2 as int, e2);
            } else {
                lemma_insert_insert(doc, p2 as int, e2, p1 as int, e1);
            }
        },
        (OpView::Insert { position: p1, text: t1 }, OpView::Delete { position: p2, length: l2 }) => {
            let e1 = encode_utf8(t1);
            if p1 <= p2 {
                lemma_insert_remove_after(doc, p1 as int, e1, p2 as int, (p2 + l2) as int);
            } else if p1 >= p2 + l2 {
                lemma_insert_remove_before(doc, p2 as int, (p2 + l2) as int, p1 as int, e1);
            } else {
                lemma_insert_inside(doc, p2 as int, (p2 + l2) as int, p1 as int, e1);
            }
        },
        (OpView::Delete { position: p1, length: l1 }, OpView::Insert { position: p2, text: t2 }) => {
            let e2 = encode_utf8(t2);
            if p2 <= p1 {
                lemma_insert_remove_after(doc, p2 as int, e2, p1 as int, (p1 + l1) as int);
            } else if p2 >= p1 + l1 {
                lemma_insert_remove_before(doc, p1 as int, (p1 + l1) as int, p2 as int, e2);
            } else {
                lemma_insert_inside(doc, p1 as int, (p1 + l1) as int, p2 as int, e2);
            }
        },
        (OpView::Delete { .. }, OpView::Delete { .. }) => {
            lemma_deletions_converge(op1, op2, doc);
        },
    }
}

proof fn lemma_deletions_converge(op1: OpView, op2: OpView, doc: Seq<u8>)
    requires
        op1 is Delete,
        op2 is Delete,
        within(op1, doc.len()),
        within(op2, doc.len()),
    ensures
        apply_bytes(transform_spec(op1, op2).1, apply_bytes(op1, doc)) == apply_bytes(
            transform_spec(op1, op2).0,
            apply_bytes(op2, doc),
        ),
{
    let (p1, l1) = (op1->Delete_position, op1->Delete_length);
    let (p2, l2) = (op2->Delete_position, op2->Delete_length);
    let end1: int = (p1 + l1) as int;
    let end2: int = (p2 + l2) as int;
    if end1 <= p2 {
        lemma_remove_disjoint(doc, p1 as int, end1, p2 as int, end2);
    } else if end2 <= p1 {
        lemma_remove_disjoint(doc, p2 as int, end2, p1 as int, end1);
    } else if p1 <= p2 && end1 >= end2 {
        lemma_remove_nested(doc, p1 as int, end1, p2 as int, end2);
    } else if p2 <= p1 && end2 >= end1 {
        lemma_remove_nested(doc, p2 as int, end2, p1 as int, end1);
    } else if p1 < p2 {
        lemma_remove_overlap(doc, p1 as int, end1, p2 as int, end2);
    } else {
        lemma_remove_overlap(doc, p2 as int, end2, p1 as int, end1);
    }
}

/// Convergence of concurrent edits on texts: when applying `op1` and then
/// `op2` rebased gives `a`, and applying `op2` and then `op1` rebased gives
/// `b` (as [`Operation::apply`] and [`transform`] state them), the two texts
/// are the same, for any two operations within the text.
pub proof fn lemma_texts_converge(op1: OpView, op2: OpView, s: Seq<char>, a: Seq<char>, b: Seq<char>)
    requires
        within(op1, byte_len(s)),
        within(op2, byte_len(s)),
        encode_utf8(a) == apply_bytes(transform_spec(op1, op2).1, apply_bytes(op1, encode_utf8(s))),
        encode_utf8(b) == apply_bytes(transform_spec(op1, op2).0, apply_bytes(op2, encode_utf8(s))),
    ensures
        a == b,
{
    lemma_transform_converges(op1, op2, encode_utf8(s));
    encode_utf8_decode_utf8(a);
    encode_utf8_decode_utf8(b);
}

/// Deleting, at the same position, as many bytes as an insertion added
/// gives back the text from before the insertion.
pub proof fn lemma_delete_undoes_insert(s: Seq<char>, position: nat, text: Seq<char>, a: Seq<char>, b: Seq<char>)
    requires
        position <= byte_len(s),
        encode_utf8(a) == apply_bytes(OpView::Insert { position, text }, encode_utf8(s)),
        encode_utf8(b) == apply_bytes(OpView::Delete { position, length: byte_len(text) }, encode_utf8(a)),
    ensures
        b == s,
{
    let doc = encode_utf8(s);
    let e = encode_utf8(text);
    let p = position as int;
    let mid = encode_utf8(a);
    assert(mid.len() == doc.len() + e.len());
    assert(mid.subrange(0, p) =~= doc.subrange(0, p));
    assert(mid.subrange(p + e.len(), mid.len() as int) =~= doc.subrange(p, doc.len() as int));
    assert(encode_utf8(b) =~= doc);
    encode_utf8_decode_utf8(b);
    encode_utf8_decode_utf8(s);
}

// ---------------------------------------------------------------------------
// Shared document state
// ---------------------------------------------------------------------------

/// Recent operations, each with the version it produced.
pub open spec fn pending_view(p: Seq<(u64, Operation)>) -> Seq<(u64, OpView)> {
    p.map_values(|e: (u64, Operation)| (e.0, e.1@))
}

/// `op`, written against `client_version`, rebased over every recorded
/// operation newer than that version, oldest first.
pub open spec fn rebase(op: OpView, pending: Seq<(u64, OpView)>, client_version: u64) -> OpView
    decreases pending.len(),
{
    if pending.len() == 0 {
        op
    } else {
        let next = if pending[0].0 > client_version {
            transform_spec(op, pending[0].1).0
        } else {
            op
        };
        rebase(next, pending.drop_first(), client_version)
    }
}

/// No step of the rebase overflows.
pub open spec fn rebase_fits(op: OpView, pending: Seq<(u64, OpView)>, client_version: u64) -> bool
    decreases pending.len(),
{
    if pending.len() == 0 {
        true
    } else {
        let next = if pending[0].0 > client_version {
            transform_spec(op, pending[0].1).0
        } else {
            op
        };
        &&& (pending[0].0 > client_version ==> transform_fits(op, pending[0].1))
        &&& rebase_fits(next, pending.drop_first(), client_version)
    }
}

/// The last `n` entries of `s` (all of them if there are fewer).
pub open spec fn keep_last<A>(s: Seq<A>, n: nat) -> Seq<A> {
    if s.len() > n {
        s.skip(s.len() - n)
    } else {
        s
    }
}

/// A document's text, its version, and the last operations applied to it
/// (at most 100, with strictly increasing versions no greater than the
/// document's).
#[derive(Debug)]
pub struct DocumentState {
    content: String,
    version: u64,
    pending_ops: Vec<(u64, Operation)>,
}

impl View for DocumentState {
    type V = (Seq<char>, u64, Seq<(u64, OpView)>);

    closed spec fn view(&self) -> (Seq<char>, u64, Seq<(u64, OpView)>) {
        (self.content@, self.version, pending_view(self.pending_ops@))
    }
}

/// The recorded operations are at most 100, carry strictly increasing
/// versions, and none is newer than the document.
pub open spec fn history_ok(version: u64, pending: Seq<(u64, OpView)>) -> bool {
    &&& pending.len() <= 100
    &&& forall|i: int| 0 <= i < pending.len() ==> #[trigger] pending[i].0 <= version
    &&& forall|i: int, j: int| 0 <= i < j < pending.len() ==> #[trigger] pending[i].0 < #[trigger] pending[j].0
}

impl DocumentState {
    #[verifier::type_invariant]
    spec fn well_formed(self) -> bool {
        history_ok(self.version, pending_view(self.pending_ops@))
    }

    pub fn new(content: String) -> (r: Self)
        ensures
            r@ == (content@, 0u64, Seq::<(u64, OpView)>::empty()),
            history_ok(r@.1, r@.2),
    {
        let r = DocumentState { content, version: 0, pending_ops: Vec::new() };
        assert(pending_view(r.pending_ops@) =~= Seq::<(u64, OpView)>::empty());
        r
    }

    pub fn content(&self) -> (r: &str)
        ensures
            r@ == self@.0,
    {
        self.content.as_str()
    }

    pub fn version(&self) -> (r: u64)
        ensures
            r == self@.1,
    {
        self.version
    }

    /// Whether [`DocumentState::apply`] takes this edit: the version can
    /// still grow, every rebasing step fits in a `usize`, and the rebased
    /// edit applies to the text.
    pub fn accepts(&self, op: &Operation, client_version: u64) -> (r: bool)
        ensures
            r == (self@.1 < u64::MAX && rebase_fits(op@, self@.2, client_version) && applicable(
                rebase(op@, self@.2, client_version),
                encode_utf8(self@.0),
            )),
    {
        if self.version == u64::MAX {
            return false;
        }
        let ghost history = pending_view(self.pending_ops@);
        let mut t = copy_op(op);
        let mut i: usize = 0;
        assert(history.skip(0) =~= history);
        while i < self.pending_ops.len()
            invariant
                i <= self.pending_ops@.len(),
                history == pending_view(self.pending_ops@),
                self@.1 < u64::MAX,
                rebase(op@, history, client_version) == rebase(t@, history.skip(i as int), client_version),
                rebase_fits(op@, history, client_version) == rebase_fits(
                    t@,
                    history.skip(i as int),
                    client_version,
                ),
            decreases self.pending_ops@.len() - i,
        {
            assert(history.skip(i as int).drop_first() =~= history.skip(i as int + 1));
            assert(history.skip(i as int)[0] == history[i as int]);
            let ver = self.pending_ops[i].0;
            if ver > client_version {
                if !can_transform(&t, &self.pending_ops[i].1) {
                    return false;
                }
                let result = transform(&t, &self.pending_ops[i].1);
                t = result.op1_prime;
            }
            i = i + 1;
        }
        assert(history.skip(history.len() as int) =~= Seq::<(u64, OpView)>::empty());
        t.applies_to(self.content.as_str())
    }

    /// Rebases `op` over the operations recorded after `client_version`,
    /// applies it, records it under the next version and returns that
    /// version.
    pub fn apply(&mut self, op: Operation, client_version: u64) -> (r: Result<u64, String>)
        requires
            old(self)@.1 < u64::MAX,
            rebase_fits(op@, old(self)@.2, client_version),
            applicable(rebase(op@, old(self)@.2, client_version), encode_utf8(old(self)@.0)),
        ensures
            ({
                let rebased = rebase(op@, old(self)@.2, client_version);
                &&& r == Ok::<u64, String>(final(self)@.1)
                &&& final(self)@.1 == old(self)@.1 + 1
                &&& encode_utf8(final(self)@.0) == apply_bytes(rebased, encode_utf8(old(self)@.0))
                &&& final(self)@.2 == keep_last(old(self)@.2.push((final(self)@.1, rebased)), 100)
                &&& history_ok(final(self)@.1, final(self)@.2)
            }),
    {
        proof {
            use_type_invariant(&*self);
        }
        let ghost history = pending_view(self.pending_ops@);
        let mut transformed_op = op;
        let mut i: usize = 0;
        assert(history.skip(0) =~= history);
        while i < self.pending_ops.len()
            invariant
                i <= self.pending_ops@.len(),
                history == pending_view(self.pending_ops@),
                rebase(op@, history, client_version) == rebase(
                    transformed_op@,
                    history.skip(i as int),
                    client_version,
                ),
                rebase_fits(transformed_op@, history.skip(i as int), client_version),
            decreases self.pending_ops@.len() - i,
        {
            assert(history.skip(i as int).drop_first() =~= history.skip(i as int + 1));
            assert(history.skip(i as int)[0] == history[i as int]);
            let ver = self.pending_ops[i].0;
            if ver > client_version {
                let result = transform(&transformed_op, &self.pending_ops[i].1);
                transformed_op = result.op1_prime;
            }
            i = i + 1;
        }
        assert(history.skip(history.len() as int) =~= Seq::<(u64, OpView)>::empty());
        let ghost rebased = transformed_op@;
        let new_content = transformed_op.apply(self.content.as_str());
        let new_version = self.version + 1;
        let mut pending: Vec<(u64, Operation)> = Vec::new();
        std::mem::swap(&mut pending, &mut self.pending_ops);
        assert(pending_view(self.pending_ops@) =~= Seq::<(u64, OpView)>::empty());
        self.content = new_content;
        self.version = new_version;
        let ghost before = pending@;
        pending.push((new_version, transformed_op));
        let ghost full = pending_view(pending@);
        assert(full =~= history.push((new_version, rebased)));
        while pending.len() > 100
            invariant
                keep_last(pending_view(pending@), 100) == keep_last(full, 100),
            decreases pending@.len(),
        {
            let ghost prior = pending@;
            pending.remove(0);
            assert(pending_view(pending@) =~= pending_view(prior).drop_first());
            assert(pending_view(prior).drop_first().skip(pending_view(prior).len() - 1 - 100)
                =~= pending_view(prior).skip(pending_view(prior).len() - 100));
        }
        assert(keep_last(pending_view(pending@), 100) == pending_view(pending@));
        proof {
            let kept = pending_view(pending@);
            assert forall|k: int| 0 <= k < kept.len() implies #[trigger] kept[k].0 <= new_version by {
                if full.len() > 100 {
                    assert(kept[k] == full[k + full.len() - 100]);
                } else {
                    assert(kept[k] == full[k]);
                }
            }
            assert forall|a: int, b: int| 0 <= a < b < kept.len() implies #[trigger] kept[a].0
                < #[trigger] kept[b].0 by {
                let off: int = if full.len() > 100 { full.len() - 100 } else { 0 };
                assert(kept[a] == full[a + off]);
                assert(kept[b] == full[b + off]);
                if b + off < full.len() - 1 {
                    assert(full[a + off] == history[a + off]);
                    assert(full[b + off] == history[b + off]);
                } else {
                    assert(full[a + off] == history[a + off]);
                }
            }
        }
        self.pending_ops = pending;
        Ok(self.version)
    }
}

} // verus!
