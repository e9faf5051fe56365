//! Cutting a sequence of documents into batches of bounded size.
use crate::document::DocumentView;
use vstd::prelude::*;

verus! {

/// Number of batches that `total` documents make at `size` documents a
/// batch: `total / size`, rounded up.
pub open spec fn batch_count(total: nat, size: nat) -> nat {
    if size == 0 {
        0
    } else {
        ((total + size - 1) / (size as int)) as nat
    }
}

/// Place of the first document of batch `batch`.
pub open spec fn batch_start(total: nat, size: nat, batch: nat) -> nat {
    if batch * size <= total {
        batch * size
    } else {
        total
    }
}

/// Place after the last document of batch `batch`.
pub open spec fn batch_end(total: nat, size: nat, batch: nat) -> nat {
    batch_start(total, size, batch + 1)
}

/// The documents of batch `batch`.
pub open spec fn batch_of(documents: Seq<DocumentView>, size: nat, batch: nat) -> Seq<DocumentView> {
    documents.subrange(
        batch_start(documents.len(), size, batch) as int,
        batch_end(documents.len(), size, batch) as int,
    )
}

/// The documents of the first `batches` batches, in order.
pub open spec fn batches_before(documents: Seq<DocumentView>, size: nat, batches: nat) -> Seq<
    DocumentView,
>
    decreases batches,
{
    if batches == 0 {
        Seq::empty()
    } else {
        batches_before(documents, size, (batches - 1) as nat) + batch_of(
            documents,
            size,
            (batches - 1) as nat,
        )
    }
}

/// The number of batches is the least number of batches of `size` that hold
/// `total` documents.
pub proof fn lemma_batch_count_is_ceiling(total: nat, size: nat)
    requires
        size > 0,
    ensures
        total <= batch_count(total, size) * size,
        total > 0 ==> (batch_count(total, size) - 1) * size < total,
        total == 0 <==> batch_count(total, size) == 0,
{
    let count = (total + size - 1) / (size as int);
    assert(count * size <= total + size - 1 < count * size + size) by (nonlinear_arith)
        requires
            size > 0,
            total >= 0,
            count == (total + size - 1) / (size as int),
    ;
    assert(count >= 0) by (nonlinear_arith)
        requires
            size > 0,
            total >= 0,
            count == (total + size - 1) / (size as int),
    ;
    assert((count - 1) * size == count * size - size) by (nonlinear_arith);
    if total == 0 {
        assert(count == 0) by (nonlinear_arith)
            requires
                count * size <= size - 1,
                count >= 0,
                size > 0,
        ;
    } else {
        assert(count > 0) by (nonlinear_arith)
            requires
                total + size - 1 < count * size + size,
                total > 0,
                size > 0,
        ;
    }
}

/// A number of batches that holds `total` documents, while one batch fewer
/// does not, is the number of batches.
pub proof fn lemma_batch_count_is_unique(total: nat, size: nat, count: nat)
    requires
        size > 0,
        count > 0,
        (count - 1) * size < total <= count * size,
    ensures
        count == batch_count(total, size),
{
    let c = batch_count(total, size);
    lemma_batch_count_is_ceiling(total, size);
    assert(c == count) by (nonlinear_arith)
        requires
            size > 0,
            (count - 1) * size < total <= count * size,
            (c - 1) * size < total <= c * size,
    ;
}

/// A batch that starts before the end is one of the batches, holds at least
/// one document and at most `size`.
pub proof fn lemma_batch_bounds(total: nat, size: nat, batch: nat)
    requires
        size > 0,
        batch * size < total,
    ensures
        batch < batch_count(total, size),
        batch_start(total, size, batch) == batch * size,
        batch_start(total, size, batch) < batch_end(total, size, batch) <= total,
        batch_end(total, size, batch) - batch_start(total, size, batch) <= size,
        batch_end(total, size, batch) == total <==> batch + 1 == batch_count(total, size),
        batch_end(total, size, batch) == if total - batch * size <= size {
            total
        } else {
            batch * size + size
        },
{
    lemma_batch_count_is_ceiling(total, size);
    let count = batch_count(total, size);
    assert((batch + 1) * size == batch * size + size) by (nonlinear_arith);
    assert(batch < count) by (nonlinear_arith)
        requires
            batch * size < total <= count * size,
            size > 0,
    ;
    if batch_end(total, size, batch) == total {
        assert(total <= (batch + 1) * size);
        lemma_batch_count_is_unique(total, size, batch + 1);
    } else {
        assert((batch + 1) * size < total);
        assert(batch + 1 < count) by (nonlinear_arith)
            requires
                (batch + 1) * size < total <= count * size,
                size > 0,
        ;
    }
}

/// The first `batches` batches are the documents before the start of the
/// next one.
pub proof fn lemma_batches_are_a_prefix(documents: Seq<DocumentView>, size: nat, batches: nat)
    requires
        size > 0,
    ensures
        batches_before(documents, size, batches) == documents.take(
            batch_start(documents.len(), size, batches) as int,
        ),
    decreases batches,
{
    let total = documents.len();
    if batches == 0 {
        assert(0 * size == 0) by (nonlinear_arith);
        assert(batches_before(documents, size, batches) =~= documents.take(0));
    } else {
        let last = (batches - 1) as nat;
        lemma_batches_are_a_prefix(documents, size, last);
        assert(last * size <= (last + 1) * size) by (nonlinear_arith)
            requires
                size > 0,
        ;
        assert(batch_start(total, size, last) <= batch_end(total, size, last));
        assert(batches_before(documents, size, batches) =~= documents.take(
            batch_start(total, size, batches) as int,
        ));
    }
}

/// The batches, one after the other, are the documents: none is left out,
/// none is sent in two batches, and the order is kept.
pub proof fn lemma_batches_cover(documents: Seq<DocumentView>, size: nat)
    requires
        size > 0,
    ensures
        batches_before(documents, size, batch_count(documents.len(), size)) == documents,
{
    let total = documents.len();
    let count = batch_count(total, size);
    lemma_batch_count_is_ceiling(total, size);
    lemma_batches_are_a_prefix(documents, size, count);
    if count * size <= total {
        assert(count * size == total);
    }
    assert(batch_start(total, size, count) == total);
    assert(documents.take(total as int) =~= documents);
}

} // verus!
