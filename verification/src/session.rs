//! Uploads from the first request on, under every sequence of answers.
use crate::batch::{batch_count, lemma_batch_bounds, lemma_batch_count_is_ceiling};
use crate::document::DocumentView;
use crate::publish::{
    delay_before, Policy, PublishErrorView, PublisherView, RequestView, ResponseView, StageView,
};
use vstd::prelude::*;

verus! {

/// The upload after `responses`, taken in order.
pub open spec fn run(upload: PublisherView, responses: Seq<ResponseView>) -> PublisherView
    decreases responses.len(),
{
    if responses.len() == 0 {
        upload
    } else {
        run(upload, responses.drop_last()).after(responses.last())
    }
}

/// Number of batch submissions that were answered in the course of
/// `responses`.
pub open spec fn submissions(upload: PublisherView, responses: Seq<ResponseView>) -> nat
    decreases responses.len(),
{
    if responses.len() == 0 {
        0
    } else {
        let before = run(upload, responses.drop_last());
        submissions(upload, responses.drop_last()) + if before.stage is Batch
            && responses.last().about_batch() {
            1nat
        } else {
            0nat
        }
    }
}

/// Number of batch submissions that were rejected in the course of
/// `responses`.
pub open spec fn rejections(upload: PublisherView, responses: Seq<ResponseView>) -> nat
    decreases responses.len(),
{
    if responses.len() == 0 {
        0
    } else {
        let before = run(upload, responses.drop_last());
        rejections(upload, responses.drop_last()) + if before.stage is Batch
            && responses.last() is BatchRejected {
            1nat
        } else {
            0nat
        }
    }
}

/// The submissions so far are one for each batch that was accepted and one
/// for each rejection.
pub open spec fn accounted(upload: PublisherView, submitted: nat, rejected: nat) -> bool {
    match upload.stage {
        StageView::Index => submitted == 0 && rejected == 0,
        StageView::Batch { batch, retries } => submitted == batch + rejected && rejected >= retries,
        StageView::Done => submitted == upload.batches() + rejected,
        StageView::Failed { error: PublishErrorView::Index { .. } } => submitted == 0 && rejected
            == 0,
        StageView::Failed { error: PublishErrorView::Batch { batch, attempts, .. } } => submitted
            == batch + rejected && rejected >= attempts,
    }
}

/// An answer leaves a valid upload valid.
pub proof fn lemma_answer_keeps_valid(upload: PublisherView, response: ResponseView)
    requires
        upload.valid(),
    ensures
        upload.after(response).valid(),
        upload.after(response).documents == upload.documents,
        upload.after(response).policy == upload.policy,
{
    lemma_batch_count_is_ceiling(upload.documents.len(), upload.policy.batch_size as nat);
}

/// One answer keeps the account: a batch answer adds one submission, a
/// rejection adds one rejection, and the stage moves with them.
pub proof fn lemma_answer_keeps_account(
    upload: PublisherView,
    response: ResponseView,
    submitted: nat,
    rejected: nat,
)
    requires
        upload.valid(),
        accounted(upload, submitted, rejected),
    ensures
        accounted(
            upload.after(response),
            submitted + if upload.stage is Batch && response.about_batch() {
                1nat
            } else {
                0nat
            },
            rejected + if upload.stage is Batch && response is BatchRejected {
                1nat
            } else {
                0nat
            },
        ),
{
    lemma_batch_count_is_ceiling(upload.documents.len(), upload.policy.batch_size as nat);
}

/// Whatever the answers, an upload that started under a valid policy is
/// valid and its submissions are accounted for.
pub proof fn lemma_upload_is_accounted(
    index: Seq<char>,
    documents: Seq<DocumentView>,
    policy: Policy,
    responses: Seq<ResponseView>,
)
    requires
        policy.valid(),
    ensures
        run(PublisherView::start(index, documents, policy), responses).valid(),
        run(PublisherView::start(index, documents, policy), responses).documents == documents,
        run(PublisherView::start(index, documents, policy), responses).policy == policy,
        accounted(
            run(PublisherView::start(index, documents, policy), responses),
            submissions(PublisherView::start(index, documents, policy), responses),
            rejections(PublisherView::start(index, documents, policy), responses),
        ),
    decreases responses.len(),
{
    let start = PublisherView::start(index, documents, policy);
    if responses.len() > 0 {
        let earlier = responses.drop_last();
        lemma_upload_is_accounted(index, documents, policy, earlier);
        lemma_answer_keeps_valid(run(start, earlier), responses.last());
        lemma_answer_keeps_account(
            run(start, earlier),
            responses.last(),
            submissions(start, earlier),
            rejections(start, earlier),
        );
    }
}

/// An upload that succeeded made one submission for each batch, of which
/// there are as many as the documents need at the policy's batch size, and
/// one more for each rejection on the way. Without a rejection that is the
/// number of documents divided by the batch size, rounded up.
pub proof fn lemma_successful_upload_sends_every_batch(
    index: Seq<char>,
    documents: Seq<DocumentView>,
    policy: Policy,
    responses: Seq<ResponseView>,
)
    requires
        policy.valid(),
        run(PublisherView::start(index, documents, policy), responses).stage is Done,
    ensures
        submissions(PublisherView::start(index, documents, policy), responses)
            == batch_count(documents.len(), policy.batch_size as nat) + rejections(
            PublisherView::start(index, documents, policy),
            responses,
        ),
{
    lemma_upload_is_accounted(index, documents, policy, responses);
}

/// A batch that is rejected for the first time is sent again: the same
/// batch with the same documents, as its second attempt, after the base
/// delay. The upload has not failed.
pub proof fn lemma_first_rejection_is_retried(upload: PublisherView, cause: Seq<char>)
    requires
        upload.valid(),
        upload.stage is Batch,
        upload.stage->Batch_retries == 0,
    ensures
        upload.after(ResponseView::BatchRejected { cause }).request() == (RequestView::Submit {
            batch: upload.stage->Batch_batch,
            attempt: 2,
            delay_ms: upload.policy.base_delay_ms,
            documents: upload.batch(upload.stage->Batch_batch),
        }),
{
    let next = upload.after(ResponseView::BatchRejected { cause });
    assert(next.stage == StageView::Batch { batch: upload.stage->Batch_batch, retries: 1 });
    assert(delay_before(upload.policy.base_delay_ms, 1) == upload.policy.base_delay_ms);
}

/// An upload fails on a batch only when that batch was rejected at least
/// twice: once when it was first sent and once for each of its retries, of
/// which there is at least one. The failure names one of the batches and
/// gives that batch's size.
pub proof fn lemma_failure_comes_after_retries(
    index: Seq<char>,
    documents: Seq<DocumentView>,
    policy: Policy,
    responses: Seq<ResponseView>,
)
    requires
        policy.valid(),
        run(PublisherView::start(index, documents, policy), responses).stage is Failed,
        run(PublisherView::start(index, documents, policy), responses).stage->Failed_error is Batch,
    ensures
        ({
            let end = run(PublisherView::start(index, documents, policy), responses);
            let error = end.stage->Failed_error;
            &&& error->attempts == policy.max_retries + 1
            &&& error->attempts >= 2
            &&& error->Batch_batch < end.batches()
            &&& error->size == end.batch(error->Batch_batch).len()
            &&& 0 < error->size <= policy.batch_size
            &&& rejections(PublisherView::start(index, documents, policy), responses)
                >= error->attempts
        }),
{
    lemma_upload_is_accounted(index, documents, policy, responses);
    let end = run(PublisherView::start(index, documents, policy), responses);
    let batch = end.stage->Failed_error->Batch_batch;
    let size = policy.batch_size as nat;
    lemma_batch_count_is_ceiling(documents.len(), size);
    assert(batch * size < documents.len()) by (nonlinear_arith)
        requires
            batch + 1 <= batch_count(documents.len(), size),
            (batch_count(documents.len(), size) - 1) * size < documents.len(),
            size > 0,
    ;
    lemma_batch_bounds(documents.len(), size, batch);
}

} // verus!
