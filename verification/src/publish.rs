//! Uploading a catalog: which request to make next, and what each answer
//! means.
//!
//! A [`Publisher`] sends nothing itself. It says which request is due, is
//! told the answer, and moves on: first the index is made sure of, then the
//! documents go out batch by batch. A rejected batch is sent again after a
//! growing delay; when its retries are used up the upload has failed.
use crate::batch::{
    batch_count, batch_end, batch_of, batch_start, lemma_batch_bounds, lemma_batch_count_is_ceiling,
};
use crate::catalog::Catalog;
use crate::document::{document_views, documents, Document, DocumentView};
use vstd::prelude::*;

verus! {

/// The index that a catalog of files goes into.
pub const FILES_INDEX: &'static str = "files_index";

/// How an upload is cut up and how hard it tries.
#[derive(Debug, Clone, Copy, PartialEq, Eq, Structural)]
pub struct Policy {
    /// Most documents in one batch.
    pub batch_size: usize,
    /// How often a rejected batch is sent again before the upload fails.
    pub max_retries: u32,
    /// Delay before the first retry of a batch, in milliseconds.
    pub base_delay_ms: u64,
}

impl Policy {
    /// A batch holds at least one document, and a rejected batch is sent
    /// again at least once.
    pub open spec fn valid(self) -> bool {
        self.batch_size > 0 && self.max_retries > 0
    }
}

/// Twice the delay, or the longest delay there is.
pub open spec fn doubled(delay_ms: u64) -> u64 {
    if delay_ms > u64::MAX / 2 {
        u64::MAX
    } else {
        (2 * delay_ms) as u64
    }
}

/// The delay before retry number `retry` of a batch, counted from 1: the
/// base delay, doubled with every retry after the first.
pub open spec fn backoff_delay(base_delay_ms: u64, retry: nat) -> u64
    decreases retry,
{
    if retry <= 1 {
        base_delay_ms
    } else {
        doubled(backoff_delay(base_delay_ms, (retry - 1) as nat))
    }
}

/// The delay before a batch is sent after `retries` rejections: none before
/// the first attempt.
pub open spec fn delay_before(base_delay_ms: u64, retries: nat) -> u64 {
    if retries == 0 {
        0
    } else {
        backoff_delay(base_delay_ms, retries)
    }
}

/// Why an upload failed.
#[derive(Debug, PartialEq, Eq)]
pub enum PublishError {
    /// The index is not there and could not be created.
    Index { cause: String },
    /// Batch number `batch`, of `size` documents, was rejected `attempts`
    /// times, the last time for `cause`.
    Batch { batch: usize, size: usize, attempts: u64, cause: String },
}

/// What a [`PublishError`] stands for.
pub enum PublishErrorView {
    Index { cause: Seq<char> },
    Batch { batch: nat, size: nat, attempts: nat, cause: Seq<char> },
}

impl View for PublishError {
    type V = PublishErrorView;

    open spec fn view(&self) -> PublishErrorView {
        match *self {
            PublishError::Index { cause } => PublishErrorView::Index { cause: cause@ },
            PublishError::Batch { batch, size, attempts, cause } => PublishErrorView::Batch {
                batch: batch as nat,
                size: size as nat,
                attempts: attempts as nat,
                cause: cause@,
            },
        }
    }
}

impl Clone for PublishError {
    fn clone(&self) -> (copy: PublishError)
        ensures
            copy@ == self@,
    {
        match self {
            PublishError::Index { cause } => PublishError::Index { cause: cause.clone() },
            PublishError::Batch { batch, size, attempts, cause } => PublishError::Batch {
                batch: *batch,
                size: *size,
                attempts: *attempts,
                cause: cause.clone(),
            },
        }
    }
}

/// What is to be done next.
#[derive(Debug)]
pub enum Request {
    /// Create the index `name` unless it exists.
    EnsureIndex { name: String },
    /// Wait `delay_ms` milliseconds, then submit `documents` as one bulk
    /// request. They are batch number `batch`, sent for the `attempt`-th
    /// time.
    Submit { batch: usize, attempt: u64, delay_ms: u64, documents: Vec<Document> },
    /// Nothing: the upload is over.
    Stop,
}

/// What a [`Request`] stands for.
pub enum RequestView {
    EnsureIndex { name: Seq<char> },
    Submit { batch: nat, attempt: nat, delay_ms: u64, documents: Seq<DocumentView> },
    Stop,
}

impl View for Request {
    type V = RequestView;

    open spec fn view(&self) -> RequestView {
        match *self {
            Request::EnsureIndex { name } => RequestView::EnsureIndex { name: name@ },
            Request::Submit { batch, attempt, delay_ms, documents } => RequestView::Submit {
                batch: batch as nat,
                attempt: attempt as nat,
                delay_ms,
                documents: document_views(documents@),
            },
            Request::Stop => RequestView::Stop,
        }
    }
}

/// How the search engine answered the last request.
#[derive(Debug)]
pub enum Response {
    /// The index was created.
    IndexCreated,
    /// The index was there already; it was left as it is.
    IndexExists,
    /// The index is not there and was not created.
    IndexRefused { cause: String },
    /// The batch was stored.
    BatchAccepted,
    /// The batch was not stored.
    BatchRejected { cause: String },
}

/// What a [`Response`] stands for.
pub enum ResponseView {
    IndexCreated,
    IndexExists,
    IndexRefused { cause: Seq<char> },
    BatchAccepted,
    BatchRejected { cause: Seq<char> },
}

impl View for Response {
    type V = ResponseView;

    open spec fn view(&self) -> ResponseView {
        match *self {
            Response::IndexCreated => ResponseView::IndexCreated,
            Response::IndexExists => ResponseView::IndexExists,
            Response::IndexRefused { cause } => ResponseView::IndexRefused { cause: cause@ },
            Response::BatchAccepted => ResponseView::BatchAccepted,
            Response::BatchRejected { cause } => ResponseView::BatchRejected { cause: cause@ },
        }
    }
}

impl ResponseView {
    /// The answer is one to an index request.
    pub open spec fn about_index(self) -> bool {
        self is IndexCreated || self is IndexExists || self is IndexRefused
    }

    /// The answer is one to a batch.
    pub open spec fn about_batch(self) -> bool {
        self is BatchAccepted || self is BatchRejected
    }
}

/// An answer that does not fit the request that was due.
#[derive(Debug, Clone, Copy, PartialEq, Eq, Structural)]
pub struct Unexpected;

/// How far an upload has come.
pub enum StageView {
    /// The index is to be made sure of.
    Index,
    /// Batch number `batch` is due, after `retries` rejections.
    Batch { batch: nat, retries: nat },
    /// Every batch was accepted.
    Done,
    /// The upload has failed.
    Failed { error: PublishErrorView },
}

/// What a [`Publisher`] stands for.
pub struct PublisherView {
    pub index: Seq<char>,
    pub documents: Seq<DocumentView>,
    pub policy: Policy,
    pub stage: StageView,
}

impl PublisherView {
    /// The upload of `documents` into `index`, before any request.
    pub open spec fn start(index: Seq<char>, documents: Seq<DocumentView>, policy: Policy) -> PublisherView {
        PublisherView { index, documents, policy, stage: StageView::Index }
    }

    /// Number of batches the documents make.
    pub open spec fn batches(self) -> nat {
        batch_count(self.documents.len(), self.policy.batch_size as nat)
    }

    /// The documents of batch number `batch`.
    pub open spec fn batch(self, batch: nat) -> Seq<DocumentView> {
        batch_of(self.documents, self.policy.batch_size as nat, batch)
    }

    /// The stage at which batch number `batch` is due for the first time,
    /// or the end if there is no such batch.
    pub open spec fn stage_at(self, batch: nat) -> StageView {
        if batch < self.batches() {
            StageView::Batch { batch, retries: 0 }
        } else {
            StageView::Done
        }
    }

    /// The request that is due.
    pub open spec fn request(self) -> RequestView {
        match self.stage {
            StageView::Index => RequestView::EnsureIndex { name: self.index },
            StageView::Batch { batch, retries } => RequestView::Submit {
                batch,
                attempt: retries + 1,
                delay_ms: delay_before(self.policy.base_delay_ms, retries),
                documents: self.batch(batch),
            },
            StageView::Done => RequestView::Stop,
            StageView::Failed { .. } => RequestView::Stop,
        }
    }

    /// The answer fits the request that is due.
    pub open spec fn accepts(self, response: ResponseView) -> bool {
        match self.stage {
            StageView::Index => response.about_index(),
            StageView::Batch { .. } => response.about_batch(),
            StageView::Done => false,
            StageView::Failed { .. } => false,
        }
    }

    /// The stage after `response`.
    ///
    /// An index that was created or was there already lets the first batch
    /// go; one that was refused fails the upload. An accepted batch lets the
    /// next one go. A rejected batch is due again, unless its retries are
    /// used up: then the upload fails with the batch's number, its size, the
    /// number of times it was sent and the last cause.
    pub open spec fn stage_after(self, response: ResponseView) -> StageView {
        match (self.stage, response) {
            (StageView::Index, ResponseView::IndexCreated) => self.stage_at(0),
            (StageView::Index, ResponseView::IndexExists) => self.stage_at(0),
            (StageView::Index, ResponseView::IndexRefused { cause }) => StageView::Failed {
                error: PublishErrorView::Index { cause },
            },
            (StageView::Batch { batch, retries }, ResponseView::BatchAccepted) => self.stage_at(
                batch + 1,
            ),
            (StageView::Batch { batch, retries }, ResponseView::BatchRejected { cause }) => {
                if retries < self.policy.max_retries {
                    StageView::Batch { batch, retries: retries + 1 }
                } else {
                    StageView::Failed {
                        error: PublishErrorView::Batch {
                            batch,
                            size: self.batch(batch).len(),
                            attempts: retries + 1,
                            cause,
                        },
                    }
                }
            },
            _ => self.stage,
        }
    }

    /// This upload after `response`; an answer that does not fit changes
    /// nothing.
    pub open spec fn after(self, response: ResponseView) -> PublisherView {
        PublisherView { stage: self.stage_after(response), ..self }
    }

    /// How the upload ended, if it has.
    pub open spec fn outcome(self) -> Option<Result<(), PublishErrorView>> {
        match self.stage {
            StageView::Done => Some(Ok(())),
            StageView::Failed { error } => Some(Err(error)),
            _ => None,
        }
    }

    /// What holds of every upload: its policy is valid; a batch that is due
    /// is one of the batches and has not used more than its retries; a
    /// failed batch is one of the batches, was sent once more than the
    /// policy has retries, and is reported with its own size.
    pub open spec fn valid(self) -> bool {
        &&& self.policy.valid()
        &&& match self.stage {
            StageView::Batch { batch, retries } => {
                &&& batch < self.batches()
                &&& retries <= self.policy.max_retries
            },
            StageView::Failed { error: PublishErrorView::Batch { batch, size, attempts, .. } } => {
                &&& batch < self.batches()
                &&& size == self.batch(batch).len()
                &&& attempts == self.policy.max_retries + 1
            },
            _ => true,
        }
    }
}

#[derive(Debug)]
enum Stage {
    Index,
    Batch { batch: usize, offset: usize, retries: u32, delay_ms: u64 },
    Done,
    Failed { error: PublishError },
}

impl View for Stage {
    type V = StageView;

    closed spec fn view(&self) -> StageView {
        match *self {
            Stage::Index => StageView::Index,
            Stage::Batch { batch, retries, .. } => StageView::Batch {
                batch: batch as nat,
                retries: retries as nat,
            },
            Stage::Done => StageView::Done,
            Stage::Failed { error } => StageView::Failed { error: error@ },
        }
    }
}

/// Plans the upload of a list of documents, request by request.
#[derive(Debug)]
pub struct Publisher {
    index: String,
    documents: Vec<Document>,
    policy: Policy,
    stage: Stage,
}

impl View for Publisher {
    type V = PublisherView;

    closed spec fn view(&self) -> PublisherView {
        PublisherView {
            index: self.index@,
            documents: document_views(self.documents@),
            policy: self.policy,
            stage: self.stage@,
        }
    }
}

impl Publisher {
    /// The publisher stands for a valid upload, and what it has worked out
    /// for the batch that is due is right.
    #[verifier::type_invariant]
    spec fn well_formed(&self) -> bool {
        &&& self@.valid()
        &&& match self.stage {
            Stage::Batch { batch, offset, retries, delay_ms } => {
                &&& offset == batch * self.policy.batch_size
                &&& offset < self.documents.len()
                &&& delay_ms == delay_before(self.policy.base_delay_ms, retries as nat)
            },
            _ => true,
        }
    }

    /// Plans the upload of `documents` into the index `index`.
    ///
    /// There is no upload under a policy with empty batches or without a
    /// retry.
    pub fn new(index: String, documents: Vec<Document>, policy: Policy) -> (made: Option<Publisher>)
        ensures
            made is Some <==> policy.valid(),
            made matches Some(publisher) ==> publisher@.valid() && publisher@
                == PublisherView::start(index@, document_views(documents@), policy),
    {
        if policy.batch_size == 0 || policy.max_retries == 0 {
            return None;
        }
        Some(Publisher { index, documents, policy, stage: Stage::Index })
    }

    /// Plans the upload of a catalog into the index of files: one document
    /// for each entry, folders first.
    pub fn for_catalog(catalog: &Catalog, policy: Policy) -> (made: Option<Publisher>)
        ensures
            made is Some <==> policy.valid(),
            made matches Some(publisher) ==> publisher@.valid() && publisher@
                == PublisherView::start(FILES_INDEX@, DocumentView::of_catalog(catalog@), policy),
    {
        Publisher::new(FILES_INDEX.to_owned(), documents(catalog), policy)
    }

    /// Place after the last document of the batch that starts at `offset`.
    fn end_of_batch(&self, batch: usize, offset: usize) -> (end: usize)
        requires
            self.policy.valid(),
            offset == batch * self.policy.batch_size,
            offset < self.documents.len(),
        ensures
            offset < end <= self.documents.len(),
            end - offset <= self.policy.batch_size,
            batch < self@.batches(),
            batch + 1 <= self.documents.len(),
            offset == batch_start(self@.documents.len(), self.policy.batch_size as nat, batch as nat),
            end == batch_end(self@.documents.len(), self.policy.batch_size as nat, batch as nat),
            end == self.documents.len() <==> batch + 1 == self@.batches(),
            end < self.documents.len() ==> end == (batch + 1) * self.policy.batch_size,
    {
        let len = self.documents.len();
        let size = self.policy.batch_size;
        proof {
            lemma_batch_bounds(len as nat, size as nat, batch as nat);
            assert(batch <= batch * size) by (nonlinear_arith)
                requires
                    size > 0,
                    batch >= 0,
            ;
            assert((batch + 1) * size == batch * size + size) by (nonlinear_arith);
        }
        if len - offset <= size {
            len
        } else {
            offset + size
        }
    }

    /// The stage at which the batch that starts at `offset` is due.
    fn stage_from(&self, batch: usize, offset: usize) -> (stage: Stage)
        requires
            self.policy.valid(),
            offset <= self.documents.len(),
            offset < self.documents.len() ==> offset == batch * self.policy.batch_size,
            offset == self.documents.len() ==> batch == self@.batches(),
        ensures
            stage@ == self@.stage_at(batch as nat),
            stage matches Stage::Batch { batch: b, offset: o, retries, delay_ms } ==> b == batch && o
                == offset && retries == 0 && delay_ms == 0 && offset < self.documents.len(),
            !(stage is Index) && !(stage is Failed),
    {
        if offset < self.documents.len() {
            proof {
                lemma_batch_bounds(
                    self.documents.len() as nat,
                    self.policy.batch_size as nat,
                    batch as nat,
                );
            }
            Stage::Batch { batch, offset, retries: 0, delay_ms: 0 }
        } else {
            Stage::Done
        }
    }

    /// The request that is due.
    ///
    /// A batch is sent without delay the first time, and after the backoff
    /// delay on every retry.
    pub fn request(&self) -> (request: Request)
        ensures
            request@ == self@.request(),
    {
        proof {
            use_type_invariant(self);
        }
        match &self.stage {
            Stage::Index => Request::EnsureIndex { name: self.index.clone() },
            Stage::Batch { batch, offset, retries, delay_ms } => {
                let end = self.end_of_batch(*batch, *offset);
                let mut documents: Vec<Document> = Vec::new();
                let mut i: usize = *offset;
                while i < end
                    invariant
                        *offset <= i <= end <= self.documents.len(),
                        documents.len() == i - *offset,
                        forall|k: int|
                            0 <= k < documents.len() ==> documents@[k]@ == self.documents@[*offset
                                + k]@,
                    decreases end - i,
                {
                    documents.push(self.documents[i].clone());
                    i += 1;
                }
                assert(document_views(documents@) =~= self@.batch(*batch as nat));
                Request::Submit {
                    batch: *batch,
                    attempt: *retries as u64 + 1,
                    delay_ms: *delay_ms,
                    documents,
                }
            },
            Stage::Done => Request::Stop,
            Stage::Failed { .. } => Request::Stop,
        }
    }

    /// Takes the answer to the request that was due.
    ///
    /// An answer that does not fit that request, or any answer once the
    /// upload is over, is refused and changes nothing.
    pub fn respond(&mut self, response: Response) -> (taken: Result<(), Unexpected>)
        ensures
            taken is Ok <==> old(self)@.accepts(response@),
            final(self)@ == old(self)@.after(response@),
            final(self)@.valid(),
    {
        proof {
            use_type_invariant(&*self);
        }
        let next: Option<Stage> = match &self.stage {
            Stage::Index => match response {
                Response::IndexCreated => Some(self.first_stage()),
                Response::IndexExists => Some(self.first_stage()),
                Response::IndexRefused { cause } => Some(
                    Stage::Failed { error: PublishError::Index { cause } },
                ),
                _ => None,
            },
            Stage::Batch { batch, offset, retries, delay_ms } => {
                let end = self.end_of_batch(*batch, *offset);
                match response {
                    Response::BatchAccepted => Some(self.stage_from(*batch + 1, end)),
                    Response::BatchRejected { cause } => {
                        if *retries < self.policy.max_retries {
                            let delay_ms = if *retries == 0 {
                                self.policy.base_delay_ms
                            } else if *delay_ms > u64::MAX / 2 {
                                u64::MAX
                            } else {
                                2 * *delay_ms
                            };
                            Some(
                                Stage::Batch {
                                    batch: *batch,
                                    offset: *offset,
                                    retries: *retries + 1,
                                    delay_ms,
                                },
                            )
                        } else {
                            Some(
                                Stage::Failed {
                                    error: PublishError::Batch {
                                        batch: *batch,
                                        size: end - *offset,
                                        attempts: *retries as u64 + 1,
                                        cause,
                                    },
                                },
                            )
                        }
                    },
                    _ => None,
                }
            },
            _ => None,
        };
        match next {
            Some(stage) => {
                self.stage = stage;
                Ok(())
            },
            None => Err(Unexpected),
        }
    }

    /// The stage at which the first batch is due.
    fn first_stage(&self) -> (stage: Stage)
        requires
            self.policy.valid(),
        ensures
            stage@ == self@.stage_at(0),
            stage matches Stage::Batch { batch, offset, retries, delay_ms } ==> batch == 0 && offset
                == 0 && retries == 0 && delay_ms == 0 && 0 < self.documents.len(),
            !(stage is Index) && !(stage is Failed),
    {
        proof {
            lemma_batch_count_is_ceiling(
                self.documents.len() as nat,
                self.policy.batch_size as nat,
            );
            assert(0 * self.policy.batch_size == 0) by (nonlinear_arith);
        }
        self.stage_from(0, 0)
    }

    /// Whether the upload is over, for better or worse.
    pub fn is_over(&self) -> (over: bool)
        ensures
            over == self@.outcome() is Some,
            self@.valid(),
    {
        proof {
            use_type_invariant(self);
        }
        match &self.stage {
            Stage::Done => true,
            Stage::Failed { .. } => true,
            _ => false,
        }
    }

    /// How the upload ended: `None` while it is under way, `Ok` when every
    /// batch was accepted, and the error when it failed.
    pub fn outcome(&self) -> (outcome: Option<Result<(), PublishError>>)
        ensures
            match outcome {
                None => self@.outcome() is None,
                Some(Ok(_)) => self@.outcome() == Some(Ok::<(), PublishErrorView>(())),
                Some(Err(error)) => self@.outcome() == Some(Err::<(), PublishErrorView>(error@)),
            },
    {
        match &self.stage {
            Stage::Done => Some(Ok(())),
            Stage::Failed { error } => Some(Err(error.clone())),
            _ => None,
        }
    }
}

} // verus!
