//! The backfill job: giving an embedding to every chunk that has none.
//!
//! The job hands out one chunk at a time. Its caller asks the provider for
//! the embedding, writes it to the store and reports how that went. A
//! chunk that fails is noted and the job goes on with the next one.

use vstd::prelude::*;
use crate::error::{ProviderFailure, RagError};
use crate::ingest::{Chunk, ChunkModel};
use crate::provider::{embedding_model, embedding_request, EmbeddingRequest};

verus! {

/// A chunk that waits for its embedding.
#[derive(Debug, PartialEq, Eq)]
pub struct PendingChunk {
    pub chunk_id: String,
    pub patent_id: String,
    pub text: String,
}

/// The mathematical content of a `PendingChunk`.
pub struct PendingModel {
    pub chunk_id: Seq<char>,
    pub patent_id: Seq<char>,
    pub text: Seq<char>,
}

impl View for PendingChunk {
    type V = PendingModel;

    open spec fn view(&self) -> PendingModel {
        PendingModel { chunk_id: self.chunk_id@, patent_id: self.patent_id@, text: self.text@ }
    }
}

/// How the work on one chunk ended.
#[derive(Clone, Copy, Debug, PartialEq, Eq, Structural)]
pub enum ItemOutcome {
    /// The embedding was made and written to the store.
    Embedded,
    /// The provider gave no embedding.
    ProviderFailed(ProviderFailure),
    /// The store did not take the embedding.
    StoreFailed,
}

/// The next piece of work of a job: the chunk to embed and the request to
/// put to the provider for it.
#[derive(Debug, PartialEq, Eq)]
pub struct BackfillItem {
    pub chunk_id: String,
    pub request: EmbeddingRequest,
}

/// A chunk that the job could not embed, and why.
#[derive(Debug, PartialEq, Eq)]
pub struct FailedItem {
    pub chunk_id: String,
    pub error: RagError,
}

/// The mathematical content of a `FailedItem`.
pub struct FailedModel {
    pub chunk_id: Seq<char>,
    pub error: RagError,
}

impl View for FailedItem {
    type V = FailedModel;

    open spec fn view(&self) -> FailedModel {
        FailedModel { chunk_id: self.chunk_id@, error: self.error }
    }
}

/// What a job did.
#[derive(Debug, PartialEq, Eq)]
pub struct BackfillReport {
    /// The number of chunks worked on.
    pub attempted: usize,
    /// The number of chunks that now have an embedding.
    pub embedded: usize,
    /// The chunks that still have none, in the order in which they were
    /// worked on.
    pub failed: Vec<FailedItem>,
}

impl BackfillReport {
    /// How the job ended as a whole: well where no chunk failed, else with
    /// the error of the first chunk that failed.
    pub fn outcome(&self) -> (outcome: Result<(), RagError>)
        ensures
            self.failed@.len() == 0 ==> outcome == Ok::<(), RagError>(()),
            self.failed@.len() > 0 ==> outcome == Err::<(), RagError>(self.failed@[0].error),
    {
        if self.failed.len() == 0 {
            Ok(())
        } else {
            Err(self.failed[0].error)
        }
    }
}

/// The contents of a vector of chunks.
pub open spec fn chunk_models(chunks: Seq<Chunk>) -> Seq<ChunkModel> {
    chunks.map_values(|c: Chunk| c@)
}

/// The contents of a vector of pending chunks.
pub open spec fn pending_models(pending: Seq<PendingChunk>) -> Seq<PendingModel> {
    pending.map_values(|p: PendingChunk| p@)
}

/// The contents of a vector of failed items.
pub open spec fn failed_models(failed: Seq<FailedItem>) -> Seq<FailedModel> {
    failed.map_values(|f: FailedItem| f@)
}

/// The chunks of `chunks` that have no embedding, in order.
pub open spec fn unembedded(chunks: Seq<ChunkModel>) -> Seq<PendingModel>
    decreases chunks.len(),
{
    if chunks.len() == 0 {
        Seq::empty()
    } else {
        let init = unembedded(chunks.drop_last());
        let c = chunks.last();
        if c.embedding is None {
            init.push(PendingModel { chunk_id: c.chunk_id, patent_id: c.patent_id, text: c.text })
        } else {
            init
        }
    }
}

/// The error that an outcome stands for; `None` for a success.
pub open spec fn outcome_error(outcome: ItemOutcome) -> Option<RagError> {
    match outcome {
        ItemOutcome::Embedded => None,
        ItemOutcome::ProviderFailed(failure) => Some(RagError::Provider(failure)),
        ItemOutcome::StoreFailed => Some(RagError::Persistence),
    }
}

/// How many of `outcomes` are successes.
pub open spec fn embedded_count(outcomes: Seq<ItemOutcome>) -> nat
    decreases outcomes.len(),
{
    if outcomes.len() == 0 {
        0
    } else {
        embedded_count(outcomes.drop_last()) + if outcomes.last() is Embedded {
            1nat
        } else {
            0nat
        }
    }
}

/// The chunks whose outcome is a failure, each with its error, in order.
/// `outcomes[i]` is the outcome of `pending[i]`.
pub open spec fn failures(pending: Seq<PendingModel>, outcomes: Seq<ItemOutcome>) -> Seq<
    FailedModel,
>
    recommends
        outcomes.len() <= pending.len(),
    decreases outcomes.len(),
{
    if outcomes.len() == 0 {
        Seq::empty()
    } else {
        let init = failures(pending, outcomes.drop_last());
        match outcome_error(outcomes.last()) {
            Some(error) => init.push(
                FailedModel { chunk_id: pending[outcomes.len() - 1].chunk_id, error },
            ),
            None => init,
        }
    }
}

/// Every outcome is counted once, as a success or as a failure: whatever
/// failed, the report accounts for every chunk worked on.
pub proof fn lemma_every_outcome_counted(pending: Seq<PendingModel>, outcomes: Seq<ItemOutcome>)
    ensures
        embedded_count(outcomes) + failures(pending, outcomes).len() == outcomes.len(),
    decreases outcomes.len(),
{
    if outcomes.len() > 0 {
        lemma_every_outcome_counted(pending, outcomes.drop_last());
    }
}

/// A chunk that has an embedding is never handed to a job: every pending
/// chunk is a chunk without one.
pub proof fn lemma_unembedded_only(chunks: Seq<ChunkModel>, k: int) -> (j: int)
    requires
        0 <= k < unembedded(chunks).len(),
    ensures
        0 <= j < chunks.len(),
        chunks[j].embedding is None,
        unembedded(chunks)[k].chunk_id == chunks[j].chunk_id,
        unembedded(chunks)[k].text == chunks[j].text,
    decreases chunks.len(),
{
    let init = chunks.drop_last();
    if chunks.last().embedding is None && k == unembedded(init).len() {
        chunks.len() - 1
    } else {
        lemma_unembedded_only(init, k)
    }
}

/// The chunks of `chunks` that have no embedding yet, in order.
pub fn pending_chunks(chunks: &Vec<Chunk>) -> (pending: Vec<PendingChunk>)
    ensures
        pending_models(pending@) == unembedded(chunk_models(chunks@)),
{
    let mut pending: Vec<PendingChunk> = Vec::new();
    let ghost models = chunk_models(chunks@);
    let mut i: usize = 0;
    assert(models.take(0).len() == 0);
    while i < chunks.len()
        invariant
            i <= chunks.len(),
            models == chunk_models(chunks@),
            pending_models(pending@) == unembedded(models.take(i as int)),
        decreases chunks.len() - i,
    {
        let chunk = &chunks[i];
        proof {
            assert(models.take(i + 1).drop_last() == models.take(i as int));
            assert(models.take(i + 1).last() == chunk@);
        }
        if chunk.embedding.is_none() {
            let item = PendingChunk {
                chunk_id: chunk.chunk_id.clone(),
                patent_id: chunk.patent_id.clone(),
                text: chunk.text.clone(),
            };
            assert(pending_models(pending@.push(item)) == pending_models(pending@).push(item@));
            pending.push(item);
        }
        i += 1;
    }
    assert(models.take(models.len() as int) == models);
    pending
}

/// A backfill job: the chunks to embed and the outcomes reported so far,
/// one for each chunk already worked on.
pub struct BackfillJob {
    pending: Vec<PendingChunk>,
    outcomes: Vec<ItemOutcome>,
}

impl BackfillJob {
    /// No more outcomes than chunks. Every job that `new` made and
    /// `record` changed is well formed.
    pub closed spec fn wf(self) -> bool {
        self.outcomes@.len() <= self.pending@.len()
    }

    /// The chunks of the job, in the order in which they are worked on.
    pub closed spec fn pending(self) -> Seq<PendingModel> {
        pending_models(self.pending@)
    }

    /// The outcomes reported so far: `outcomes()[i]` is that of
    /// `pending()[i]`.
    pub closed spec fn outcomes(self) -> Seq<ItemOutcome> {
        self.outcomes@
    }

    /// A job over `pending` with nothing worked on yet.
    pub fn new(pending: Vec<PendingChunk>) -> (job: BackfillJob)
        ensures
            job.wf(),
            job.pending() == pending_models(pending@),
            job.outcomes().len() == 0,
    {
        BackfillJob { pending, outcomes: Vec::new() }
    }

    /// Whether every chunk has been worked on.
    pub fn is_finished(&self) -> (finished: bool)
        requires
            self.wf(),
        ensures
            finished == (self.outcomes().len() == self.pending().len()),
            self.outcomes().len() <= self.pending().len(),
    {
        self.outcomes.len() == self.pending.len()
    }

    /// The next text to embed: that of the first chunk without an outcome,
    /// for the fixed embedding model. `None` once every chunk has one.
    pub fn next_request(&self) -> (request: Option<BackfillItem>)
        requires
            self.wf(),
        ensures
            self.outcomes().len() <= self.pending().len(),
            request is None <==> self.outcomes().len() == self.pending().len(),
            request is Some ==> {
                let item = self.pending()[self.outcomes().len() as int];
                &&& request->0.chunk_id@ == item.chunk_id
                &&& request->0.request.input@ == item.text
                &&& request->0.request.model@ == embedding_model()
            },
    {
        let at = self.outcomes.len();
        if at < self.pending.len() {
            let item = &self.pending[at];
            assert(self.pending()[at as int] == item@);
            Some(
                BackfillItem {
                    chunk_id: item.chunk_id.clone(),
                    request: embedding_request(item.text.as_str()),
                },
            )
        } else {
            None
        }
    }

    /// Notes the outcome of the chunk that `next_request` named and moves on
    /// to the next chunk, whether the outcome is a success or a failure. On
    /// a finished job it changes nothing.
    pub fn record(&mut self, outcome: ItemOutcome)
        requires
            old(self).wf(),
        ensures
            final(self).wf(),
            final(self).pending() == old(self).pending(),
            final(self).outcomes() == if old(self).outcomes().len() < old(self).pending().len() {
                old(self).outcomes().push(outcome)
            } else {
                old(self).outcomes()
            },
    {
        if self.outcomes.len() < self.pending.len() {
            self.outcomes.push(outcome);
        }
    }

    /// What the job has done so far: how many chunks were worked on, how
    /// many of them were embedded, and which failed with which error.
    pub fn report(&self) -> (report: BackfillReport)
        requires
            self.wf(),
        ensures
            report.attempted == self.outcomes().len(),
            report.embedded == embedded_count(self.outcomes()),
            failed_models(report.failed@) == failures(self.pending(), self.outcomes()),
    {
        let mut embedded: usize = 0;
        let mut failed: Vec<FailedItem> = Vec::new();
        let ghost pending = self.pending();
        let ghost outcomes = self.outcomes@;
        let mut i: usize = 0;
        assert(outcomes.take(0).len() == 0);
        while i < self.outcomes.len()
            invariant
                i <= self.outcomes.len() <= self.pending.len(),
                pending == pending_models(self.pending@),
                outcomes == self.outcomes@,
                embedded == embedded_count(outcomes.take(i as int)),
                embedded <= i,
                failed_models(failed@) == failures(pending, outcomes.take(i as int)),
            decreases self.outcomes.len() - i,
        {
            proof {
                assert(outcomes.take(i + 1).drop_last() == outcomes.take(i as int));
                assert(outcomes.take(i + 1).last() == outcomes[i as int]);
                assert(pending[i as int] == self.pending@[i as int]@);
            }
            match self.outcomes[i] {
                ItemOutcome::Embedded => {
                    embedded += 1;
                },
                ItemOutcome::ProviderFailed(failure) => {
                    let item = FailedItem {
                        chunk_id: self.pending[i].chunk_id.clone(),
                        error: RagError::Provider(failure),
                    };
                    assert(failed_models(failed@.push(item)) == failed_models(failed@).push(item@));
                    failed.push(item);
                },
                ItemOutcome::StoreFailed => {
                    let item = FailedItem {
                        chunk_id: self.pending[i].chunk_id.clone(),
                        error: RagError::Persistence,
                    };
                    assert(failed_models(failed@.push(item)) == failed_models(failed@).push(item@));
                    failed.push(item);
                },
            }
            i += 1;
        }
        assert(outcomes.take(outcomes.len() as int) == outcomes);
        BackfillReport { attempted: self.outcomes.len(), embedded, failed }
    }
}

} // verus!
