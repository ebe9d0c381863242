use crate::block::{api_block_to_block_data, first_occurrences, string_views, transaction_addresses, Block, BlockData};
use crate::store::{commit_block, CorpusModel};
use vstd::prelude::*;

verus! {

/// A failure of the corpus store, with the store's message.
#[derive(Clone, Debug, PartialEq, Eq)]
pub enum RepoError {
    /// No connection could be taken from the pool.
    PoolError(String),
    /// A query or transaction failed.
    DieselError(String),
}

/// A failure to obtain a block, with the underlying message.
#[derive(Clone, Debug, PartialEq, Eq)]
pub enum ClientError {
    /// The node could not be reached or answered with an error status.
    Api(String),
    /// Reading the response failed.
    IoError(String),
    /// The response was not the expected JSON.
    DecodeError(String),
}

/// Why indexing one block failed.
#[derive(Clone, Debug, PartialEq, Eq)]
pub enum IndexerError {
    RepoError(RepoError),
    ClientError(ClientError),
}

/// How indexing one block ended.
#[derive(Clone, Copy, Debug, PartialEq, Eq, Structural)]
pub enum IndexOutcome {
    /// The block's marker was already there; nothing was fetched or written.
    AlreadyIndexed,
    /// The block was fetched and committed; `new_addresses` were not known before.
    Indexed { new_addresses: usize },
}

/// Where the indexing of one block stands.
#[derive(Clone, Copy, Debug, PartialEq, Eq, Structural)]
pub enum IndexPhase {
    AwaitMarker,
    AwaitBlock,
    AwaitCommit,
    Done,
}

/// What the store or the block source answered.
#[derive(Debug)]
pub enum IndexEvent {
    /// Whether the block's marker exists.
    MarkerChecked(Result<bool, RepoError>),
    /// The block with its transactions.
    BlockFetched(Result<Block, ClientError>),
    /// The commit of the block's marker and addresses, with the number of new addresses.
    Committed(Result<usize, RepoError>),
}

/// What to do next.
#[derive(Debug)]
pub enum IndexAction {
    /// Ask the store whether the block's marker exists.
    CheckMarker(u64),
    /// Fetch the block from the block source.
    FetchBlock(u64),
    /// Commit the marker and the addresses in one transaction.
    Commit(BlockData),
    /// Indexing of this block is over.
    Finish(Result<IndexOutcome, IndexerError>),
}

/// An action with its block data seen as height and address texts.
pub enum IndexActionView {
    CheckMarker(u64),
    FetchBlock(u64),
    Commit(u64, Seq<Seq<char>>),
    Finish(Result<IndexOutcome, IndexerError>),
}

impl View for IndexAction {
    type V = IndexActionView;

    open spec fn view(&self) -> IndexActionView {
        match self {
            IndexAction::CheckMarker(h) => IndexActionView::CheckMarker(*h),
            IndexAction::FetchBlock(h) => IndexActionView::FetchBlock(*h),
            IndexAction::Commit(d) => IndexActionView::Commit(d.block_number, string_views(d.addresses@)),
            IndexAction::Finish(r) => IndexActionView::Finish(*r),
        }
    }
}

/// Whether a phase waits for this kind of answer.
pub open spec fn accepts(phase: IndexPhase, event: IndexEvent) -> bool {
    match (phase, event) {
        (IndexPhase::AwaitMarker, IndexEvent::MarkerChecked(_)) => true,
        (IndexPhase::AwaitBlock, IndexEvent::BlockFetched(_)) => true,
        (IndexPhase::AwaitCommit, IndexEvent::Committed(_)) => true,
        _ => false,
    }
}

/// One step of indexing block `height`: the next phase and the action. An
/// existing marker ends the job at once; otherwise the block is fetched, its
/// indexed addresses extracted (each once) and committed with the marker. Any
/// failure ends the job with the error and no further action.
pub open spec fn index_step(height: u64, phase: IndexPhase, event: IndexEvent) -> (IndexPhase, IndexActionView) {
    match event {
        IndexEvent::MarkerChecked(Ok(true)) => (
            IndexPhase::Done,
            IndexActionView::Finish(Ok(IndexOutcome::AlreadyIndexed)),
        ),
        IndexEvent::MarkerChecked(Ok(false)) => (IndexPhase::AwaitBlock, IndexActionView::FetchBlock(height)),
        IndexEvent::MarkerChecked(Err(e)) => (
            IndexPhase::Done,
            IndexActionView::Finish(Err(IndexerError::RepoError(e))),
        ),
        IndexEvent::BlockFetched(Ok(block)) => (
            IndexPhase::AwaitCommit,
            IndexActionView::Commit(height, first_occurrences(transaction_addresses(block.tx@))),
        ),
        IndexEvent::BlockFetched(Err(e)) => (
            IndexPhase::Done,
            IndexActionView::Finish(Err(IndexerError::ClientError(e))),
        ),
        IndexEvent::Committed(Ok(n)) => (
            IndexPhase::Done,
            IndexActionView::Finish(Ok(IndexOutcome::Indexed { new_addresses: n })),
        ),
        IndexEvent::Committed(Err(e)) => (
            IndexPhase::Done,
            IndexActionView::Finish(Err(IndexerError::RepoError(e))),
        ),
    }
}

/// The indexing of one block height, driven by the answers of the store and
/// the block source.
pub struct IndexJob {
    pub height: u64,
    pub phase: IndexPhase,
}

impl IndexJob {
    /// Starts indexing `height`: the first action asks for its marker.
    pub fn new(height: u64) -> (r: (IndexJob, IndexAction))
        ensures
            r.0.height == height,
            r.0.phase == IndexPhase::AwaitMarker,
            r.1@ == IndexActionView::CheckMarker(height),
    {
        (IndexJob { height, phase: IndexPhase::AwaitMarker }, IndexAction::CheckMarker(height))
    }

    /// Takes the answer to the last action and returns the next one.
    pub fn step(&mut self, event: IndexEvent) -> (r: IndexAction)
        requires
            accepts(old(self).phase, event),
        ensures
            final(self).height == old(self).height,
            (final(self).phase, r@) == index_step(old(self).height, old(self).phase, event),
    {
        match event {
            IndexEvent::MarkerChecked(Ok(true)) => {
                self.phase = IndexPhase::Done;
                IndexAction::Finish(Ok(IndexOutcome::AlreadyIndexed))
            },
            IndexEvent::MarkerChecked(Ok(false)) => {
                self.phase = IndexPhase::AwaitBlock;
                IndexAction::FetchBlock(self.height)
            },
            IndexEvent::MarkerChecked(Err(e)) => {
                self.phase = IndexPhase::Done;
                IndexAction::Finish(Err(IndexerError::RepoError(e)))
            },
            IndexEvent::BlockFetched(Ok(block)) => {
                self.phase = IndexPhase::AwaitCommit;
                IndexAction::Commit(api_block_to_block_data(block, self.height))
            },
            IndexEvent::BlockFetched(Err(e)) => {
                self.phase = IndexPhase::Done;
                IndexAction::Finish(Err(IndexerError::ClientError(e)))
            },
            IndexEvent::Committed(Ok(n)) => {
                self.phase = IndexPhase::Done;
                IndexAction::Finish(Ok(IndexOutcome::Indexed { new_addresses: n }))
            },
            IndexEvent::Committed(Err(e)) => {
                self.phase = IndexPhase::Done;
                IndexAction::Finish(Err(IndexerError::RepoError(e)))
            },
        }
    }
}

/// One indexing of a block against a store: the store afterwards, how many
/// fetches and commits were made, and the result.
pub struct IndexRun {
    pub store: CorpusModel,
    pub fetches: nat,
    pub commits: nat,
    pub result: Result<IndexOutcome, IndexerError>,
}

/// Indexing `height` against a store that answers from `m` and applies
/// commits to it, with a block source that returns `block`.
pub open spec fn index_run(m: CorpusModel, height: u64, block: Block) -> IndexRun {
    let (after_marker, a1) = index_step(height, IndexPhase::AwaitMarker, IndexEvent::MarkerChecked(Ok(m.blocks.contains(height))));
    match a1 {
        IndexActionView::FetchBlock(_) => {
            let (after_fetch, a2) = index_step(height, after_marker, IndexEvent::BlockFetched(Ok(block)));
            match a2 {
                IndexActionView::Commit(h, addresses) => {
                    let stored = commit_block(m, h, addresses);
                    let added = addresses.to_set().difference(m.addresses).len();
                    let (_after_commit, a3) = index_step(height, after_fetch, IndexEvent::Committed(Ok(added as usize)));
                    match a3 {
                        IndexActionView::Finish(r) => IndexRun { store: stored, fetches: 1, commits: 1, result: r },
                        _ => arbitrary(),
                    }
                },
                _ => arbitrary(),
            }
        },
        IndexActionView::Finish(r) => IndexRun { store: m, fetches: 0, commits: 0, result: r },
        _ => arbitrary(),
    }
}

/// Indexing a height twice in a row fetches and commits once. The first run,
/// on a store without the block's marker, fetches the block and commits its
/// marker and addresses; the second finds the marker and ends with
/// `AlreadyIndexed`, fetching and committing nothing and leaving the store as
/// the first run left it.
pub proof fn lemma_index_twice(m: CorpusModel, height: u64, block: Block)
    requires
        !m.blocks.contains(height),
    ensures
        ({
            let first = index_run(m, height, block);
            let second = index_run(first.store, height, block);
            &&& first.fetches == 1 && first.commits == 1
            &&& first.result is Ok
            &&& first.store.blocks.contains(height)
            &&& second.fetches == 0 && second.commits == 0
            &&& second.store == first.store
            &&& second.result == Ok::<IndexOutcome, IndexerError>(IndexOutcome::AlreadyIndexed)
        }),
{
}

} // verus!
