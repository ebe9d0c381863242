pub mod addresses;
pub mod block;
pub mod checker;
pub mod combination;
pub mod indexer;
pub mod mnemonic;
pub mod path;
pub mod store;

pub use addresses::{Address, AddressGenerator, DerivationError};
pub use block::{api_block_to_block_data, AddressKind, Block, BlockData, Output, ScriptPubKey, Transaction};
pub use checker::{check_address, AddressCheck, CheckAction, CheckEvent, CheckPhase, CheckerError};
pub use combination::{check_combination_size, combination_mnemonics, CombinationError, CombinationSweep};
pub use indexer::{ClientError, IndexAction, IndexEvent, IndexJob, IndexOutcome, IndexPhase, IndexerError, RepoError};
pub use mnemonic::{normalize_phrase, Mnemonic, MnemonicError, MnemonicGenerator};
pub use path::{parse_derivation_paths, DerivationPath, PathError, ScriptKind};
pub use store::{FoundAddress, MemoryRepo};
