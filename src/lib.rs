use vstd::prelude::*;

pub mod apply;
pub mod balances;
pub mod block;
pub mod codec;
pub mod error;
pub mod fs;
pub mod genesis;
pub mod state;
pub mod tx;

pub use balances::Balances;
pub use block::{Block, BlockFS, BlockHeader};
pub use error::LedgerError;
pub use fs::{get_blocks_db_file_path, get_database_dir_path, get_genesis_json_file_path};
pub use genesis::{Genesis, GenesisJson};
pub use state::State;
pub use tx::{new_account, Account, Tx};

verus! {

} // verus!
