//! Startup resolution: register the chain exactly once, and compute the
//! height ingestion resumes from after a restart.

use vstd::prelude::*;
use crate::config::ChainConfig;
use crate::errors::{Error, StorageError};
use crate::models::{Chain, NewChain};
use crate::storage::{has_block_for, has_chain, is_max_height, spec_chain_row, PersistenceStorage};

verus! {

/// The chain registration row the bootstrap creates when the chain id is
/// absent.
pub open spec fn spec_new_chain_row(cfg: ChainConfig, id: i32, now: i64) -> Chain {
    spec_chain_row(
        NewChain { chain_id: cfg.chain_id, chain_name: cfg.chain_name, inserted_at: now },
        id,
    )
}

/// Loads the chain registration for the configured chain id, creating it
/// if it does not exist yet. Afterwards the store holds exactly one row
/// with that chain id — a second bootstrap finds the first one's row and
/// changes nothing.
pub fn load_chain_or_store(
    storage: &mut PersistenceStorage,
    chain_config: &ChainConfig,
    now: i64,
) -> (r: Result<Chain, Error>)
    requires
        old(storage).wf(),
        old(storage).spec_next_chain_id() < i32::MAX,
    ensures
        final(storage).wf(),
        r is Ok,
        r.unwrap().chain_id@ == chain_config.chain_id@,
        has_chain(final(storage).chains(), chain_config.chain_id),
        exists|i: int|
            0 <= i < final(storage).chains().len() && #[trigger] final(storage).chains()[i]
                == r.unwrap(),
        has_chain(old(storage).chains(), chain_config.chain_id) ==> *final(storage) == *old(
            storage,
        ),
        !has_chain(old(storage).chains(), chain_config.chain_id) ==> {
            &&& final(storage).chains() == old(storage).chains().push(
                spec_new_chain_row(*chain_config, old(storage).spec_next_chain_id(), now),
            )
            &&& final(storage).spec_next_chain_id() == old(storage).spec_next_chain_id() + 1
            &&& r.unwrap() == spec_new_chain_row(
                *chain_config,
                old(storage).spec_next_chain_id(),
                now,
            )
        },
        final(storage).blocks() == old(storage).blocks(),
        final(storage).transactions() == old(storage).transactions(),
        final(storage).messages() == old(storage).messages(),
        final(storage).events() == old(storage).events(),
{
    match storage.find_by_chain_id(&chain_config.chain_id) {
        Ok(chain) => Ok(chain),
        Err(StorageError::NotFound) => {
            let new_chain = NewChain {
                chain_id: chain_config.chain_id.clone(),
                chain_name: chain_config.chain_name.clone(),
                inserted_at: now,
            };
            match storage.insert_chain(&new_chain) {
                Ok(new_chain_id) => {
                    let row = Chain {
                        id: new_chain_id,
                        chain_id: chain_config.chain_id.clone(),
                        chain_name: chain_config.chain_name.clone(),
                        icon_url: None,
                        website: None,
                        inserted_at: now,
                        updated_at: None,
                    };
                    proof {
                        let s = storage.chains();
                        assert(s[s.len() - 1] == row);
                        assert(has_chain(s, chain_config.chain_id)) by {
                            assert(s[s.len() - 1].chain_id@ == chain_config.chain_id@);
                        }
                    }
                    Ok(row)
                },
                Err(_) => {
                    // the id was checked absent just above, so the insert
                    // cannot conflict
                    proof {
                        assert(false);
                    }
                    Err(Error::DBError(StorageError::ConstraintViolation))
                },
            }
        },
        Err(e) => Err(Error::DBError(e)),
    }
}

/// Registers the chain if it is absent; the store ends with exactly one
/// row for the configured chain id either way, so a second call changes
/// nothing.
pub fn insert_chain_config(
    storage: &mut PersistenceStorage,
    chain_config: &ChainConfig,
    now: i64,
) -> (r: Result<(), Error>)
    requires
        old(storage).wf(),
        old(storage).spec_next_chain_id() < i32::MAX,
    ensures
        final(storage).wf(),
        r is Ok,
        has_chain(final(storage).chains(), chain_config.chain_id),
        has_chain(old(storage).chains(), chain_config.chain_id) ==> *final(storage) == *old(
            storage,
        ),
        !has_chain(old(storage).chains(), chain_config.chain_id) ==> {
            &&& final(storage).chains() == old(storage).chains().push(
                spec_new_chain_row(*chain_config, old(storage).spec_next_chain_id(), now),
            )
            &&& final(storage).spec_next_chain_id() == old(storage).spec_next_chain_id() + 1
        },
        final(storage).blocks() == old(storage).blocks(),
        final(storage).transactions() == old(storage).transactions(),
        final(storage).messages() == old(storage).messages(),
        final(storage).events() == old(storage).events(),
{
    match load_chain_or_store(storage, chain_config, now) {
        Ok(_) => Ok(()),
        Err(e) => Err(e),
    }
}

/// The greatest committed height of the chain, if it has any block rows.
pub fn load_latest_block_height(storage: &PersistenceStorage, chain: &Chain) -> (r: Option<i64>)
    requires
        storage.wf(),
    ensures
        r is Some <==> has_block_for(storage.blocks(), chain.id),
        r is Some ==> is_max_height(storage.blocks(), chain.id, r.unwrap()),
        r is Some ==> 1 <= r.unwrap() < i64::MAX,
{
    match storage.latest_block_height(chain.id) {
        Ok(height) => Some(height),
        Err(_) => None,
    }
}

/// The height ingestion resumes from: one past the last committed height
/// when the store holds one, else the configured start height.
pub fn resume_height(latest: Option<i64>, start_block: i64) -> (r: i64)
    requires
        latest is Some ==> latest.unwrap() < i64::MAX,
    ensures
        latest is Some ==> r == latest.unwrap() + 1,
        latest is None ==> r == start_block,
{
    match latest {
        Some(height) => height + 1,
        None => start_block,
    }
}

/// The height ingestion starts from: one past the chain's greatest
/// committed height when resumption is asked for and the store has one,
/// else the configured start height.
pub fn get_start_block(
    storage: &PersistenceStorage,
    chain: &Chain,
    start_block: i64,
    try_resume_from_db: bool,
) -> (r: i64)
    requires
        storage.wf(),
    ensures
        !try_resume_from_db ==> r == start_block,
        try_resume_from_db && !has_block_for(storage.blocks(), chain.id) ==> r == start_block,
        try_resume_from_db && has_block_for(storage.blocks(), chain.id) ==> 2 <= r
            && is_max_height(storage.blocks(), chain.id, (r - 1) as i64),
{
    if try_resume_from_db {
        match load_latest_block_height(storage, chain) {
            Some(height) => height + 1,
            None => start_block,
        }
    } else {
        start_block
    }
}

} // verus!
