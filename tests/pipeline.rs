use foogold::{
    api_block_to_block_data, check_address, AddressGenerator, AddressKind, Block, BlockData, CheckAction, CheckEvent,
    CheckerError, ClientError, DerivationPath, FoundAddress, IndexAction, IndexEvent, IndexJob, IndexOutcome,
    IndexerError, MemoryRepo, Mnemonic, Output, RepoError, ScriptPubKey, Transaction,
};

fn output(kind: AddressKind, address: Option<&str>) -> Output {
    Output { script_pub_key: ScriptPubKey { address: address.map(String::from), kind } }
}

fn block(txs: Vec<Vec<Output>>) -> Block {
    Block { tx: txs.into_iter().map(|vout| Transaction { vout }).collect() }
}

fn found(address: &str) -> FoundAddress {
    FoundAddress {
        address: address.to_string(),
        derivation_path: "m/84'/0'/0'/0/0".to_string(),
        mnemonic: "abandon about".to_string(),
    }
}

#[test]
fn multisig_output_contributes_no_address() {
    let b = block(vec![vec![
        output(AddressKind::WitnessV0Keyhash, Some("bc1qwitness")),
        output(AddressKind::Multisig, Some("multisig-address")),
    ]]);
    let data = api_block_to_block_data(b, 7);
    assert_eq!(data.block_number, 7);
    assert_eq!(data.addresses, vec!["bc1qwitness".to_string()]);
}

#[test]
fn extraction_keeps_three_kinds_once_each_in_order() {
    let b = block(vec![
        vec![
            output(AddressKind::PubKeyHash, Some("1first")),
            output(AddressKind::Nulldata, None),
            output(AddressKind::PubKey, Some("bare-pubkey")),
            output(AddressKind::ScriptHash, Some("3second")),
        ],
        vec![
            output(AddressKind::WitnessUnknown, Some("unknown")),
            output(AddressKind::WitnessV0Scripthash, Some("bc1qscript")),
            output(AddressKind::Witnessv1Taproot, Some("bc1ptaproot")),
            output(AddressKind::Nonstandard, Some("odd")),
            output(AddressKind::PubKeyHash, Some("1first")),
            output(AddressKind::WitnessV0Keyhash, Some("bc1qthird")),
            output(AddressKind::PubKeyHash, None),
        ],
    ]);
    let data = api_block_to_block_data(b, 1);
    assert_eq!(data.addresses, vec!["1first".to_string(), "3second".to_string(), "bc1qthird".to_string()]);
}

#[test]
fn empty_block_has_no_addresses() {
    assert!(api_block_to_block_data(block(vec![]), 0).addresses.is_empty());
    assert!(api_block_to_block_data(block(vec![vec![]]), 0).addresses.is_empty());
}

#[test]
fn found_address_recorded_once() {
    let mut repo = MemoryRepo::new();
    assert_eq!(repo.insert_found_address(found("bc1qa")), 1);
    assert_eq!(repo.insert_found_address(found("bc1qa")), 0);
    let mut other_path = found("bc1qa");
    other_path.derivation_path = "m/84'/0'/0'/0/1".to_string();
    assert_eq!(repo.insert_found_address(other_path), 1);
}

#[test]
fn committed_addresses_exist_right_after_commit() {
    let mut repo = MemoryRepo::new();
    assert!(!repo.address_exists("1abc"));
    assert!(!repo.block_exists(5));
    let data = BlockData { block_number: 5, addresses: vec!["1abc".to_string(), "3def".to_string()] };
    assert_eq!(repo.insert_block_data(&data), Some(2));
    assert!(repo.address_exists("1abc"));
    assert!(repo.address_exists("3def"));
    assert!(repo.block_exists(5));
    let next = BlockData { block_number: 6, addresses: vec!["3def".to_string(), "bc1qnew".to_string()] };
    assert_eq!(repo.insert_block_data(&next), Some(1));
    assert_eq!(repo.insert_block_data(&next), None);
    assert!(repo.address_exists("bc1qnew"));
}

/// Runs one indexing job against the in-memory store; `source` answers fetches.
fn index_block(repo: &mut MemoryRepo, height: u64, source: &dyn Fn(u64) -> Result<Block, ClientError>) -> (Result<IndexOutcome, IndexerError>, usize, usize) {
    let (mut job, mut action) = IndexJob::new(height);
    let (mut fetches, mut commits) = (0, 0);
    loop {
        let event = match action {
            IndexAction::CheckMarker(h) => IndexEvent::MarkerChecked(Ok(repo.block_exists(h))),
            IndexAction::FetchBlock(h) => {
                fetches += 1;
                IndexEvent::BlockFetched(source(h))
            },
            IndexAction::Commit(data) => {
                commits += 1;
                IndexEvent::Committed(Ok(repo.insert_block_data(&data).unwrap()))
            },
            IndexAction::Finish(r) => return (r, fetches, commits),
        };
        action = job.step(event);
    }
}

fn source(_height: u64) -> Result<Block, ClientError> {
    Ok(block(vec![vec![
        output(AddressKind::PubKeyHash, Some("1abc")),
        output(AddressKind::PubKeyHash, Some("1abc")),
        output(AddressKind::ScriptHash, Some("3def")),
    ]]))
}

#[test]
fn indexing_twice_fetches_and_commits_once() {
    let mut repo = MemoryRepo::new();
    let first = index_block(&mut repo, 100, &source);
    assert_eq!(first, (Ok(IndexOutcome::Indexed { new_addresses: 2 }), 1, 1));
    let second = index_block(&mut repo, 100, &source);
    assert_eq!(second, (Ok(IndexOutcome::AlreadyIndexed), 0, 0));
    assert!(repo.address_exists("3def"));
}

#[test]
fn fetch_failure_aborts_only_that_block() {
    let mut repo = MemoryRepo::new();
    let failing = |_h: u64| -> Result<Block, ClientError> { Err(ClientError::DecodeError("bad json".to_string())) };
    let r = index_block(&mut repo, 3, &failing);
    assert_eq!(r, (Err(IndexerError::ClientError(ClientError::DecodeError("bad json".to_string()))), 1, 0));
    assert!(!repo.block_exists(3));
    let r = index_block(&mut repo, 4, &source);
    assert_eq!(r.0, Ok(IndexOutcome::Indexed { new_addresses: 2 }));
}

#[test]
fn store_failures_end_the_job_with_repo_error() {
    let (mut job, _) = IndexJob::new(9);
    match job.step(IndexEvent::MarkerChecked(Err(RepoError::PoolError("timeout".to_string())))) {
        IndexAction::Finish(Err(IndexerError::RepoError(RepoError::PoolError(m)))) => assert_eq!(m, "timeout"),
        other => panic!("unexpected {other:?}"),
    }
    let (mut job, _) = IndexJob::new(9);
    assert!(matches!(job.step(IndexEvent::MarkerChecked(Ok(false))), IndexAction::FetchBlock(9)));
    assert!(matches!(job.step(IndexEvent::BlockFetched(source(9))), IndexAction::Commit(_)));
    match job.step(IndexEvent::Committed(Err(RepoError::DieselError("conflict".to_string())))) {
        IndexAction::Finish(Err(IndexerError::RepoError(RepoError::DieselError(m)))) => assert_eq!(m, "conflict"),
        other => panic!("unexpected {other:?}"),
    }
}

fn derived() -> foogold::Address {
    let g = AddressGenerator::new(vec![DerivationPath::parse("m/84'/0'/0'/0/0").unwrap()]).unwrap();
    let m = Mnemonic::parse_normalized(
        "abandon abandon abandon abandon abandon abandon abandon abandon abandon abandon abandon about",
    )
    .unwrap();
    g.generate(m).unwrap().remove(0)
}

#[test]
fn miss_ends_the_check() {
    let (mut check, action) = check_address(&derived(), true);
    assert!(matches!(action, CheckAction::Lookup(ref a) if a == "bc1qcr8te4kr609gcawutmrza0j4xv80jy8z306fyu"));
    assert!(matches!(check.step(CheckEvent::LookedUp(Ok(false))), CheckAction::Finish(Ok(false))));
}

#[test]
fn hit_is_recorded_notified_and_cooled_down() {
    let (mut check, _) = check_address(&derived(), true);
    match check.step(CheckEvent::LookedUp(Ok(true))) {
        CheckAction::Record(f) => {
            assert_eq!(f.address, "bc1qcr8te4kr609gcawutmrza0j4xv80jy8z306fyu");
            assert_eq!(f.derivation_path, "m/84'/0'/0'/0/0");
            assert!(f.mnemonic.ends_with("abandon about"));
        },
        other => panic!("unexpected {other:?}"),
    }
    match check.step(CheckEvent::Recorded(Ok(1))) {
        CheckAction::Notify(text) => {
            assert_eq!(text, "Found a new address bc1qcr8te4kr609gcawutmrza0j4xv80jy8z306fyu")
        },
        other => panic!("unexpected {other:?}"),
    }
    assert!(matches!(check.step(CheckEvent::Notified(Ok(()))), CheckAction::Cooldown(2000)));
    assert!(matches!(check.step(CheckEvent::CooledDown), CheckAction::Finish(Ok(true))));
}

#[test]
fn hit_without_channel_skips_notification() {
    let (mut check, _) = check_address(&derived(), false);
    assert!(matches!(check.step(CheckEvent::LookedUp(Ok(true))), CheckAction::Record(_)));
    assert!(matches!(check.step(CheckEvent::Recorded(Ok(0))), CheckAction::Cooldown(2000)));
    assert!(matches!(check.step(CheckEvent::CooledDown), CheckAction::Finish(Ok(true))));
}

#[test]
fn notification_failure_is_reported_after_cooldown() {
    let (mut check, _) = check_address(&derived(), true);
    check.step(CheckEvent::LookedUp(Ok(true)));
    check.step(CheckEvent::Recorded(Ok(1)));
    assert!(matches!(check.step(CheckEvent::Notified(Err("down".to_string()))), CheckAction::Cooldown(2000)));
    match check.step(CheckEvent::CooledDown) {
        CheckAction::Finish(Err(CheckerError::TelegramError(m))) => assert_eq!(m, "down"),
        other => panic!("unexpected {other:?}"),
    }
}

#[test]
fn lookup_and_record_failures_are_repo_errors() {
    let (mut check, _) = check_address(&derived(), true);
    let e = RepoError::PoolError("pool".to_string());
    assert!(matches!(check.step(CheckEvent::LookedUp(Err(e.clone()))), CheckAction::Finish(Err(CheckerError::RepoError(ref x))) if *x == e));
    let (mut check, _) = check_address(&derived(), true);
    check.step(CheckEvent::LookedUp(Ok(true)));
    assert!(matches!(check.step(CheckEvent::Recorded(Err(e.clone()))), CheckAction::Finish(Err(CheckerError::RepoError(ref x))) if *x == e));
}
