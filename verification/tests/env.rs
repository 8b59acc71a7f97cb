use xcontract_core::api;
use xcontract_core::calls::{Address, Call, XAssets};
use xcontract_core::env::{CallData, CallParams, EnvInstance, InstantiateParams};
use xcontract_core::error::{EnvError, Error};
use xcontract_core::test_api;

fn default_env() -> EnvInstance {
    let mut env = EnvInstance::new();
    test_api::initialize_or_reset_as_default(&mut env).expect("default initialization");
    env
}

fn push_default_context(env: &mut EnvInstance) {
    let accounts = test_api::default_accounts().expect("default accounts");
    test_api::push_execution_context(
        env,
        accounts.alice,
        accounts.bob,
        1_000,
        500,
        CallData::new(vec![0, 0, 0, 1]),
    );
}

#[test]
fn api_errors_without_context() {
    let env = default_env();
    assert_eq!(api::caller(&env), Err(EnvError::UninitializedExecContext));
    assert_eq!(api::account_id(&env), Err(EnvError::UninitializedExecContext));
    assert_eq!(api::transferred_balance(&env), Err(EnvError::UninitializedExecContext));
    assert_eq!(api::gas_left(&env), Err(EnvError::UninitializedExecContext));
    assert_eq!(api::balance(&env), Err(EnvError::UninitializedExecContext));
    assert!(api::input(&env).is_err());
}

#[test]
fn context_accessors_read_the_top_context() {
    let mut env = default_env();
    push_default_context(&mut env);
    let accounts = test_api::default_accounts().unwrap();
    assert_eq!(api::caller(&env), Ok(accounts.alice));
    assert_eq!(api::account_id(&env), Ok(accounts.bob));
    assert_eq!(api::transferred_balance(&env), Ok(500));
    assert_eq!(api::gas_left(&env), Ok(1_000));
    assert_eq!(api::input(&env).unwrap().bytes, vec![0, 0, 0, 1]);
    test_api::pop_execution_context(&mut env);
    assert_eq!(api::caller(&env), Err(EnvError::UninitializedExecContext));
}

#[test]
fn chain_constants_and_block() {
    let env = default_env();
    assert_eq!(api::gas_price(&env), Ok(0));
    assert_eq!(api::minimum_balance(&env), Ok(0));
    assert_eq!(api::tombstone_deposit(&env), Ok(0));
    assert_eq!(api::block_number(&env), Ok(0));
    assert_eq!(api::block_timestamp(&env), Ok(0));
}

#[test]
fn advance_block_moves_number_and_timestamp() {
    let mut env = default_env();
    test_api::advance_block(&mut env).unwrap();
    test_api::advance_block(&mut env).unwrap();
    assert_eq!(api::block_number(&env), Ok(2));
    assert_eq!(api::block_timestamp(&env), Ok(12));
}

#[test]
fn random_returns_block_entropy() {
    let mut env = default_env();
    let entropy = xcontract_core::types::Hash::from_bytes(&[9u8; 32]);
    test_api::set_block_entropy(&mut env, entropy).unwrap();
    assert_eq!(api::random(&env, b"subject"), Ok(entropy));
    assert_eq!(api::random(&env, b"other"), Ok(entropy));
}

#[test]
fn default_accounts_have_default_balances() {
    let env = default_env();
    let accounts = test_api::default_accounts().unwrap();
    for id in [
        accounts.alice,
        accounts.bob,
        accounts.charlie,
        accounts.django,
        accounts.eve,
        accounts.frank,
    ] {
        assert_eq!(test_api::get_account_balance(&env, id), Ok(1_000_000));
    }
    let stranger = xcontract_core::types::uniform_account(9);
    assert_eq!(
        test_api::get_account_balance(&env, stranger),
        Err(EnvError::UnknownAccount)
    );
}

#[test]
fn set_account_balance_updates_existing_accounts() {
    let mut env = default_env();
    let accounts = test_api::default_accounts().unwrap();
    test_api::set_account_balance(&mut env, accounts.alice, 42).unwrap();
    assert_eq!(test_api::get_account_balance(&env, accounts.alice), Ok(42));
    let stranger = xcontract_core::types::uniform_account(9);
    assert_eq!(
        test_api::set_account_balance(&mut env, stranger, 42),
        Err(EnvError::UnknownAccount)
    );
}

#[test]
fn transfer_moves_balance() {
    let mut env = default_env();
    push_default_context(&mut env);
    let accounts = test_api::default_accounts().unwrap();
    // The executed contract is Bob; move 300 to Charlie.
    api::transfer(&mut env, accounts.charlie, 300).unwrap();
    assert_eq!(test_api::get_account_balance(&env, accounts.bob), Ok(999_700));
    assert_eq!(test_api::get_account_balance(&env, accounts.charlie), Ok(1_000_300));
}

#[test]
fn transfer_fails_on_insufficient_funds() {
    let mut env = default_env();
    push_default_context(&mut env);
    let accounts = test_api::default_accounts().unwrap();
    assert_eq!(
        api::transfer(&mut env, accounts.charlie, 2_000_000),
        Err(EnvError::TransferCallFailed)
    );
    assert_eq!(test_api::get_account_balance(&env, accounts.charlie), Ok(1_000_000));
}

#[test]
fn rent_allowance_needs_a_contract_account() {
    let mut env = default_env();
    push_default_context(&mut env);
    // Bob is a plain user account.
    assert_eq!(api::rent_allowance(&env), Err(EnvError::NotAContract));
    let accounts = test_api::default_accounts().unwrap();
    assert_eq!(
        test_api::get_contract_rent_allowance(&env, accounts.bob),
        Err(EnvError::NotAContract)
    );
    assert_eq!(
        test_api::set_contract_rent_allowance(&mut env, accounts.bob, 5),
        Err(EnvError::NotAContract)
    );
}

#[test]
fn instantiate_creates_a_contract_account() {
    let mut env = default_env();
    let params = InstantiateParams {
        code_hash: xcontract_core::types::Hash::from_bytes(&[3u8; 32]),
        gas_limit: 10,
        endowment: 777,
        input_data: CallData::new(vec![1, 2, 3, 4]),
    };
    let id = api::instantiate_contract(&mut env, &params).unwrap();
    assert_eq!(test_api::get_account_balance(&env, id), Ok(777));
    assert_eq!(test_api::get_contract_rent_allowance(&env, id), Ok(0));
    assert_eq!(test_api::get_contract_storage_rw(&env, &id), Ok((0, 0)));
    // The instantiation was recorded.
    assert_eq!(env.records.len(), 1);
    let record = env.records[0].contract_instantiation().expect("a creation record");
    assert_eq!(record.endowment, 777);
    assert_eq!(record.gas_limit, 10);
    assert!(env.records[0].contract_call().is_none());
    // Rent allowance can now be set.
    test_api::set_contract_rent_allowance(&mut env, id, 55).unwrap();
    assert_eq!(test_api::get_contract_rent_allowance(&env, id), Ok(55));
}

#[test]
fn set_rent_allowance_updates_the_executed_contract() {
    let mut env = default_env();
    let params = InstantiateParams {
        code_hash: xcontract_core::types::Hash::from_bytes(&[3u8; 32]),
        gas_limit: 10,
        endowment: 0,
        input_data: CallData::new(vec![0, 0, 0, 0]),
    };
    let id = api::instantiate_contract(&mut env, &params).unwrap();
    let accounts = test_api::default_accounts().unwrap();
    test_api::push_execution_context(
        &mut env,
        accounts.alice,
        id,
        1_000,
        0,
        CallData::new(vec![0, 0, 0, 2]),
    );
    api::set_rent_allowance(&mut env, 31);
    assert_eq!(api::rent_allowance(&env), Ok(31));
}

#[test]
fn invoke_runtime_records_the_encoded_call() {
    let mut env = default_env();
    let call = Call::XAssets(XAssets::transfer(
        Address::Index(0),
        b"PCX".to_vec(),
        10_000,
        b"memo".to_vec(),
    ));
    api::invoke_runtime(&mut env, &call).unwrap();
    assert_eq!(env.records.len(), 1);
    let record = env.records[0].runtime_invokation().expect("a runtime record");
    assert_eq!(record.encoded, call.encode());
    assert!(env.records[0].emitted_event().is_none());
}

#[test]
fn invoke_contract_records_the_call() {
    let mut env = default_env();
    let accounts = test_api::default_accounts().unwrap();
    let params = CallParams {
        callee: accounts.eve,
        gas_limit: 5,
        endowment: 6,
        input_data: CallData::new(vec![9, 9, 9, 9]),
    };
    api::invoke_contract(&mut env, &params).unwrap();
    let record = env.records[0].contract_call().expect("a call record");
    assert_eq!(record.callee, accounts.eve);
    assert_eq!(record.input_data.bytes, vec![9, 9, 9, 9]);
}

#[test]
fn terminate_contract_moves_everything_to_the_beneficiary() {
    let mut env = default_env();
    push_default_context(&mut env);
    let accounts = test_api::default_accounts().unwrap();
    api::terminate_contract(&mut env, accounts.charlie).unwrap();
    assert_eq!(
        test_api::get_account_balance(&env, accounts.bob),
        Err(EnvError::UnknownAccount)
    );
    assert_eq!(test_api::get_account_balance(&env, accounts.charlie), Ok(2_000_000));
}

#[test]
fn emitted_events_and_printlns_are_recorded_in_order() {
    let mut env = default_env();
    api::println(&mut env, "first");
    api::println(&mut env, "second");
    let lines = test_api::recorded_printlns(&env);
    assert_eq!(lines.len(), 2);
    assert_eq!(lines[0], "first");
    assert_eq!(lines[1], "second");

    api::emit_event(&mut env, vec![xcontract_core::types::Hash::default()], vec![1, 2, 3]);
    let events = test_api::recorded_events(&env);
    assert_eq!(events.len(), 1);
    assert_eq!(events[0].data, vec![1, 2, 3]);
    assert_eq!(events[0].topics.len(), 1);
}

#[test]
fn error_reports_its_message() {
    let e = Error::new("something went wrong");
    assert_eq!(e.what(), "something went wrong");
}

#[test]
fn contract_storage_is_metered_per_account() {
    let mut env = default_env();
    let params = InstantiateParams {
        code_hash: xcontract_core::types::Hash::from_bytes(&[3u8; 32]),
        gas_limit: 10,
        endowment: 0,
        input_data: CallData::new(vec![0, 0, 0, 0]),
    };
    let id = api::instantiate_contract(&mut env, &params).unwrap();
    let accounts = test_api::default_accounts().unwrap();
    test_api::push_execution_context(
        &mut env,
        accounts.alice,
        id,
        1_000,
        0,
        CallData::new(vec![0, 0, 0, 3]),
    );
    let key = xcontract_core::key::Key::zero();
    assert_eq!(api::get_contract_storage::<u32>(&mut env, key), None);
    api::set_contract_storage(&mut env, key, &77u32);
    assert_eq!(api::get_contract_storage::<u32>(&mut env, key), Some(Ok(77)));
    assert_eq!(test_api::get_contract_storage_rw(&env, &id), Ok((2, 1)));
    api::clear_contract_storage(&mut env, key);
    assert_eq!(api::get_contract_storage::<u32>(&mut env, key), None);
    assert_eq!(test_api::get_contract_storage_rw(&env, &id), Ok((3, 2)));
}

#[test]
fn contract_storage_reports_decode_failures() {
    let mut env = default_env();
    let params = InstantiateParams {
        code_hash: xcontract_core::types::Hash::from_bytes(&[3u8; 32]),
        gas_limit: 10,
        endowment: 0,
        input_data: CallData::new(vec![0, 0, 0, 0]),
    };
    let id = api::instantiate_contract(&mut env, &params).unwrap();
    let accounts = test_api::default_accounts().unwrap();
    test_api::push_execution_context(
        &mut env,
        accounts.alice,
        id,
        1_000,
        0,
        CallData::new(vec![0, 0, 0, 4]),
    );
    let key = xcontract_core::key::Key::zero();
    // A bool does not decode out of a u32's four bytes.
    api::set_contract_storage(&mut env, key, &7u32);
    assert_eq!(api::get_contract_storage::<bool>(&mut env, key), Some(Err(EnvError::Decode)));
}
