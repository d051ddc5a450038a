use zerobridge::gateway::near::{CallContext, GatewayError, NEARGateway, WithdrawalRequestInfo as NearRequest};
use zerobridge::gateway::osmosis::{
    execute, execute_deposit, instantiate, query, AttrValue, Coin, ContractError, Env, ExecuteMsg, Gateway,
    InstantiateMsg, MessageInfo, QueryMsg, QueryResponse, TransferMsg,
};
use zerobridge::gateway::solana::{
    add_liquidity, deposit, execute_withdrawal, generate_deposit_id, generate_withdrawal_id, initialize,
    request_withdrawal, set_coordinator, set_paused, signed_hash, DepositInfo, ErrorCode, GatewayState,
    NullifierAccount, WithdrawalRequestInfo,
};

fn hex(bytes: &[u8]) -> String {
    bytes.iter().map(|b| format!("{:02x}", b)).collect()
}

// ============ NEAR ============
fn accounts(i: usize) -> String {
    ["alice.near", "bob.near", "charlie.near"][i].to_string()
}

fn get_context(predecessor: String) -> CallContext {
    CallContext { predecessor, attached_deposit: 0, block_timestamp: 12345 }
}

#[test]
fn test_initialization() {
    let context = get_context(accounts(0));

    let contract = NEARGateway::new(&context, accounts(1));

    assert_eq!(contract.owner, accounts(0));
    assert_eq!(contract.coordinator, accounts(1));
    assert_eq!(contract.paused, false);
}

#[test]
fn test_deposit() {
    let mut context = get_context(accounts(0));
    context.attached_deposit = 1_000_000_000_000_000_000_000_000;

    let mut contract = NEARGateway::new(&context, accounts(1));

    let deposit_id = contract.deposit(&context, 1, vec![1u8; 32], vec![2u8; 32]).unwrap();

    assert!(!deposit_id.is_empty());
    assert_eq!(contract.deposit_count, 1);
}

#[test]
fn test_request_withdrawal() {
    let context = get_context(accounts(0));

    let mut contract = NEARGateway::new(&context, accounts(1));

    let withdrawal_id = contract
        .request_withdrawal(
            &context,
            "near".to_string(),
            1_000_000_000_000_000_000_000_000,
            vec![1u8; 32],
            vec![2u8; 128],
            vec![3u8; 32],
        )
        .unwrap();

    assert!(!withdrawal_id.is_empty());
    assert_eq!(contract.withdrawal_count, 1);
}

#[test]
fn near_deposit_books() {
    let mut context = get_context(accounts(0));
    context.attached_deposit = 1_000_000_000_000_000_000_000_000;
    let mut contract = NEARGateway::new(&context, accounts(1));
    assert_eq!(contract.bridge_fee, 30);
    assert_eq!(contract.calculate_fee(1_000_000), Some(3_000));
    assert_eq!(contract.calculate_fee(u128::MAX), None);

    let deposit_id = contract.deposit(&context, 1, vec![1u8; 32], vec![2u8; 32]).unwrap();
    assert_eq!(deposit_id, "7f592a4e36591c77bb9cb810131a28e6");
    // 0.3% of the deposit is the fee.
    let net = 997_000_000_000_000_000_000_000u128;
    let info = contract.get_deposit(&deposit_id).unwrap();
    assert_eq!(info.amount, net);
    assert_eq!(info.sender, "alice.near");
    assert_eq!(info.token, "near");
    assert_eq!(info.recipient, "01".repeat(32));
    assert_eq!(info.zcash_address, "02".repeat(32));
    assert_eq!((info.target_chain_id, info.timestamp, info.processed), (1, 12345, false));
    assert_eq!(contract.get_locked_balance("near"), net);
    assert_eq!(contract.get_locked_balance("other"), 0);
    assert_eq!(contract.total_deposits, net);
    let stats = contract.get_stats();
    assert_eq!((stats.total_deposits, stats.total_withdrawals, stats.total_volume, stats.active_deposits), (net, 0, net, net));
    assert!(contract.get_deposit("nope").is_none());

    // Refusals, and nothing changes.
    let mut small = get_context(accounts(0));
    small.attached_deposit = 99_999_999_999_999_999_999_999;
    assert_eq!(contract.deposit(&small, 1, vec![1u8; 32], vec![2u8; 32]), Err(GatewayError::AmountBelowMinimum));
    assert_eq!(contract.deposit(&context, 1, vec![1u8; 31], vec![2u8; 32]), Err(GatewayError::InvalidRecipient));
    assert_eq!(contract.deposit(&context, 1, vec![1u8; 32], vec![2u8; 33]), Err(GatewayError::InvalidZcashAddress));
    contract.set_paused(&context, true).unwrap();
    assert_eq!(contract.deposit(&context, 1, vec![1u8; 32], vec![2u8; 32]), Err(GatewayError::Paused));
    assert_eq!(contract.deposit_count, 1);
    assert_eq!(contract.get_locked_balance("near"), net);
}

#[test]
fn near_withdrawal_is_executed_once() {
    let mut context = get_context(accounts(0));
    context.attached_deposit = 2_000_000_000_000_000_000_000_000;
    let mut contract = NEARGateway::new(&context, accounts(1));
    contract.deposit(&context, 1, vec![1u8; 32], vec![2u8; 32]).unwrap();
    let locked = contract.get_locked_balance("near");

    let amount = 1_000_000_000_000_000_000_000_000u128;
    let request = |contract: &mut NEARGateway| {
        contract.request_withdrawal(&context, "near".to_string(), amount, vec![1u8; 32], vec![2u8; 128], vec![3u8; 32])
    };
    let first = request(&mut contract).unwrap();
    assert_eq!(first, "2b8bb2c187296d57d81c41a4f68f3d0c");
    // A second request with the same nullifier gets an id of its own.
    let second = request(&mut contract).unwrap();
    assert_ne!(first, second);
    assert_eq!(contract.get_withdrawal_request(&first).unwrap().nullifier, "01".repeat(32));

    assert_eq!(
        contract.execute_withdrawal(first.clone(), vec![0u8; 64]).err(),
        Some(GatewayError::InvalidSignatureLength)
    );
    assert_eq!(
        contract.execute_withdrawal("nope".to_string(), vec![0u8; 65]).err(),
        Some(GatewayError::WithdrawalNotFound)
    );
    assert!(!contract.is_nullifier_used(&[1u8; 32]));

    let transfer = contract.execute_withdrawal(first.clone(), vec![0u8; 65]).unwrap();
    assert_eq!((transfer.recipient.as_str(), transfer.amount), ("alice.near", amount));
    assert!(contract.is_nullifier_used(&[1u8; 32]));
    assert!(contract.get_withdrawal_request(&first).unwrap().executed);
    assert_eq!(contract.get_locked_balance("near"), locked - amount);
    assert_eq!(contract.total_withdrawals, amount);

    // Neither the same request nor another one with the same nullifier goes through again.
    assert_eq!(contract.execute_withdrawal(first, vec![0u8; 65]).err(), Some(GatewayError::AlreadyExecuted));
    assert_eq!(contract.execute_withdrawal(second, vec![0u8; 65]).err(), Some(GatewayError::NullifierUsed));
    assert_eq!(request(&mut contract), Err(GatewayError::NullifierUsed));
    assert_eq!(contract.get_locked_balance("near"), locked - amount);
    assert_eq!(contract.total_withdrawals, amount);

    // More than is locked cannot leave.
    let big = contract
        .request_withdrawal(&context, "near".to_string(), locked, vec![9u8; 32], vec![], vec![3u8; 32])
        .unwrap();
    assert_eq!(contract.execute_withdrawal(big, vec![0u8; 65]).err(), Some(GatewayError::InsufficientLockedBalance));
}

#[test]
fn near_requests_are_checked() {
    let context = get_context(accounts(0));
    let mut contract = NEARGateway::new(&context, accounts(1));
    let mut ask = |amount: u128, nullifier: Vec<u8>, root: Vec<u8>| {
        contract.request_withdrawal(&context, "near".to_string(), amount, nullifier, vec![], root)
    };
    assert_eq!(ask(0, vec![1; 32], vec![3; 32]), Err(GatewayError::InvalidAmount));
    assert_eq!(ask(1, vec![1; 31], vec![3; 32]), Err(GatewayError::InvalidNullifier));
    assert_eq!(ask(1, vec![1; 32], vec![3; 1]), Err(GatewayError::InvalidMerkleRoot));
    assert_eq!(contract.withdrawal_count, 0);
}

#[test]
fn near_signed_message() {
    let request = NearRequest {
        withdrawal_id: "2b8bb2c187296d57d81c41a4f68f3d0c".to_string(),
        recipient: "alice.near".to_string(),
        token: "near".to_string(),
        amount: 1_000_000_000_000_000_000_000_000,
        nullifier: "01".repeat(32),
        timestamp: 0,
        executed: false,
    };
    let hash = NEARGateway::message_hash("2b8bb2c187296d57d81c41a4f68f3d0c", &request);
    assert_eq!(hex(&hash), "b7a59d3296a76e335db2330d296a2bbd4da4fa67f1dc2e35535955eed699d5b7");
}

#[test]
fn near_admin() {
    let owner = get_context(accounts(0));
    let stranger = get_context(accounts(2));
    let mut contract = NEARGateway::new(&owner, accounts(1));
    assert_eq!(contract.set_coordinator(&stranger, accounts(2)), Err(GatewayError::OnlyOwner));
    assert_eq!(contract.set_coordinator(&owner, accounts(2)), Ok(accounts(1)));
    assert_eq!(contract.coordinator, accounts(2));
    assert_eq!(contract.set_bridge_fee(&stranger, 10), Err(GatewayError::OnlyOwner));
    assert_eq!(contract.set_bridge_fee(&owner, 101), Err(GatewayError::FeeTooHigh));
    assert_eq!(contract.set_bridge_fee(&owner, 100), Ok(()));
    assert_eq!(contract.bridge_fee, 100);
    assert_eq!(contract.add_liquidity(&owner), Err(GatewayError::InvalidAmount));
    let mut funded = get_context(accounts(2));
    funded.attached_deposit = 5;
    assert_eq!(contract.add_liquidity(&funded), Ok(5));
    assert_eq!(contract.set_paused(&stranger, true), Err(GatewayError::OnlyOwner));
    assert_eq!(contract.set_paused(&owner, true), Ok(()));
    assert_eq!(contract.add_liquidity(&funded), Err(GatewayError::Paused));
    assert_eq!(
        contract.request_withdrawal(&owner, "near".to_string(), 1, vec![1; 32], vec![], vec![3; 32]),
        Err(GatewayError::Paused)
    );
    assert_eq!(contract.execute_withdrawal("x".to_string(), vec![0; 65]).err(), Some(GatewayError::Paused));
}

// ============ Osmosis ============
fn mock_info(sender: &str, funds: Vec<Coin>) -> MessageInfo {
    MessageInfo { sender: sender.to_string(), funds }
}

fn coins(amount: u128, denom: &str) -> Vec<Coin> {
    vec![Coin { denom: denom.to_string(), amount }]
}

fn mock_env() -> Env {
    Env { time_seconds: 1_571_797_419 }
}

fn osmosis() -> Gateway {
    instantiate(&mock_info("creator", vec![]), InstantiateMsg { coordinator: "coordinator".to_string() }).0
}

#[test]
fn proper_initialization() {
    let info = mock_info("creator", vec![]);

    let msg = InstantiateMsg { coordinator: "coordinator".to_string() };

    let (gateway, res) = instantiate(&info, msg);
    assert_eq!(0, res.messages.len());

    let config = &gateway.config;
    assert_eq!(config.coordinator, "coordinator");
    assert!(!config.paused);
}

#[test]
fn deposit_works() {
    let env = mock_env();

    // Initialize
    let init_msg = InstantiateMsg { coordinator: "coordinator".to_string() };
    let info = mock_info("creator", vec![]);
    let (mut gateway, _) = instantiate(&info, init_msg);

    // Deposit
    let info = mock_info("sender", coins(1_000_000, "uosmo"));
    let msg = ExecuteMsg::Deposit { target_chain_id: 1, recipient: "0".repeat(64), zcash_address: "0".repeat(64) };

    let res = execute(&mut gateway, env, &info, msg).unwrap();
    assert_eq!(res.attributes.len(), 7);
}

#[test]
fn osmosis_deposit_books() {
    let mut gateway = osmosis();
    let info = mock_info("sender", vec![Coin { denom: "uatom".to_string(), amount: 5 }, Coin { denom: "uosmo".to_string(), amount: 1_000_000 }, Coin { denom: "uosmo".to_string(), amount: 7 }]);
    let res = execute_deposit(&mut gateway, mock_env(), &info, 1, "0".repeat(64), "0".repeat(64)).unwrap();
    let id = "a41a55777a45c8285249a229b382b1540648b04edb30723c9fba40c9475751ab";
    assert!(matches!(&res.attributes[0].value, AttrValue::Text(action) if action == "deposit"));
    assert!(matches!(&res.attributes[1].value, AttrValue::Text(found) if found == id));
    assert!(matches!(res.attributes[3].value, AttrValue::Amount(997_000)));
    assert!(matches!(res.attributes[4].value, AttrValue::Number(1)));
    assert_eq!(res.attributes[6].key, "zcash_address");
    assert!(res.messages.is_empty());
    assert_eq!(gateway.deposit_count, 1);
    assert_eq!(gateway.total_deposits, 997_000);

    match query(&gateway, QueryMsg::GetDeposit { deposit_id: id.to_string() }).unwrap() {
        QueryResponse::Deposit(info) => {
            assert_eq!((info.amount, info.sender.as_str(), info.token.as_str()), (997_000, "sender", "uosmo"));
            assert_eq!(info.timestamp, 1_571_797_419);
        },
        other => panic!("unexpected answer {:?}", other),
    }
    assert!(matches!(
        query(&gateway, QueryMsg::GetLockedBalance { token: "uosmo".to_string() }),
        Ok(QueryResponse::LockedBalance(997_000))
    ));
    assert!(matches!(
        query(&gateway, QueryMsg::GetDeposit { deposit_id: "nope".to_string() }),
        Err(ContractError::NotFound)
    ));
    match query(&gateway, QueryMsg::GetStats {}).unwrap() {
        QueryResponse::Stats(stats) => assert_eq!(
            (stats.total_deposits, stats.total_withdrawals, stats.total_volume, stats.active_deposits),
            (997_000, 0, 997_000, 997_000)
        ),
        other => panic!("unexpected answer {:?}", other),
    }
    assert!(matches!(query(&gateway, QueryMsg::GetConfig {}), Ok(QueryResponse::Config(config)) if config.owner == "creator" && config.bridge_fee == 30));
    assert!(matches!(
        query(&gateway, QueryMsg::GetAvailableLiquidity { token: "uosmo".to_string() }),
        Ok(QueryResponse::AvailableLiquidity(0))
    ));

    let mut refuse = |funds: Vec<Coin>, recipient: String, zcash: String| {
        execute_deposit(&mut gateway, mock_env(), &mock_info("sender", funds), 1, recipient, zcash).err()
    };
    assert_eq!(refuse(coins(1_000_000, "uosmo"), "0".repeat(63), "0".repeat(64)), Some(ContractError::InvalidRecipient));
    assert_eq!(refuse(coins(1_000_000, "uosmo"), "0".repeat(64), String::new()), Some(ContractError::InvalidZcashAddress));
    assert_eq!(refuse(coins(999_999, "uosmo"), "0".repeat(64), "0".repeat(64)), Some(ContractError::AmountTooSmall));
    assert_eq!(refuse(coins(1_000_000, "uatom"), "0".repeat(64), "0".repeat(64)), Some(ContractError::AmountTooSmall));
    assert_eq!(refuse(coins(1_000_000_000_001, "uosmo"), "0".repeat(64), "0".repeat(64)), Some(ContractError::AmountTooLarge));
    // The length of a text is counted in bytes.
    assert_eq!(refuse(coins(1_000_000, "uosmo"), "\u{e9}".repeat(64), "0".repeat(64)), Some(ContractError::InvalidRecipient));
    assert_eq!(gateway.deposit_count, 1);
}

fn signature(r: u8, s: u8) -> String {
    let mut bytes = vec![0u8; 65];
    bytes[31] = r;
    bytes[63] = s;
    hex(&bytes)
}

#[test]
fn osmosis_withdrawal_is_executed_once() {
    let mut gateway = osmosis();
    let env = mock_env();
    let depositor = mock_info("sender", coins(1_000_000, "uosmo"));
    execute_deposit(&mut gateway, env, &depositor, 1, "0".repeat(64), "0".repeat(64)).unwrap();

    let request = |gateway: &mut Gateway, amount: u128, nullifier: &str| {
        let msg = ExecuteMsg::RequestWithdrawal {
            token: "uosmo".to_string(),
            amount,
            nullifier: nullifier.repeat(64),
            zcash_proof: "proof".to_string(),
            merkle_root: "b".repeat(64),
        };
        execute(gateway, mock_env(), &mock_info("sender", vec![]), msg)
    };
    let id_of = |res: &zerobridge::gateway::osmosis::Response| match &res.attributes[1].value {
        AttrValue::Text(id) => id.clone(),
        other => panic!("unexpected value {:?}", other),
    };
    let res = request(&mut gateway, 997_000, "a").unwrap();
    assert_eq!(res.attributes.len(), 8);
    let first = id_of(&res);
    assert_eq!(first, "6633885817a49806cd4b15be4e1398b56cb48268aadf4627564be7f3e0cab26e");
    let second = id_of(&request(&mut gateway, 1, "a").unwrap());
    assert_ne!(first, second);
    assert_eq!(request(&mut gateway, 0, "c").err(), Some(ContractError::InvalidAmount));

    let run = |gateway: &mut Gateway, id: &str, signature: String| {
        let msg = ExecuteMsg::ExecuteWithdrawal { withdrawal_id: id.to_string(), coordinator_signature: signature };
        execute(gateway, mock_env(), &mock_info("relayer", vec![]), msg)
    };
    // The signature must be hexadecimal for 65 bytes, with both halves of the signature in range.
    assert_eq!(run(&mut gateway, &first, "zz".repeat(65)).err(), Some(ContractError::InvalidSignature));
    assert_eq!(run(&mut gateway, &first, "00".repeat(64)).err(), Some(ContractError::InvalidSignature));
    assert_eq!(run(&mut gateway, &first, signature(0, 1)).err(), Some(ContractError::InvalidSignature));
    assert_eq!(run(&mut gateway, &first, signature(1, 0)).err(), Some(ContractError::InvalidSignature));
    assert_eq!(run(&mut gateway, &first, "ff".repeat(65)).err(), Some(ContractError::InvalidSignature));
    assert_eq!(run(&mut gateway, "nope", signature(1, 1)).err(), Some(ContractError::NotFound));
    assert!(matches!(
        query(&gateway, QueryMsg::IsNullifierUsed { nullifier: "a".repeat(64) }),
        Ok(QueryResponse::NullifierUsed(false))
    ));

    let res = run(&mut gateway, &first, signature(1, 1)).unwrap();
    assert_eq!(res.attributes.len(), 6);
    assert_eq!(res.messages.len(), 1);
    assert!(matches!(
        &res.messages[0],
        TransferMsg::Bank { to_address, denom, amount } if to_address == "sender" && denom == "uosmo" && *amount == 997_000
    ));
    assert!(matches!(
        query(&gateway, QueryMsg::IsNullifierUsed { nullifier: "a".repeat(64) }),
        Ok(QueryResponse::NullifierUsed(true))
    ));
    assert!(matches!(
        query(&gateway, QueryMsg::GetLockedBalance { token: "uosmo".to_string() }),
        Ok(QueryResponse::LockedBalance(0))
    ));
    assert!(matches!(
        query(&gateway, QueryMsg::GetWithdrawalRequest { withdrawal_id: first.clone() }),
        Ok(QueryResponse::WithdrawalRequest(request)) if request.executed
    ));
    assert_eq!(gateway.total_withdrawals, 997_000);

    assert_eq!(run(&mut gateway, &first, signature(1, 1)).err(), Some(ContractError::AlreadyExecuted));
    assert_eq!(run(&mut gateway, &second, signature(1, 1)).err(), Some(ContractError::NullifierUsed));
    assert_eq!(request(&mut gateway, 5, "a").err(), Some(ContractError::NullifierUsed));
    let third = id_of(&request(&mut gateway, 5, "d").unwrap());
    assert_eq!(run(&mut gateway, &third, signature(1, 1)).err(), Some(ContractError::InsufficientLockedBalance));
    assert_eq!(gateway.total_withdrawals, 997_000);
}

#[test]
fn osmosis_tokens_leave_through_their_contract() {
    let mut gateway = osmosis();
    gateway.locked_balances.insert(zerobridge::table::TextKey("token-contract".to_string()), 10);
    let msg = ExecuteMsg::RequestWithdrawal {
        token: "token-contract".to_string(),
        amount: 4,
        nullifier: "e".repeat(64),
        zcash_proof: String::new(),
        merkle_root: "f".repeat(64),
    };
    let res = execute(&mut gateway, mock_env(), &mock_info("holder", vec![]), msg).unwrap();
    let id = match &res.attributes[1].value {
        AttrValue::Text(id) => id.clone(),
        other => panic!("unexpected value {:?}", other),
    };
    let msg = ExecuteMsg::ExecuteWithdrawal { withdrawal_id: id, coordinator_signature: signature(2, 3) };
    let res = execute(&mut gateway, mock_env(), &mock_info("relayer", vec![]), msg).unwrap();
    assert!(matches!(
        &res.messages[0],
        TransferMsg::Cw20 { contract_addr, recipient, amount } if contract_addr == "token-contract" && recipient == "holder" && *amount == 4
    ));
    assert!(matches!(
        query(&gateway, QueryMsg::GetLockedBalance { token: "token-contract".to_string() }),
        Ok(QueryResponse::LockedBalance(6))
    ));
}

#[test]
fn osmosis_admin() {
    let mut gateway = osmosis();
    let env = mock_env();
    let owner = mock_info("creator", vec![]);
    let stranger = mock_info("stranger", coins(10, "uosmo"));
    let mut send = |info: &MessageInfo, msg: ExecuteMsg| execute(&mut gateway, env, info, msg);

    assert_eq!(send(&stranger, ExecuteMsg::SetPaused { paused: true }).err(), Some(ContractError::Unauthorized));
    assert_eq!(send(&stranger, ExecuteMsg::SetBridgeFee { new_fee: 1 }).err(), Some(ContractError::Unauthorized));
    assert_eq!(send(&owner, ExecuteMsg::SetBridgeFee { new_fee: 101 }).err(), Some(ContractError::FeeTooHigh));
    let res = send(&owner, ExecuteMsg::SetBridgeFee { new_fee: 100 }).unwrap();
    assert!(matches!(res.attributes[1].value, AttrValue::Number(30)));
    assert!(matches!(res.attributes[2].value, AttrValue::Number(100)));
    assert_eq!(
        send(&stranger, ExecuteMsg::SetCoordinator { new_coordinator: "x".to_string() }).err(),
        Some(ContractError::Unauthorized)
    );
    assert!(send(&owner, ExecuteMsg::SetCoordinator { new_coordinator: "next".to_string() }).is_ok());

    assert_eq!(
        send(&stranger, ExecuteMsg::AddLiquidity { token: "uosmo".to_string() }).err(),
        Some(ContractError::Unauthorized)
    );
    assert_eq!(
        send(&stranger, ExecuteMsg::AddLiquidityProvider { provider: "stranger".to_string() }).err(),
        Some(ContractError::Unauthorized)
    );
    assert!(send(&owner, ExecuteMsg::AddLiquidityProvider { provider: "stranger".to_string() }).is_ok());
    let res = send(&stranger, ExecuteMsg::AddLiquidity { token: "uosmo".to_string() }).unwrap();
    assert!(matches!(res.attributes[3].value, AttrValue::Amount(10)));
    assert_eq!(
        send(&stranger, ExecuteMsg::AddLiquidity { token: "uatom".to_string() }).err(),
        Some(ContractError::InvalidAmount)
    );
    // No liquidity is on record as available: nothing can be taken out.
    assert_eq!(
        send(&stranger, ExecuteMsg::RemoveLiquidity { token: "uosmo".to_string(), amount: 1 }).err(),
        Some(ContractError::InsufficientLiquidity)
    );
    assert_eq!(
        send(&stranger, ExecuteMsg::RemoveLiquidity { token: "uosmo".to_string(), amount: 0 }).err(),
        Some(ContractError::InvalidAmount)
    );
    assert!(send(&owner, ExecuteMsg::RemoveLiquidityProvider { provider: "stranger".to_string() }).is_ok());
    assert_eq!(
        send(&stranger, ExecuteMsg::AddLiquidity { token: "uosmo".to_string() }).err(),
        Some(ContractError::Unauthorized)
    );

    let rescue = || ExecuteMsg::EmergencyWithdraw { token: "uosmo".to_string(), to: "safe".to_string(), amount: 9 };
    assert_eq!(send(&stranger, rescue()).err(), Some(ContractError::Unauthorized));
    assert_eq!(send(&owner, rescue()).err(), Some(ContractError::MustBePaused));
    assert!(send(&owner, ExecuteMsg::SetPaused { paused: true }).is_ok());
    let res = send(&owner, rescue()).unwrap();
    assert!(matches!(&res.messages[0], TransferMsg::Bank { to_address, amount, .. } if to_address == "safe" && *amount == 9));
    assert_eq!(
        send(&owner, ExecuteMsg::EmergencyWithdraw { token: "uosmo".to_string(), to: "safe".to_string(), amount: 0 }).err(),
        Some(ContractError::InvalidAmount)
    );
    assert_eq!(
        send(&stranger, ExecuteMsg::Deposit { target_chain_id: 1, recipient: "0".repeat(64), zcash_address: "0".repeat(64) })
            .err(),
        Some(ContractError::Paused)
    );
    assert_eq!(gateway.config.coordinator, "next");
    assert_eq!(gateway.config.bridge_fee, 100);
}

#[test]
fn osmosis_signed_hash_counts_the_amount_in_decimal() {
    let hash = zerobridge::gateway::osmosis::signed_hash("wid", "rec", "tok", u128::MAX, "nul");
    assert_eq!(hex(&hash), "088846da2e78cb85cf1501f29069016c46c04d2704b222b404341285cc720c8e");
    assert_eq!(zerobridge::decimal::decimal(0), b"0".to_vec());
    assert_eq!(zerobridge::decimal::decimal(10), b"10".to_vec());
    assert_eq!(zerobridge::decimal::decimal(907), b"907".to_vec());
}

// ============ Solana ============
fn blank_deposit() -> DepositInfo {
    DepositInfo {
        deposit_id: [0; 32],
        sender: [0; 32],
        mint: [0; 32],
        amount: 0,
        target_chain_id: 0,
        recipient: [0; 32],
        zcash_address: [0; 32],
        timestamp: 0,
        processed: false,
    }
}

fn blank_request() -> WithdrawalRequestInfo {
    WithdrawalRequestInfo {
        withdrawal_id: [0; 32],
        recipient: [0; 32],
        mint: [0; 32],
        amount: 0,
        nullifier: [0; 32],
        timestamp: 0,
        executed: false,
    }
}

fn blank_nullifier() -> NullifierAccount {
    NullifierAccount { nullifier: [0; 32], used: false, timestamp: 0 }
}

fn solana() -> GatewayState {
    initialize([9; 32], [8; 32], 254)
}

#[test]
fn solana_ids_are_digests() {
    assert_eq!(
        hex(&generate_deposit_id(&[4; 32], &[5; 32], 2_000_000, 1, [6; 32], 0)),
        "e26a0c32b514abcb3c2db1b9612dea70f25f8eee003c33128d85a1262f45dd49"
    );
    assert_eq!(
        hex(&generate_withdrawal_id(&[6; 32], &[5; 32], 2_000_000, [7; 32], 0)),
        "1d681796e833928d6690c190befdde7a59d556ad052d378a64ca66984decb31c"
    );
    assert_eq!(
        hex(&signed_hash([1; 32], [2; 32], 1_000_000, [3; 32])),
        "0eb5ddc7cb54f4b0e6e56d7ab2ec03959fb5a4a6e6fa28eb9aad832cd0bd3080"
    );
}

#[test]
fn solana_deposit_and_withdrawal() {
    let mut gateway = solana();
    assert_eq!((gateway.authority, gateway.coordinator, gateway.bump, gateway.paused), ([9; 32], [8; 32], 254, false));
    let mut account = blank_deposit();
    let (event, transfer) = deposit(&mut gateway, &mut account, [4; 32], [5; 32], 2_000_000, 1, [6; 32], [7; 32], 100).unwrap();
    assert_eq!(hex(&event.deposit_id), "e26a0c32b514abcb3c2db1b9612dea70f25f8eee003c33128d85a1262f45dd49");
    assert_eq!(account.deposit_id, event.deposit_id);
    assert_eq!((account.sender, account.mint, account.amount, account.timestamp), ([4; 32], [5; 32], 2_000_000, 100));
    assert_eq!((transfer.into_vault, transfer.party, transfer.amount), (true, [4; 32], 2_000_000));
    assert_eq!((gateway.total_locked, gateway.deposit_count), (2_000_000, 1));

    let mut untouched = blank_deposit();
    assert_eq!(deposit(&mut gateway, &mut untouched, [4; 32], [5; 32], 0, 1, [6; 32], [7; 32], 100).err(), Some(ErrorCode::InvalidAmount));
    assert_eq!(deposit(&mut gateway, &mut untouched, [4; 32], [5; 32], 999_999, 1, [6; 32], [7; 32], 100).err(), Some(ErrorCode::AmountTooSmall));
    assert_eq!(deposit(&mut gateway, &mut untouched, [4; 32], [5; 32], u64::MAX, 1, [6; 32], [7; 32], 100).err(), Some(ErrorCode::Overflow));
    assert_eq!(untouched.amount, 0);
    assert_eq!((gateway.total_locked, gateway.deposit_count), (2_000_000, 1));

    let mut request = blank_request();
    let mut nullifier = blank_nullifier();
    let event = request_withdrawal(&mut gateway, &mut request, &nullifier, [6; 32], [5; 32], 1_500_000, [3; 32], vec![1, 2], [2; 32], 200).unwrap();
    assert_eq!((event.zcash_proof, event.merkle_root, event.amount), (vec![1, 2], [2; 32], 1_500_000));
    assert_eq!(event.withdrawal_id, generate_withdrawal_id(&[6; 32], &[5; 32], 1_500_000, [3; 32], 0));
    assert_eq!(request.withdrawal_id, event.withdrawal_id);
    assert_eq!(gateway.withdrawal_count, 1);
    assert_eq!(
        request_withdrawal(&mut gateway, &mut blank_request(), &nullifier, [6; 32], [5; 32], 0, [3; 32], vec![], [2; 32], 200).err(),
        Some(ErrorCode::InvalidAmount)
    );

    let id = request.withdrawal_id;
    let key = Some(vec![1u8; 64]);
    assert_eq!(
        execute_withdrawal(&mut gateway, &mut request, &mut nullifier, [0; 32], key.clone(), 300).err(),
        Some(ErrorCode::InvalidWithdrawalId)
    );
    assert_eq!(
        execute_withdrawal(&mut gateway, &mut request, &mut nullifier, id, None, 300).err(),
        Some(ErrorCode::InvalidSignature)
    );
    assert_eq!(
        execute_withdrawal(&mut gateway, &mut request, &mut nullifier, id, Some(vec![1u8; 63]), 300).err(),
        Some(ErrorCode::InvalidSignature)
    );
    assert!(!request.executed && !nullifier.used);

    let (event, transfer) = execute_withdrawal(&mut gateway, &mut request, &mut nullifier, id, key.clone(), 300).unwrap();
    assert_eq!((event.recipient, event.amount, event.nullifier, event.timestamp), ([6; 32], 1_500_000, [3; 32], 300));
    assert_eq!((transfer.into_vault, transfer.party, transfer.mint, transfer.amount), (false, [6; 32], [5; 32], 1_500_000));
    assert!(request.executed);
    assert_eq!((nullifier.used, nullifier.nullifier, nullifier.timestamp), (true, [3; 32], 300));
    assert_eq!((gateway.total_locked, gateway.total_withdrawn), (500_000, 1_500_000));

    // Neither the request nor its nullifier goes through again.
    assert_eq!(
        execute_withdrawal(&mut gateway, &mut request, &mut nullifier, id, key.clone(), 400).err(),
        Some(ErrorCode::AlreadyExecuted)
    );
    let mut again = blank_request();
    assert_eq!(
        request_withdrawal(&mut gateway, &mut again, &nullifier, [6; 32], [5; 32], 1, [3; 32], vec![], [2; 32], 200).err(),
        Some(ErrorCode::NullifierUsed)
    );
    let mut other = WithdrawalRequestInfo { amount: 1, nullifier: [3; 32], ..blank_request() };
    assert_eq!(
        execute_withdrawal(&mut gateway, &mut other, &mut nullifier, [0; 32], key.clone(), 400).err(),
        Some(ErrorCode::NullifierUsed)
    );
    // More than is locked cannot leave.
    let mut big = WithdrawalRequestInfo { amount: 500_001, ..blank_request() };
    assert_eq!(
        execute_withdrawal(&mut gateway, &mut big, &mut blank_nullifier(), [0; 32], key, 400).err(),
        Some(ErrorCode::Underflow)
    );
    assert_eq!((gateway.total_locked, gateway.total_withdrawn), (500_000, 1_500_000));
}

#[test]
fn solana_admin() {
    let mut gateway = solana();
    assert_eq!(set_coordinator(&mut gateway, [1; 32], [7; 32], 5).err(), Some(ErrorCode::InvalidCoordinator));
    let event = set_coordinator(&mut gateway, [9; 32], [7; 32], 5).unwrap();
    assert_eq!((event.old_coordinator, event.new_coordinator, event.timestamp), ([8; 32], [7; 32], 5));
    assert_eq!(gateway.coordinator, [7; 32]);

    let (event, transfer) = add_liquidity(&gateway, [3; 32], [5; 32], 10, 6).unwrap();
    assert_eq!((event.provider, event.amount, transfer.into_vault, transfer.amount), ([3; 32], 10, true, 10));
    assert_eq!(add_liquidity(&gateway, [3; 32], [5; 32], 0, 6).err(), Some(ErrorCode::InvalidAmount));

    assert_eq!(set_paused(&mut gateway, [1; 32], true, 7).err(), Some(ErrorCode::InvalidCoordinator));
    assert!(matches!(set_paused(&mut gateway, [9; 32], false, 7), Ok(None)));
    let pause = set_paused(&mut gateway, [9; 32], true, 8).unwrap().unwrap();
    assert_eq!((pause.triggered_by, pause.timestamp), ([9; 32], 8));
    assert!(gateway.paused);
    assert_eq!(add_liquidity(&gateway, [3; 32], [5; 32], 10, 9).err(), Some(ErrorCode::GatewayPaused));
    assert_eq!(
        deposit(&mut gateway, &mut blank_deposit(), [4; 32], [5; 32], 2_000_000, 1, [6; 32], [7; 32], 9).err(),
        Some(ErrorCode::GatewayPaused)
    );
    assert_eq!(
        request_withdrawal(&mut gateway, &mut blank_request(), &blank_nullifier(), [6; 32], [5; 32], 1, [3; 32], vec![], [2; 32], 9).err(),
        Some(ErrorCode::GatewayPaused)
    );
    assert_eq!(
        execute_withdrawal(&mut gateway, &mut blank_request(), &mut blank_nullifier(), [0; 32], Some(vec![0; 64]), 9).err(),
        Some(ErrorCode::GatewayPaused)
    );
    assert_eq!(GatewayState::SIZE, 98);
    assert_eq!(DepositInfo::SIZE, 185);
    assert_eq!(WithdrawalRequestInfo::SIZE, 145);
    assert_eq!(NullifierAccount::SIZE, 41);
}
