use deposit_native::contract::{
    execute, execute_deposit, execute_withdraw, get_config, instantiate, query, query_deposits,
    update_config, BankMsg, ContractError, ExecuteMsg, QueryMsg, QueryResponse, Response, Store,
};
use deposit_native::state::Coin;

const SENDER: &str = "sender_address";
const AMOUNT: u128 = 100000;
const DENOM: &str = "utest";

fn coin(amount: u128, denom: &str) -> Coin {
    Coin { denom: denom.to_string(), amount }
}

fn setup_contract(store: &mut Store) {
    let res = instantiate(store, &SENDER.to_string()).unwrap();
    assert_eq!(0, res.messages.len());
}

fn deposit_coins(store: &mut Store) {
    let coins = vec![coin(AMOUNT, DENOM)];
    let res = execute(store, &SENDER.to_string(), &coins, ExecuteMsg::Deposit).unwrap();
    assert_eq!("deposit".to_string(), res.attributes[0].value);
    assert_eq!(DENOM.to_string(), res.attributes[1].value);
    assert_eq!(AMOUNT.to_string(), res.attributes[2].value);
}

fn query_coins(store: &Store) {
    let msg = QueryMsg::Deposits { address: SENDER.to_string() };
    let query = match query(store, msg).unwrap() {
        QueryResponse::Deposits(d) => d,
        QueryResponse::Config(_) => panic!("expected deposits"),
    };
    assert_eq!(SENDER, query.deposits[0].1.owner);
    assert_eq!(DENOM, query.deposits[0].1.coins.denom);
    assert_eq!(AMOUNT.to_string(), query.deposits[0].1.coins.amount.to_string());
    assert_eq!(1, query.deposits[0].1.count);
}

fn attribute_values(res: &Response) -> Vec<(String, String)> {
    res.attributes.iter().map(|a| (a.key.clone(), a.value.clone())).collect()
}

#[test]
fn _0_instantiate() {
    let mut store = Store::new();
    setup_contract(&mut store);
}

#[test]
fn _1_deposit() {
    let mut store = Store::new();
    setup_contract(&mut store);
    deposit_coins(&mut store);
}

#[test]
fn _2_query_deposit() {
    let mut store = Store::new();
    setup_contract(&mut store);
    deposit_coins(&mut store);
    query_coins(&store);
}

#[test]
fn _1_deposit_then_withdraw() {
    let mut store = Store::new();
    setup_contract(&mut store);
    deposit_coins(&mut store);
}

#[test]
fn initialize_sets_admin() {
    let mut store = Store::new();
    instantiate(&mut store, &"alice".to_string()).unwrap();
    assert_eq!(get_config(&store).unwrap().owner, "alice");
}

#[test]
fn get_config_before_initialize_fails() {
    let store = Store::new();
    assert_eq!(get_config(&store), Err(ContractError::ConfigNotFound));
    let mut store = Store::new();
    let r = execute_deposit(&mut store, &"alice".to_string(), &vec![coin(1, "a")]);
    assert_eq!(r, Err(ContractError::ConfigNotFound));
}

#[test]
fn second_initialize_fails() {
    let mut store = Store::new();
    instantiate(&mut store, &"alice".to_string()).unwrap();
    let r = instantiate(&mut store, &"bob".to_string());
    assert_eq!(r, Err(ContractError::AlreadyInitialized));
    assert_eq!(get_config(&store).unwrap().owner, "alice");
}

#[test]
fn deposits_accumulate() {
    let mut store = Store::new();
    let admin = "admin".to_string();
    instantiate(&mut store, &admin).unwrap();
    execute_deposit(&mut store, &admin, &vec![coin(30, "uatom")]).unwrap();
    execute_deposit(&mut store, &admin, &vec![coin(12, "uatom")]).unwrap();
    let list = query_deposits(&store, &admin).deposits;
    assert_eq!(list.len(), 1);
    assert_eq!(list[0].0, "uatom");
    assert_eq!(list[0].1.coins.amount, 42);
    assert_eq!(list[0].1.count, 2);
}

#[test]
fn two_assets_two_entries() {
    let mut store = Store::new();
    let admin = "admin".to_string();
    instantiate(&mut store, &admin).unwrap();
    execute_deposit(&mut store, &admin, &vec![coin(5, "uosmo")]).unwrap();
    execute_deposit(&mut store, &admin, &vec![coin(7, "uatom")]).unwrap();
    let list = query_deposits(&store, &admin).deposits;
    assert_eq!(list.len(), 2);
    assert_eq!(list[0].0, "uatom");
    assert_eq!(list[0].1.coins.amount, 7);
    assert_eq!(list[1].0, "uosmo");
    assert_eq!(list[1].1.coins.amount, 5);
}

#[test]
fn non_admin_is_refused() {
    let mut store = Store::new();
    let admin = "admin".to_string();
    let other = "mallory".to_string();
    instantiate(&mut store, &admin).unwrap();
    execute_deposit(&mut store, &admin, &vec![coin(10, "uatom")]).unwrap();
    let before = query_deposits(&store, &admin);
    assert_eq!(
        execute_deposit(&mut store, &other, &vec![coin(10, "uatom")]),
        Err(ContractError::InvalidOwner)
    );
    assert_eq!(
        execute_withdraw(&mut store, &other, 1, "uatom".to_string()),
        Err(ContractError::InvalidOwner)
    );
    assert_eq!(
        update_config(&mut store, &other, Some(Ok(other.clone()))),
        Err(ContractError::InvalidOwner)
    );
    assert_eq!(query_deposits(&store, &admin), before);
    assert_eq!(query_deposits(&store, &other).deposits.len(), 0);
    assert_eq!(get_config(&store).unwrap().owner, "admin");
}

#[test]
fn withdraw_debits_and_sends() {
    let mut store = Store::new();
    let admin = "admin".to_string();
    instantiate(&mut store, &admin).unwrap();
    execute_deposit(&mut store, &admin, &vec![coin(100, "uatom")]).unwrap();
    let res = execute_withdraw(&mut store, &admin, 40, "uatom".to_string()).unwrap();
    assert_eq!(
        attribute_values(&res),
        vec![
            ("execute".to_string(), "withdraw".to_string()),
            ("denom".to_string(), "uatom".to_string()),
            ("amount".to_string(), "40".to_string()),
        ]
    );
    assert_eq!(
        res.messages,
        vec![BankMsg::Send { to_address: admin.clone(), amount: vec![coin(40, "uatom")] }]
    );
    let list = query_deposits(&store, &admin).deposits;
    assert_eq!(list[0].1.coins.amount, 60);
    assert_eq!(list[0].1.count, 0);
}

#[test]
fn withdraw_everything_keeps_zero_entry() {
    let mut store = Store::new();
    let admin = "admin".to_string();
    instantiate(&mut store, &admin).unwrap();
    execute_deposit(&mut store, &admin, &vec![coin(9, "uatom")]).unwrap();
    execute_withdraw(&mut store, &admin, 9, "uatom".to_string()).unwrap();
    let list = query_deposits(&store, &admin).deposits;
    assert_eq!(list.len(), 1);
    assert_eq!(list[0].1.coins.amount, 0);
}

#[test]
fn withdraw_without_entry_fails() {
    let mut store = Store::new();
    let admin = "admin".to_string();
    instantiate(&mut store, &admin).unwrap();
    execute_deposit(&mut store, &admin, &vec![coin(9, "uatom")]).unwrap();
    let before = query_deposits(&store, &admin);
    let r = execute(
        &mut store,
        &admin,
        &vec![],
        ExecuteMsg::Withdraw { amount: 1, denom: "uosmo".to_string() },
    );
    assert_eq!(r, Err(ContractError::NoFunds));
    assert_eq!(query_deposits(&store, &admin), before);
}

#[test]
fn withdraw_beyond_balance_underflows() {
    let mut store = Store::new();
    let admin = "admin".to_string();
    instantiate(&mut store, &admin).unwrap();
    execute_deposit(&mut store, &admin, &vec![coin(9, "uatom")]).unwrap();
    let before = query_deposits(&store, &admin);
    let r = execute_withdraw(&mut store, &admin, 10, "uatom".to_string());
    assert_eq!(r, Err(ContractError::Underflow));
    assert_eq!(query_deposits(&store, &admin), before);
}

#[test]
fn deposit_overflow_is_an_error() {
    let mut store = Store::new();
    let admin = "admin".to_string();
    instantiate(&mut store, &admin).unwrap();
    execute_deposit(&mut store, &admin, &vec![coin(u128::MAX, "uatom")]).unwrap();
    let r = execute_deposit(&mut store, &admin, &vec![coin(1, "uatom")]);
    assert_eq!(r, Err(ContractError::Overflow));
    let list = query_deposits(&store, &admin).deposits;
    assert_eq!(list[0].1.coins.amount, u128::MAX);
    assert_eq!(list[0].1.count, 1);
}

#[test]
fn deposit_needs_exactly_one_coin() {
    let mut store = Store::new();
    let admin = "admin".to_string();
    instantiate(&mut store, &admin).unwrap();
    assert_eq!(execute_deposit(&mut store, &admin, &vec![]), Err(ContractError::OnlyOneCoin));
    assert_eq!(
        execute_deposit(&mut store, &admin, &vec![coin(1, "a"), coin(2, "b")]),
        Err(ContractError::OnlyOneCoin)
    );
    assert_eq!(query_deposits(&store, &admin).deposits.len(), 0);
}

#[test]
fn round_trip_deposit_and_list() {
    let mut store = Store::new();
    let s = SENDER.to_string();
    instantiate(&mut store, &s).unwrap();
    let res = execute_deposit(&mut store, &s, &vec![coin(100000, "utest")]).unwrap();
    assert!(res.messages.is_empty());
    let list = query_deposits(&store, &s).deposits;
    assert_eq!(list.len(), 1);
    assert_eq!(list[0].0, "utest");
    assert_eq!(list[0].1.owner, SENDER);
    assert_eq!(list[0].1.coins.denom, "utest");
    assert_eq!(list[0].1.coins.amount.to_string(), "100000");
    assert_eq!(list[0].1.count, 1);
}

#[test]
fn update_without_owner_keeps_admin() {
    let mut store = Store::new();
    let admin = "admin".to_string();
    instantiate(&mut store, &admin).unwrap();
    let res = update_config(&mut store, &admin, None).unwrap();
    assert!(res.attributes.is_empty() && res.messages.is_empty());
    assert_eq!(get_config(&store).unwrap().owner, "admin");
}

#[test]
fn update_changes_admin() {
    let mut store = Store::new();
    let admin = "admin".to_string();
    let next = "next".to_string();
    instantiate(&mut store, &admin).unwrap();
    let r = execute(&mut store, &admin, &vec![], ExecuteMsg::UpdateConfig { owner: Some(Ok(next.clone())) });
    assert!(r.is_ok());
    assert_eq!(get_config(&store).unwrap().owner, "next");
    assert_eq!(
        execute_deposit(&mut store, &admin, &vec![coin(1, "a")]),
        Err(ContractError::InvalidOwner)
    );
    assert!(execute_deposit(&mut store, &next, &vec![coin(1, "a")]).is_ok());
}

#[test]
fn update_with_invalid_address_fails() {
    let mut store = Store::new();
    let admin = "admin".to_string();
    instantiate(&mut store, &admin).unwrap();
    let r = update_config(&mut store, &admin, Some(Err("bad address".to_string())));
    assert_eq!(r, Err(ContractError::InvalidAddress { msg: "bad address".to_string() }));
    assert_eq!(get_config(&store).unwrap().owner, "admin");
}

#[test]
fn listing_is_ascending_whatever_the_order() {
    let admin = "admin".to_string();
    let mut a = Store::new();
    instantiate(&mut a, &admin).unwrap();
    for d in ["zeta", "alpha", "mid", "Beta", "alphabet"] {
        execute_deposit(&mut a, &admin, &vec![coin(1, d)]).unwrap();
    }
    let mut b = Store::new();
    instantiate(&mut b, &admin).unwrap();
    for d in ["alphabet", "mid", "zeta", "Beta", "alpha"] {
        execute_deposit(&mut b, &admin, &vec![coin(1, d)]).unwrap();
    }
    let la = query_deposits(&a, &admin).deposits;
    let names: Vec<&str> = la.iter().map(|e| e.0.as_str()).collect();
    assert_eq!(names, vec!["Beta", "alpha", "alphabet", "mid", "zeta"]);
    assert_eq!(la, query_deposits(&b, &admin).deposits);
}

#[test]
fn query_get_config_and_empty_listing() {
    let mut store = Store::new();
    instantiate(&mut store, &"admin".to_string()).unwrap();
    match query(&store, QueryMsg::GetConfig).unwrap() {
        QueryResponse::Config(c) => assert_eq!(c.owner, "admin"),
        QueryResponse::Deposits(_) => panic!("expected config"),
    }
    assert_eq!(query_deposits(&store, &"nobody".to_string()).deposits.len(), 0);
}

#[test]
fn deposit_reports_amount_in_decimal() {
    let mut store = Store::new();
    let admin = "admin".to_string();
    instantiate(&mut store, &admin).unwrap();
    let res = execute_deposit(&mut store, &admin, &vec![coin(1234567890123, "uatom")]).unwrap();
    assert_eq!(
        attribute_values(&res),
        vec![
            ("execute".to_string(), "deposit".to_string()),
            ("denom".to_string(), "uatom".to_string()),
            ("amount".to_string(), "1234567890123".to_string()),
        ]
    );
}
