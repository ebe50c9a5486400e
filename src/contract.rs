//! The accounting engine and the query engine.
//!
//! Every operation is first stated as a spec function from the model of the
//! store to the model after it (or to the error it fails with); the
//! executable operation is proved to follow it. A failed operation leaves
//! the store as it was.
//!
//! Authorization follows the administrator-only policy: deposits, withdrawals
//! and configuration updates are all reserved to the account in the
//! administrator record. Arithmetic that would overflow or underflow fails
//! with a typed error instead of aborting. A withdrawal that empties an entry
//! keeps the entry, at zero.
use vstd::prelude::*;
use crate::order::{str_lt, str_less, lemma_str_lt_total, lemma_str_lt_transitive};
use crate::state::{
    Coin, Config, Deposits, EntryView, Key, keys_distinct, ledger_of, lemma_ledger_at,
    lemma_ledger_push, lemma_ledger_update,
};

verus! {

/// Why an operation failed.
#[derive(Clone, Debug, PartialEq, Eq)]
pub enum ContractError {
    /// A deposit must carry exactly one coin.
    OnlyOneCoin,
    /// The caller is not the administrator.
    InvalidOwner,
    /// There is no entry for the asset to withdraw.
    NoFunds,
    /// The new administrator's address was rejected; the message says why.
    InvalidAddress { msg: String },
    /// The administrator record does not exist yet.
    ConfigNotFound,
    /// The administrator record exists already.
    AlreadyInitialized,
    /// A sum does not fit its type.
    Overflow,
    /// A difference would fall below the type's range.
    Underflow,
}

/// A key and value reported by an operation.
#[derive(Clone, Debug, PartialEq, Eq)]
pub struct Attribute {
    pub key: String,
    pub value: String,
}

/// A transfer of funds for the host to carry out once the operation succeeded.
#[derive(Clone, Debug, PartialEq, Eq)]
pub enum BankMsg {
    Send { to_address: String, amount: Vec<Coin> },
}

/// What a successful operation returns.
#[derive(Clone, Debug, PartialEq, Eq)]
pub struct Response {
    pub attributes: Vec<Attribute>,
    pub messages: Vec<BankMsg>,
}

/// The balances of one account, by asset.
#[derive(Clone, Debug, PartialEq, Eq)]
pub struct DepositResponse {
    pub deposits: Vec<(String, Deposits)>,
}

/// The state-changing requests.
#[derive(Clone, Debug, PartialEq, Eq)]
pub enum ExecuteMsg {
    Deposit,
    Withdraw { amount: u128, denom: String },
    /// `owner` is the requested new administrator, already put through the
    /// host's address validation: `Ok` with the validated address, or `Err`
    /// with the reason it was rejected.
    UpdateConfig { owner: Option<Result<String, String>> },
}

/// The read-only requests.
#[derive(Clone, Debug, PartialEq, Eq)]
pub enum QueryMsg {
    Deposits { address: String },
    GetConfig,
}

/// What a query returns.
#[derive(Clone, Debug, PartialEq, Eq)]
pub enum QueryResponse {
    Deposits(DepositResponse),
    Config(Config),
}

/// The model of the store: the administrator, if any, and the ledger.
pub struct StoreView {
    pub admin: Option<Seq<char>>,
    pub ledger: Map<Key, EntryView>,
}

/// The contract's storage: the administrator record and the ledger.
pub struct Store {
    config: Option<Config>,
    deposits: Vec<Deposits>,
}

impl View for Store {
    type V = StoreView;

    closed spec fn view(&self) -> StoreView {
        StoreView { admin: admin_of(self.config), ledger: ledger_of(self.deposits@) }
    }
}

/// The decimal digits of `n`, most significant first, without leading zeros.
pub open spec fn decimal(n: nat) -> Seq<char>
    decreases n,
{
    let digits = seq!['0', '1', '2', '3', '4', '5', '6', '7', '8', '9'];
    if n < 10 {
        seq![digits[n as int]]
    } else {
        decimal(n / 10).push(digits[(n % 10) as int])
    }
}

/// Relies on `u128::to_string`, that is `Display` for integers: the decimal
/// digits, without sign or leading zeros.
#[verifier::external_body]
fn amount_string(n: u128) -> (r: String)
    ensures
        r@ == decimal(n as nat),
{
    n.to_string()
}

pub open spec fn is_attribute(a: Attribute, key: Seq<char>, value: Seq<char>) -> bool {
    a.key@ == key && a.value@ == value
}

/// The three attributes that deposit and withdraw report.
pub open spec fn reports(r: Response, op: Seq<char>, denom: Seq<char>, amount: u128) -> bool {
    &&& r.attributes@.len() == 3
    &&& is_attribute(r.attributes@[0], "execute"@, op)
    &&& is_attribute(r.attributes@[1], "denom"@, denom)
    &&& is_attribute(r.attributes@[2], "amount"@, decimal(amount as nat))
}

/// `m` sends `amount` of `denom` to `to`, as one coin.
pub open spec fn is_transfer(m: BankMsg, to: Seq<char>, denom: Seq<char>, amount: u128) -> bool {
    match m {
        BankMsg::Send { to_address, amount: coins } => {
            &&& to_address@ == to
            &&& coins@.len() == 1
            &&& coins@[0].denom@ == denom
            &&& coins@[0].amount == amount
        },
    }
}

/// The response of a deposit: its attributes and no transfer.
pub open spec fn is_deposit_response(r: Response, denom: Seq<char>, amount: u128) -> bool {
    reports(r, "deposit"@, denom, amount) && r.messages@.len() == 0
}

/// The response of a withdrawal: its attributes and exactly one transfer,
/// of the withdrawn amount to the caller.
pub open spec fn is_withdraw_response(
    r: Response,
    to: Seq<char>,
    denom: Seq<char>,
    amount: u128,
) -> bool {
    &&& reports(r, "withdraw"@, denom, amount)
    &&& r.messages@.len() == 1
    &&& is_transfer(r.messages@[0], to, denom, amount)
}

/// A response with nothing to report.
pub open spec fn is_empty_response(r: Response) -> bool {
    r.attributes@.len() == 0 && r.messages@.len() == 0
}

/// The store right after creation: nothing in it.
pub open spec fn empty_store() -> StoreView {
    StoreView { admin: None, ledger: Map::empty() }
}

/// Initialization makes the caller the administrator.
pub open spec fn instantiate_spec(s: StoreView, sender: Seq<char>) -> Result<StoreView, ContractError> {
    if s.admin is Some {
        Err(ContractError::AlreadyInitialized)
    } else {
        Ok(StoreView { admin: Some(sender), ..s })
    }
}

/// The administrator, where there is one.
pub open spec fn get_config_spec(s: StoreView) -> Result<Seq<char>, ContractError> {
    match s.admin {
        Some(a) => Ok(a),
        None => Err(ContractError::ConfigNotFound),
    }
}

/// The error that the administrator check gives `sender`, if any.
pub open spec fn admin_check(s: StoreView, sender: Seq<char>) -> Option<ContractError> {
    match s.admin {
        None => Some(ContractError::ConfigNotFound),
        Some(a) => if a != sender {
            Some(ContractError::InvalidOwner)
        } else {
            None
        },
    }
}

/// A deposit of the one coin attached to the call.
pub open spec fn deposit_spec(s: StoreView, sender: Seq<char>, funds: Seq<Coin>) -> Result<StoreView, ContractError> {
    if funds.len() != 1 {
        Err(ContractError::OnlyOneCoin)
    } else if admin_check(s, sender) is Some {
        Err(admin_check(s, sender)->0)
    } else {
        let k = (sender, funds[0].denom@);
        let amount = funds[0].amount;
        if s.ledger.contains_key(k) {
            let e = s.ledger[k];
            if e.amount + amount > u128::MAX || e.count == i32::MAX {
                Err(ContractError::Overflow)
            } else {
                Ok(StoreView {
                    ledger: s.ledger.insert(k, EntryView {
                        count: (e.count + 1) as i32,
                        amount: (e.amount + amount) as u128,
                        ..e
                    }),
                    ..s
                })
            }
        } else {
            Ok(StoreView {
                ledger: s.ledger.insert(k, EntryView {
                    count: 1,
                    owner: sender,
                    denom: funds[0].denom@,
                    amount,
                }),
                ..s
            })
        }
    }
}

/// A withdrawal of `amount` of `denom` back to the caller.
pub open spec fn withdraw_spec(s: StoreView, sender: Seq<char>, amount: u128, denom: Seq<char>) -> Result<StoreView, ContractError> {
    if admin_check(s, sender) is Some {
        Err(admin_check(s, sender)->0)
    } else if !s.ledger.contains_key((sender, denom)) {
        Err(ContractError::NoFunds)
    } else {
        let e = s.ledger[(sender, denom)];
        if e.amount < amount || e.count == i32::MIN {
            Err(ContractError::Underflow)
        } else {
            Ok(StoreView {
                ledger: s.ledger.insert((sender, denom), EntryView {
                    count: (e.count - 1) as i32,
                    amount: (e.amount - amount) as u128,
                    ..e
                }),
                ..s
            })
        }
    }
}

/// A change of administrator; `owner` is the outcome of validating the
/// requested address, and `None` leaves the record as it is.
pub open spec fn update_config_spec(s: StoreView, sender: Seq<char>, owner: Option<Result<String, String>>) -> Result<StoreView, ContractError> {
    if admin_check(s, sender) is Some {
        Err(admin_check(s, sender)->0)
    } else {
        match owner {
            None => Ok(s),
            Some(Ok(a)) => Ok(StoreView { admin: Some(a@), ..s }),
            Some(Err(m)) => Err(ContractError::InvalidAddress { msg: m }),
        }
    }
}

/// `r` lists the entries of `account` in `ledger`: each under its asset,
/// strictly ascending by asset, and none left out.
pub open spec fn is_listing(ledger: Map<Key, EntryView>, account: Seq<char>, r: Seq<(String, Deposits)>) -> bool {
    &&& ascending(r)
    &&& forall|i: int| #![trigger r[i]] 0 <= i < r.len() ==> {
        &&& r[i].0@ == r[i].1.coins.denom@
        &&& r[i].1.owner@ == account
        &&& ledger.contains_key((account, r[i].0@))
        &&& ledger[(account, r[i].0@)] == r[i].1.entry()
    }
    &&& forall|d: Seq<char>| #[trigger] ledger.contains_key((account, d)) ==> exists|i: int| 0 <= i < r.len() && r[i].0@ == d
}

impl Store {
    pub closed spec fn wf(&self) -> bool {
        keys_distinct(self.deposits@)
    }

    /// An empty store: no administrator, no entries.
    pub fn new() -> (r: Store)
        ensures
            r.wf(),
            r@ == empty_store(),
    {
        let r = Store { config: None, deposits: Vec::new() };
        assert(r@.ledger =~= Map::empty());
        r
    }
}

/// The admin model of an optional configuration.
pub open spec fn admin_of(config: Option<Config>) -> Option<Seq<char>> {
    match config {
        Some(c) => Some(c.owner@),
        None => None,
    }
}

fn same_key(a: &Deposits, b: &Deposits) -> (r: bool)
    ensures
        r == (a.key() == b.key()),
{
    a.owner == b.owner && a.coins.denom == b.coins.denom
}

impl Store {
    /// A store made of saved records, or `None` where two entries share an
    /// account and an asset.
    pub fn from_parts(config: Option<Config>, deposits: Vec<Deposits>) -> (r: Option<Store>)
        ensures
            match r {
                Some(st) => st.wf() && st@ == (StoreView { admin: admin_of(config), ledger: ledger_of(deposits@) }),
                None => !keys_distinct(deposits@),
            },
    {
        let n = deposits.len();
        let mut i: usize = 0;
        while i < n
            invariant
                n == deposits@.len(),
                i <= n,
                forall|a: int, b: int| 0 <= a < i && 0 <= b < n && a != b ==> deposits@[a].key() != deposits@[b].key(),
            decreases n - i,
        {
            let mut j: usize = 0;
            while j < n
                invariant
                    n == deposits@.len(),
                    i < n,
                    j <= n,
                    forall|b: int| 0 <= b < j && b != i ==> deposits@[i as int].key() != deposits@[b].key(),
                decreases n - j,
            {
                if j != i && same_key(&deposits[i], &deposits[j]) {
                    return None;
                }
                j = j + 1;
            }
            i = i + 1;
        }
        let st = Store { config, deposits };
        Some(st)
    }

    /// The entries of the ledger, for saving.
    pub fn entries(&self) -> (r: Vec<Deposits>)
        requires
            self.wf(),
        ensures
            keys_distinct(r@),
            ledger_of(r@) == self@.ledger,
    {
        let mut r: Vec<Deposits> = Vec::new();
        let mut i: usize = 0;
        while i < self.deposits.len()
            invariant
                i <= self.deposits@.len(),
                r@ == self.deposits@.subrange(0, i as int),
            decreases self.deposits@.len() - i,
        {
            r.push(self.deposits[i].duplicate());
            i = i + 1;
            assert(r@ =~= self.deposits@.subrange(0, i as int));
        }
        assert(r@ =~= self.deposits@);
        r
    }
}

impl Response {
    /// A response with nothing to report.
    pub fn new() -> (r: Response)
        ensures
            is_empty_response(r),
    {
        Response { attributes: Vec::new(), messages: Vec::new() }
    }
}

/// Makes the caller the administrator.
pub fn instantiate(store: &mut Store, sender: &String) -> (r: Result<Response, ContractError>)
    requires
        old(store).wf(),
    ensures
        final(store).wf(),
        match r {
            Ok(resp) => instantiate_spec(old(store)@, sender@) == Ok::<StoreView, ContractError>(final(store)@)
                && is_empty_response(resp),
            Err(e) => instantiate_spec(old(store)@, sender@) == Err::<StoreView, ContractError>(e)
                && final(store)@ == old(store)@,
        },
{
    if store.config.is_some() {
        return Err(ContractError::AlreadyInitialized);
    }
    store.config = Some(Config { owner: sender.clone() });
    Ok(Response::new())
}

/// The administrator record.
pub fn get_config(store: &Store) -> (r: Result<Config, ContractError>)
    ensures
        match r {
            Ok(c) => get_config_spec(store@) == Ok::<Seq<char>, ContractError>(c.owner@),
            Err(e) => get_config_spec(store@) == Err::<Seq<char>, ContractError>(e),
        },
{
    match &store.config {
        Some(c) => Ok(Config { owner: c.owner.clone() }),
        None => Err(ContractError::ConfigNotFound),
    }
}

/// Fails as `admin_check` says.
fn check_admin(store: &Store, sender: &String) -> (r: Result<(), ContractError>)
    ensures
        match r {
            Ok(_) => admin_check(store@, sender@) is None,
            Err(e) => admin_check(store@, sender@) == Some(e),
        },
{
    match &store.config {
        None => Err(ContractError::ConfigNotFound),
        Some(c) => if c.owner != *sender {
            Err(ContractError::InvalidOwner)
        } else {
            Ok(())
        },
    }
}

/// Replaces the administrator, or leaves the record as it is when `owner`
/// is `None`. Only the administrator may do this.
pub fn update_config(store: &mut Store, sender: &String, owner: Option<Result<String, String>>) -> (r: Result<Response, ContractError>)
    requires
        old(store).wf(),
    ensures
        final(store).wf(),
        match r {
            Ok(resp) => update_config_spec(old(store)@, sender@, owner) == Ok::<StoreView, ContractError>(final(store)@)
                && is_empty_response(resp),
            Err(e) => update_config_spec(old(store)@, sender@, owner) == Err::<StoreView, ContractError>(e)
                && final(store)@ == old(store)@,
        },
{
    match check_admin(store, sender) {
        Err(e) => return Err(e),
        Ok(_) => {},
    }
    match owner {
        None => {},
        Some(Ok(a)) => {
            store.config = Some(Config { owner: a });
        },
        Some(Err(m)) => {
            return Err(ContractError::InvalidAddress { msg: m });
        },
    }
    Ok(Response::new())
}

fn attribute(key: &str, value: String) -> (r: Attribute)
    ensures
        is_attribute(r, key@, value@),
{
    Attribute { key: String::from_str(key), value }
}

/// The attributes that deposit and withdraw report, and no transfer yet.
fn report(op: &str, denom: &String, amount: u128) -> (r: Response)
    ensures
        reports(r, op@, denom@, amount),
        r.messages@.len() == 0,
{
    let mut attributes: Vec<Attribute> = Vec::new();
    attributes.push(attribute("execute", String::from_str(op)));
    attributes.push(attribute("denom", denom.clone()));
    attributes.push(attribute("amount", amount_string(amount)));
    Response { attributes, messages: Vec::new() }
}

/// The position of the entry of `owner` for `denom`, if there is one.
fn find_entry(deposits: &Vec<Deposits>, owner: &String, denom: &String) -> (r: Option<usize>)
    ensures
        match r {
            Some(i) => i < deposits@.len() && deposits@[i as int].key() == (owner@, denom@),
            None => forall|i: int| 0 <= i < deposits@.len() ==> deposits@[i].key() != (owner@, denom@),
        },
{
    let mut i: usize = 0;
    while i < deposits.len()
        invariant
            i <= deposits@.len(),
            forall|j: int| 0 <= j < i ==> deposits@[j].key() != (owner@, denom@),
        decreases deposits@.len() - i,
    {
        if deposits[i].owner == *owner && deposits[i].coins.denom == *denom {
            return Some(i);
        }
        i = i + 1;
    }
    None
}

/// Credits the one coin attached to the call to the caller's entry for its
/// asset, creating the entry at the first deposit. Only the administrator
/// may deposit.
pub fn execute_deposit(store: &mut Store, sender: &String, funds: &Vec<Coin>) -> (r: Result<Response, ContractError>)
    requires
        old(store).wf(),
    ensures
        final(store).wf(),
        match r {
            Ok(resp) => deposit_spec(old(store)@, sender@, funds@) == Ok::<StoreView, ContractError>(final(store)@)
                && is_deposit_response(resp, funds@[0].denom@, funds@[0].amount),
            Err(e) => deposit_spec(old(store)@, sender@, funds@) == Err::<StoreView, ContractError>(e)
                && final(store)@ == old(store)@,
        },
{
    if funds.len() != 1 {
        return Err(ContractError::OnlyOneCoin);
    }
    match check_admin(store, sender) {
        Err(e) => return Err(e),
        Ok(_) => {},
    }
    let coin = &funds[0];
    let ghost before = store.deposits@;
    match find_entry(&store.deposits, sender, &coin.denom) {
        Some(i) => {
            proof {
                lemma_ledger_at(before, i as int);
            }
            let current = &store.deposits[i];
            let amount = match current.coins.amount.checked_add(coin.amount) {
                Some(a) => a,
                None => return Err(ContractError::Overflow),
            };
            let count = match current.count.checked_add(1) {
                Some(c) => c,
                None => return Err(ContractError::Overflow),
            };
            let entry = Deposits {
                count,
                owner: current.owner.clone(),
                coins: Coin { denom: current.coins.denom.clone(), amount },
            };
            proof {
                lemma_ledger_update(before, i as int, entry);
            }
            store.deposits.set(i, entry);
        },
        None => {
            let entry = Deposits {
                count: 1,
                owner: sender.clone(),
                coins: Coin { denom: coin.denom.clone(), amount: coin.amount },
            };
            proof {
                if ledger_of(before).contains_key(entry.key()) {
                    let j = choose|j: int| 0 <= j < before.len() && before[j].key() == entry.key();
                }
                lemma_ledger_push(before, entry);
            }
            store.deposits.push(entry);
        },
    }
    Ok(report("deposit", &coin.denom, coin.amount))
}

/// Debits `amount` of `denom` from the caller's entry and sends it back to
/// the caller. The entry stays, at zero if emptied. Only the administrator
/// may withdraw.
pub fn execute_withdraw(store: &mut Store, sender: &String, amount: u128, denom: String) -> (r: Result<Response, ContractError>)
    requires
        old(store).wf(),
    ensures
        final(store).wf(),
        match r {
            Ok(resp) => withdraw_spec(old(store)@, sender@, amount, denom@) == Ok::<StoreView, ContractError>(final(store)@)
                && is_withdraw_response(resp, sender@, denom@, amount),
            Err(e) => withdraw_spec(old(store)@, sender@, amount, denom@) == Err::<StoreView, ContractError>(e)
                && final(store)@ == old(store)@,
        },
{
    match check_admin(store, sender) {
        Err(e) => return Err(e),
        Ok(_) => {},
    }
    let ghost before = store.deposits@;
    let i = match find_entry(&store.deposits, sender, &denom) {
        Some(i) => i,
        None => {
            proof {
                if ledger_of(before).contains_key((sender@, denom@)) {
                    let j = choose|j: int| 0 <= j < before.len() && before[j].key() == (sender@, denom@);
                }
            }
            return Err(ContractError::NoFunds);
        },
    };
    proof {
        lemma_ledger_at(before, i as int);
    }
    let current = &store.deposits[i];
    let remaining = match current.coins.amount.checked_sub(amount) {
        Some(a) => a,
        None => return Err(ContractError::Underflow),
    };
    let count = match current.count.checked_sub(1) {
        Some(c) => c,
        None => return Err(ContractError::Underflow),
    };
    let entry = Deposits {
        count,
        owner: current.owner.clone(),
        coins: Coin { denom: current.coins.denom.clone(), amount: remaining },
    };
    proof {
        lemma_ledger_update(before, i as int, entry);
    }
    store.deposits.set(i, entry);
    let mut resp = report("withdraw", &denom, amount);
    let mut coins: Vec<Coin> = Vec::new();
    coins.push(Coin { denom: denom.clone(), amount });
    resp.messages.push(BankMsg::Send { to_address: sender.clone(), amount: coins });
    Ok(resp)
}

/// Asset names strictly ascending.
pub open spec fn ascending(r: Seq<(String, Deposits)>) -> bool {
    forall|i: int, j: int| 0 <= i < j < r.len() ==> str_lt(r[i].0@, r[j].0@)
}

/// Inserts `item` where it keeps `out` ascending, and says where.
fn insert_ascending(out: &mut Vec<(String, Deposits)>, item: (String, Deposits)) -> (pos: usize)
    requires
        ascending(old(out)@),
        forall|j: int| 0 <= j < old(out)@.len() ==> old(out)@[j].0@ != item.0@,
    ensures
        pos <= old(out)@.len(),
        final(out)@ == old(out)@.insert(pos as int, item),
        ascending(final(out)@),
{
    let mut pos: usize = 0;
    while pos < out.len()
        invariant
            pos <= out@.len(),
            forall|j: int| 0 <= j < pos ==> !str_lt(item.0@, out@[j].0@),
        ensures
            pos <= out@.len(),
            forall|j: int| 0 <= j < pos ==> !str_lt(item.0@, out@[j].0@),
            pos < out@.len() ==> str_lt(item.0@, out@[pos as int].0@),
        decreases out@.len() - pos,
    {
        if str_less(item.0.as_str(), out[pos].0.as_str()) {
            break;
        }
        pos = pos + 1;
    }
    let ghost before = out@;
    let ghost x = item.0@;
    out.insert(pos, item);
    proof {
        assert forall|a: int, b: int| 0 <= a < b < out@.len() implies str_lt(out@[a].0@, out@[b].0@) by {
            if a < pos && b == pos {
                lemma_str_lt_total(before[a].0@, x);
            } else if a < pos && b > pos {
                assert(out@[b] == before[b - 1]);
            } else if a == pos && b > pos {
                assert(out@[b] == before[b - 1]);
                if b - 1 > pos {
                    lemma_str_lt_transitive(x, before[pos as int].0@, before[b - 1].0@);
                }
            } else if a > pos {
                assert(out@[a] == before[a - 1]);
                assert(out@[b] == before[b - 1]);
            }
        }
    }
    pos
}

/// The entries of `address`, ascending by asset; empty when it has none.
pub fn query_deposits(store: &Store, address: &String) -> (r: DepositResponse)
    requires
        store.wf(),
    ensures
        is_listing(store@.ledger, address@, r.deposits@),
{
    let ghost s = store.deposits@;
    let ghost account = address@;
    let mut out: Vec<(String, Deposits)> = Vec::new();
    let ghost mut src: Seq<int> = Seq::empty();
    let mut i: usize = 0;
    while i < store.deposits.len()
        invariant
            s == store.deposits@,
            account == address@,
            keys_distinct(s),
            i <= s.len(),
            src.len() == out@.len(),
            ascending(out@),
            forall|j: int| 0 <= j < out@.len() ==> {
                &&& 0 <= src[j] < i
                &&& out@[j].1 == s[src[j]]
                &&& out@[j].0@ == s[src[j]].coins.denom@
                &&& s[src[j]].owner@ == account
            },
            forall|k: int| 0 <= k < i && s[k].owner@ == account ==> exists|j: int|
                0 <= j < out@.len() && #[trigger] out@[j].0@ == s[k].coins.denom@,
        decreases s.len() - i,
    {
        let d = &store.deposits[i];
        if d.owner == *address {
            let ghost old_out = out@;
            let ghost old_src = src;
            proof {
                assert forall|j: int| 0 <= j < old_out.len() implies old_out[j].0@ != d.coins.denom@ by {
                    let k = old_src[j];
                    assert(old_out[j] == out@[j]);
                    assert(s[k].key() != s[i as int].key());
                }
            }
            let pos = insert_ascending(&mut out, (d.coins.denom.clone(), d.duplicate()));
            proof {
                src = old_src.insert(pos as int, i as int);
                assert forall|k: int| 0 <= k < i + 1 && s[k].owner@ == account implies exists|j: int|
                    0 <= j < out@.len() && #[trigger] out@[j].0@ == s[k].coins.denom@ by {
                    if k == i {
                        assert(out@[pos as int].0@ == s[k].coins.denom@);
                    } else {
                        let j = choose|j: int| 0 <= j < old_out.len() && #[trigger] old_out[j].0@ == s[k].coins.denom@;
                        if j < pos {
                            assert(out@[j] == old_out[j]);
                        } else {
                            assert(out@[j + 1] == old_out[j]);
                        }
                    }
                }
                assert forall|j: int| 0 <= j < out@.len() implies {
                    &&& 0 <= src[j] < i + 1
                    &&& out@[j].1 == s[src[j]]
                    &&& out@[j].0@ == s[src[j]].coins.denom@
                    &&& s[src[j]].owner@ == account
                } by {
                    if j < pos {
                        assert(out@[j] == old_out[j]);
                    } else if j > pos {
                        assert(out@[j] == old_out[j - 1]);
                    }
                }
            }
        }
        i = i + 1;
    }
    proof {
        assert forall|j: int| 0 <= j < out@.len() implies {
            &&& out@[j].0@ == out@[j].1.coins.denom@
            &&& out@[j].1.owner@ == account
            &&& ledger_of(s).contains_key((account, out@[j].0@))
            &&& ledger_of(s)[(account, out@[j].0@)] == out@[j].1.entry()
        } by {
            lemma_ledger_at(s, src[j]);
        }
        assert forall|d: Seq<char>| #[trigger] ledger_of(s).contains_key((account, d)) implies exists|j: int|
            0 <= j < out@.len() && out@[j].0@ == d by {
            let k = choose|k: int| 0 <= k < s.len() && s[k].key() == (account, d);
            assert(s[k].owner@ == account);
        }
    }
    DepositResponse { deposits: out }
}

/// Routes a state-changing request to its operation.
pub fn execute(store: &mut Store, sender: &String, funds: &Vec<Coin>, msg: ExecuteMsg) -> (r: Result<Response, ContractError>)
    requires
        old(store).wf(),
    ensures
        final(store).wf(),
        match msg {
            ExecuteMsg::Deposit => match r {
                Ok(resp) => deposit_spec(old(store)@, sender@, funds@) == Ok::<StoreView, ContractError>(final(store)@)
                    && is_deposit_response(resp, funds@[0].denom@, funds@[0].amount),
                Err(e) => deposit_spec(old(store)@, sender@, funds@) == Err::<StoreView, ContractError>(e)
                    && final(store)@ == old(store)@,
            },
            ExecuteMsg::Withdraw { amount, denom } => match r {
                Ok(resp) => withdraw_spec(old(store)@, sender@, amount, denom@) == Ok::<StoreView, ContractError>(final(store)@)
                    && is_withdraw_response(resp, sender@, denom@, amount),
                Err(e) => withdraw_spec(old(store)@, sender@, amount, denom@) == Err::<StoreView, ContractError>(e)
                    && final(store)@ == old(store)@,
            },
            ExecuteMsg::UpdateConfig { owner } => match r {
                Ok(resp) => update_config_spec(old(store)@, sender@, owner) == Ok::<StoreView, ContractError>(final(store)@)
                    && is_empty_response(resp),
                Err(e) => update_config_spec(old(store)@, sender@, owner) == Err::<StoreView, ContractError>(e)
                    && final(store)@ == old(store)@,
            },
        },
{
    match msg {
        ExecuteMsg::Deposit => execute_deposit(store, sender, funds),
        ExecuteMsg::Withdraw { amount, denom } => execute_withdraw(store, sender, amount, denom),
        ExecuteMsg::UpdateConfig { owner } => update_config(store, sender, owner),
    }
}

/// Routes a read-only request to its query.
pub fn query(store: &Store, msg: QueryMsg) -> (r: Result<QueryResponse, ContractError>)
    requires
        store.wf(),
    ensures
        match msg {
            QueryMsg::Deposits { address } => match r {
                Ok(QueryResponse::Deposits(d)) => is_listing(store@.ledger, address@, d.deposits@),
                _ => false,
            },
            QueryMsg::GetConfig => match r {
                Ok(QueryResponse::Config(c)) => get_config_spec(store@) == Ok::<Seq<char>, ContractError>(c.owner@),
                Ok(_) => false,
                Err(e) => get_config_spec(store@) == Err::<Seq<char>, ContractError>(e),
            },
        },
{
    match msg {
        QueryMsg::Deposits { address } => Ok(QueryResponse::Deposits(query_deposits(store, &address))),
        QueryMsg::GetConfig => match get_config(store) {
            Ok(c) => Ok(QueryResponse::Config(c)),
            Err(e) => Err(e),
        },
    }
}

} // verus!
