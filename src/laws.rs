//! Properties of the accounting engine that relate several operations.
use vstd::prelude::*;
use crate::contract::{
    ContractError, StoreView, deposit_spec, get_config_spec, instantiate_spec, is_listing,
    update_config_spec, withdraw_spec,
};
use crate::order::{str_lt, lemma_str_lt_irreflexive, lemma_str_lt_transitive};
use crate::state::{Coin, Deposits, EntryView, Key};

verus! {

/// After initialization by `a`, the administrator is `a`.
pub proof fn lemma_initialize_then_get_admin(s: StoreView, a: Seq<char>)
    requires
        s.admin is None,
    ensures
        instantiate_spec(s, a) is Ok,
        get_config_spec(instantiate_spec(s, a)->Ok_0) == Ok::<Seq<char>, ContractError>(a),
{
}

/// Two deposits of one asset by the administrator, on an account that held
/// none of it, leave one entry for it: the sum of both amounts, counted twice.
pub proof fn lemma_deposits_accumulate(s: StoreView, admin: Seq<char>, x: Coin, y: Coin)
    requires
        s.admin == Some(admin),
        x.denom@ == y.denom@,
        !s.ledger.contains_key((admin, x.denom@)),
        x.amount + y.amount <= u128::MAX,
    ensures
        deposit_spec(s, admin, seq![x]) is Ok,
        deposit_spec(deposit_spec(s, admin, seq![x])->Ok_0, admin, seq![y]) is Ok,
        ({
            let k = (admin, x.denom@);
            let after = deposit_spec(deposit_spec(s, admin, seq![x])->Ok_0, admin, seq![y])->Ok_0;
            &&& after.ledger.dom() == s.ledger.dom().insert(k)
            &&& after.ledger[k].amount == x.amount + y.amount
            &&& after.ledger[k].count == 2
            &&& after.ledger[k].owner == admin
        }),
{
    let k = (admin, x.denom@);
    let mid = deposit_spec(s, admin, seq![x])->Ok_0;
    assert(mid.ledger.contains_key(k));
    let after = deposit_spec(mid, admin, seq![y])->Ok_0;
    assert(after.ledger.dom() =~= s.ledger.dom().insert(k));
}

/// Deposits of two different assets by the administrator, on an account that
/// held neither, leave two entries, and every listing of the account shows both.
pub proof fn lemma_two_assets_two_entries(s: StoreView, admin: Seq<char>, x: Coin, y: Coin)
    requires
        s.admin == Some(admin),
        x.denom@ != y.denom@,
        !s.ledger.contains_key((admin, x.denom@)),
        !s.ledger.contains_key((admin, y.denom@)),
    ensures
        deposit_spec(s, admin, seq![x]) is Ok,
        deposit_spec(deposit_spec(s, admin, seq![x])->Ok_0, admin, seq![y]) is Ok,
        ({
            let after = deposit_spec(deposit_spec(s, admin, seq![x])->Ok_0, admin, seq![y])->Ok_0;
            &&& after.ledger[(admin, x.denom@)] == (EntryView { count: 1, owner: admin, denom: x.denom@, amount: x.amount })
            &&& after.ledger[(admin, y.denom@)] == (EntryView { count: 1, owner: admin, denom: y.denom@, amount: y.amount })
            &&& forall|r: Seq<(String, Deposits)>| is_listing(after.ledger, admin, r) ==> {
                &&& exists|i: int| 0 <= i < r.len() && r[i].0@ == x.denom@
                &&& exists|i: int| 0 <= i < r.len() && r[i].0@ == y.denom@
            }
        }),
{
    let mid = deposit_spec(s, admin, seq![x])->Ok_0;
    let after = deposit_spec(mid, admin, seq![y])->Ok_0;
    assert(after.ledger.contains_key((admin, x.denom@)));
    assert(after.ledger.contains_key((admin, y.denom@)));
}

/// Deposit, withdraw and update by anyone but the administrator fail as
/// unauthorized (and a failed operation leaves the store as it was).
pub proof fn lemma_only_admin(
    s: StoreView,
    sender: Seq<char>,
    funds: Seq<Coin>,
    amount: u128,
    denom: Seq<char>,
    owner: Option<Result<String, String>>,
)
    requires
        s.admin is Some,
        s.admin->0 != sender,
        funds.len() == 1,
    ensures
        deposit_spec(s, sender, funds) == Err::<StoreView, ContractError>(ContractError::InvalidOwner),
        withdraw_spec(s, sender, amount, denom) == Err::<StoreView, ContractError>(ContractError::InvalidOwner),
        update_config_spec(s, sender, owner) == Err::<StoreView, ContractError>(ContractError::InvalidOwner),
{
}

/// A withdrawal within the balance lowers that entry's amount by exactly the
/// amount withdrawn and changes nothing else but its count.
pub proof fn lemma_withdraw_debits(s: StoreView, admin: Seq<char>, amount: u128, denom: Seq<char>)
    requires
        s.admin == Some(admin),
        s.ledger.contains_key((admin, denom)),
        amount <= s.ledger[(admin, denom)].amount,
        s.ledger[(admin, denom)].count > i32::MIN,
    ensures
        withdraw_spec(s, admin, amount, denom) is Ok,
        ({
            let k = (admin, denom);
            let after = withdraw_spec(s, admin, amount, denom)->Ok_0;
            &&& after.admin == s.admin
            &&& after.ledger.dom() == s.ledger.dom()
            &&& after.ledger[k].amount == s.ledger[k].amount - amount
            &&& after.ledger[k].count == s.ledger[k].count - 1
            &&& forall|k2| k2 != k && #[trigger] s.ledger.contains_key(k2) ==> after.ledger[k2] == s.ledger[k2]
        }),
{
    let after = withdraw_spec(s, admin, amount, denom)->Ok_0;
    assert(after.ledger.dom() =~= s.ledger.dom());
}

/// A withdrawal of an asset without an entry fails for want of funds.
pub proof fn lemma_withdraw_without_entry(s: StoreView, admin: Seq<char>, amount: u128, denom: Seq<char>)
    requires
        s.admin == Some(admin),
        !s.ledger.contains_key((admin, denom)),
    ensures
        withdraw_spec(s, admin, amount, denom) == Err::<StoreView, ContractError>(ContractError::NoFunds),
{
}

/// An update without a new owner leaves the store, and so the administrator,
/// as it was.
pub proof fn lemma_update_without_owner(s: StoreView, admin: Seq<char>)
    requires
        s.admin == Some(admin),
    ensures
        update_config_spec(s, admin, None) == Ok::<StoreView, ContractError>(s),
        get_config_spec(s) == Ok::<Seq<char>, ContractError>(admin),
{
}

/// Deposits of two different assets give the same store in either order.
pub proof fn lemma_deposits_commute(s: StoreView, admin: Seq<char>, x: Coin, y: Coin)
    requires
        s.admin == Some(admin),
        x.denom@ != y.denom@,
        deposit_spec(s, admin, seq![x]) is Ok,
        deposit_spec(s, admin, seq![y]) is Ok,
    ensures
        deposit_spec(deposit_spec(s, admin, seq![x])->Ok_0, admin, seq![y]) is Ok,
        deposit_spec(deposit_spec(s, admin, seq![x])->Ok_0, admin, seq![y])
            == deposit_spec(deposit_spec(s, admin, seq![y])->Ok_0, admin, seq![x]),
{
    let sx = deposit_spec(s, admin, seq![x])->Ok_0;
    let sy = deposit_spec(s, admin, seq![y])->Ok_0;
    let kx = (admin, x.denom@);
    let ky = (admin, y.denom@);
    assert(sx.ledger.contains_key(ky) == s.ledger.contains_key(ky));
    assert(sy.ledger.contains_key(kx) == s.ledger.contains_key(kx));
    if s.ledger.contains_key(ky) {
        assert(sx.ledger[ky] == s.ledger[ky]);
    }
    if s.ledger.contains_key(kx) {
        assert(sy.ledger[kx] == s.ledger[kx]);
    }
    let a = deposit_spec(sx, admin, seq![y])->Ok_0;
    let b = deposit_spec(sy, admin, seq![x])->Ok_0;
    assert(a.ledger =~= b.ledger);
}

proof fn lemma_listing_step(
    m: Map<Key, EntryView>,
    account: Seq<char>,
    r1: Seq<(String, Deposits)>,
    r2: Seq<(String, Deposits)>,
    i: int,
)
    requires
        is_listing(m, account, r1),
        is_listing(m, account, r2),
        0 <= i < r1.len(),
        i < r2.len(),
        forall|j: int| 0 <= j < i ==> r1[j].0@ == r2[j].0@,
    ensures
        r1[i].0@ == r2[i].0@,
{
    let x = r1[i].0@;
    let y = r2[i].0@;
    assert(m.contains_key((account, x)));
    assert(m.contains_key((account, y)));
    let j2 = choose|j: int| 0 <= j < r2.len() && r2[j].0@ == x;
    let j1 = choose|j: int| 0 <= j < r1.len() && r1[j].0@ == y;
    lemma_str_lt_irreflexive(x);
    lemma_str_lt_irreflexive(y);
    if j2 < i {
        assert(r1[j2].0@ == x);
        assert(str_lt(r1[j2].0@, r1[i].0@));
    }
    if j1 < i {
        assert(r2[j1].0@ == y);
        assert(str_lt(r2[j1].0@, r2[i].0@));
    }
    if j2 > i && j1 > i {
        assert(str_lt(r2[i].0@, r2[j2].0@));
        assert(str_lt(r1[i].0@, r1[j1].0@));
        lemma_str_lt_transitive(x, y, x);
    }
}

proof fn lemma_listing_prefix(
    m: Map<Key, EntryView>,
    account: Seq<char>,
    r1: Seq<(String, Deposits)>,
    r2: Seq<(String, Deposits)>,
    n: int,
)
    requires
        is_listing(m, account, r1),
        is_listing(m, account, r2),
        0 <= n <= r1.len(),
        n <= r2.len(),
    ensures
        forall|j: int| 0 <= j < n ==> r1[j].0@ == r2[j].0@,
    decreases n,
{
    if n > 0 {
        lemma_listing_prefix(m, account, r1, r2, n - 1);
        lemma_listing_step(m, account, r1, r2, n - 1);
    }
}

proof fn lemma_listing_not_longer(
    m: Map<Key, EntryView>,
    account: Seq<char>,
    r1: Seq<(String, Deposits)>,
    r2: Seq<(String, Deposits)>,
)
    requires
        is_listing(m, account, r1),
        is_listing(m, account, r2),
    ensures
        r1.len() <= r2.len(),
{
    if r1.len() > r2.len() {
        let n = r2.len() as int;
        lemma_listing_prefix(m, account, r1, r2, n);
        let x = r1[n].0@;
        assert(m.contains_key((account, x)));
        let j = choose|j: int| 0 <= j < r2.len() && r2[j].0@ == x;
        assert(r1[j].0@ == x);
        assert(str_lt(r1[j].0@, r1[n].0@));
        lemma_str_lt_irreflexive(x);
    }
}

/// A listing of an account is determined by the ledger alone: any two
/// listings of one ledger agree, asset by asset and entry by entry. With
/// the commuting of deposits, the listing does not depend on the order in
/// which the entries were made.
pub proof fn lemma_listing_unique(
    m: Map<Key, EntryView>,
    account: Seq<char>,
    r1: Seq<(String, Deposits)>,
    r2: Seq<(String, Deposits)>,
)
    requires
        is_listing(m, account, r1),
        is_listing(m, account, r2),
    ensures
        r1.len() == r2.len(),
        forall|i: int| #![trigger r1[i]] 0 <= i < r1.len() ==> r1[i].0@ == r2[i].0@ && r1[i].1.entry() == r2[i].1.entry(),
{
    lemma_listing_not_longer(m, account, r1, r2);
    lemma_listing_not_longer(m, account, r2, r1);
    lemma_listing_prefix(m, account, r1, r2, r1.len() as int);
    assert forall|i: int| #![trigger r1[i]] 0 <= i < r1.len() implies r1[i].0@ == r2[i].0@ && r1[i].1.entry() == r2[i].1.entry() by {
        assert(r2[i].0@ == r1[i].0@);
    }
}

} // verus!
