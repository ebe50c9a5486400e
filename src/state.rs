//! The persistent records: the administrator's configuration and the ledger
//! of balance entries, with their mathematical models.
use vstd::prelude::*;

verus! {

/// An amount of one native asset.
#[derive(Clone, Debug, PartialEq, Eq)]
pub struct Coin {
    pub denom: String,
    pub amount: u128,
}

/// The administrator record: the one account allowed to change the ledger.
#[derive(Clone, Debug, PartialEq, Eq)]
pub struct Config {
    pub owner: String,
}

/// One balance entry of the ledger, for one account and one asset.
#[derive(Clone, Debug, PartialEq, Eq)]
pub struct Deposits {
    /// Deposits minus withdrawals made on this entry.
    pub count: i32,
    /// The depositor.
    pub owner: String,
    /// The asset and the amount held for the depositor.
    pub coins: Coin,
}

/// The key of a ledger entry: account, then asset.
pub type Key = (Seq<char>, Seq<char>);

/// What a balance entry holds, as plain values.
pub struct EntryView {
    pub count: i32,
    pub owner: Seq<char>,
    pub denom: Seq<char>,
    pub amount: u128,
}

impl Deposits {
    pub open spec fn key(self) -> Key {
        (self.owner@, self.coins.denom@)
    }

    pub open spec fn entry(self) -> EntryView {
        EntryView {
            count: self.count,
            owner: self.owner@,
            denom: self.coins.denom@,
            amount: self.coins.amount,
        }
    }

    /// A copy equal to `self`, field by field.
    pub fn duplicate(&self) -> (r: Deposits)
        ensures
            r == *self,
    {
        Deposits {
            count: self.count,
            owner: self.owner.clone(),
            coins: Coin { denom: self.coins.denom.clone(), amount: self.coins.amount },
        }
    }
}

/// No two entries share a key.
pub open spec fn keys_distinct(s: Seq<Deposits>) -> bool {
    forall|i: int, j: int| 0 <= i < s.len() && 0 <= j < s.len() && i != j ==> s[i].key() != s[j].key()
}

/// The ledger that a sequence of entries with distinct keys stands for.
pub open spec fn ledger_of(s: Seq<Deposits>) -> Map<Key, EntryView> {
    Map::new(
        |k: Key| exists|i: int| 0 <= i < s.len() && s[i].key() == k,
        |k: Key| s[choose|i: int| 0 <= i < s.len() && s[i].key() == k].entry(),
    )
}

/// Each entry is found in the ledger under its own key.
pub proof fn lemma_ledger_at(s: Seq<Deposits>, i: int)
    requires
        keys_distinct(s),
        0 <= i < s.len(),
    ensures
        ledger_of(s).contains_key(s[i].key()),
        ledger_of(s)[s[i].key()] == s[i].entry(),
{
    let k = s[i].key();
    assert(exists|j: int| 0 <= j < s.len() && s[j].key() == k);
    let j = choose|j: int| 0 <= j < s.len() && s[j].key() == k;
    assert(j == i);
}

/// Appending an entry under a new key adds that key to the ledger.
pub proof fn lemma_ledger_push(s: Seq<Deposits>, d: Deposits)
    requires
        keys_distinct(s),
        !ledger_of(s).contains_key(d.key()),
    ensures
        keys_distinct(s.push(d)),
        ledger_of(s.push(d)) == ledger_of(s).insert(d.key(), d.entry()),
{
    let t = s.push(d);
    assert forall|i: int| 0 <= i < s.len() implies s[i].key() != d.key() by {
        if s[i].key() == d.key() {
            lemma_ledger_at(s, i);
        }
    }
    assert(keys_distinct(t));
    let m = ledger_of(s).insert(d.key(), d.entry());
    assert forall|k: Key| #[trigger] ledger_of(t).contains_key(k) <==> m.contains_key(k) by {
        if ledger_of(t).contains_key(k) {
            let i = choose|i: int| 0 <= i < t.len() && t[i].key() == k;
            if i < s.len() {
                assert(s[i].key() == k);
            }
        }
        if ledger_of(s).contains_key(k) {
            let i = choose|i: int| 0 <= i < s.len() && s[i].key() == k;
            assert(t[i].key() == k);
        }
        if k == d.key() {
            assert(t[s.len() as int].key() == k);
        }
    }
    assert forall|k: Key| #[trigger] ledger_of(t).contains_key(k) implies ledger_of(t)[k] == m[k] by {
        let i = choose|i: int| 0 <= i < t.len() && t[i].key() == k;
        lemma_ledger_at(t, i);
        if i < s.len() {
            assert(t[i] == s[i]);
            lemma_ledger_at(s, i);
        }
    }
    assert(ledger_of(t) =~= m);
}

/// Replacing an entry by one under the same key updates that key only.
pub proof fn lemma_ledger_update(s: Seq<Deposits>, i: int, d: Deposits)
    requires
        keys_distinct(s),
        0 <= i < s.len(),
        d.key() == s[i].key(),
    ensures
        keys_distinct(s.update(i, d)),
        ledger_of(s.update(i, d)) == ledger_of(s).insert(d.key(), d.entry()),
{
    let t = s.update(i, d);
    assert(keys_distinct(t)) by {
        assert forall|a: int, b: int|
            0 <= a < t.len() && 0 <= b < t.len() && a != b implies t[a].key() != t[b].key() by {
            assert(t[a].key() == s[a].key());
            assert(t[b].key() == s[b].key());
        }
    }
    let m = ledger_of(s).insert(d.key(), d.entry());
    assert forall|k: Key| #[trigger] ledger_of(t).contains_key(k) <==> m.contains_key(k) by {
        if ledger_of(t).contains_key(k) {
            let j = choose|j: int| 0 <= j < t.len() && t[j].key() == k;
            assert(s[j].key() == k);
        }
        if ledger_of(s).contains_key(k) {
            let j = choose|j: int| 0 <= j < s.len() && s[j].key() == k;
            assert(t[j].key() == k);
        }
        if k == d.key() {
            assert(t[i].key() == k);
        }
    }
    assert forall|k: Key| #[trigger] ledger_of(t).contains_key(k) implies ledger_of(t)[k] == m[k] by {
        let j = choose|j: int| 0 <= j < t.len() && t[j].key() == k;
        lemma_ledger_at(t, j);
        if j != i {
            lemma_ledger_at(s, j);
        }
    }
    assert(ledger_of(t) =~= m);
}

} // verus!
