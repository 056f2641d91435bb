use vstd::prelude::*;

verus! {

use crate::block::{block_hash_of, Block, BlockView};
use crate::hash::{zero_digest, Hashable};
use crate::errors::{BlockError, TxError};
use crate::keys::PublicKey;
use crate::transaction::{tx_views, Transaction, TxView};

/// An account row: spendable balance and the nonce expected on the
/// account's next outgoing transaction.
#[derive(Debug, Clone, Copy, PartialEq, Eq, Structural)]
pub struct Account {
    pub balance: u64,
    pub nonce: u64,
}

/// The implicit row of an account never written to.
pub open spec fn default_account() -> Account {
    Account { balance: 0, nonce: 0 }
}

/// The ledger rows as a partial map from key bytes to accounts; keys outside
/// the domain implicitly hold `default_account()`.
pub open spec fn map_of(s: Seq<(PublicKey, Account)>) -> Map<Seq<u8>, Account>
    decreases s.len(),
{
    if s.len() == 0 {
        Map::empty()
    } else {
        map_of(s.drop_last()).insert(s.last().0@, s.last().1)
    }
}

/// No key bytes occur on two rows.
pub open spec fn unique_keys(s: Seq<(PublicKey, Account)>) -> bool {
    forall|i: int, j: int| 0 <= i < j < s.len() ==> s[i].0@ != s[j].0@
}

/// The row of `key`: its entry if present, the implicit default otherwise.
pub open spec fn account_at(m: Map<Seq<u8>, Account>, key: Seq<u8>) -> Account {
    if m.dom().contains(key) {
        m[key]
    } else {
        default_account()
    }
}

/// What applying one transaction to the ledger yields: the updated rows, or
/// the error for the first rule the transfer breaks. The sender must spend
/// its current nonce exactly and hold the amount; a transfer whose updated
/// balance or nonce would not be representable is refused. A self-transfer
/// leaves the balance unchanged but still spends the nonce.
pub open spec fn apply_tx(m: Map<Seq<u8>, Account>, t: TxView) -> Result<
    Map<Seq<u8>, Account>,
    TxError,
> {
    let from = account_at(m, t.from);
    if from.nonce != t.nonce {
        Err(TxError::InvalidNonce)
    } else if from.balance < t.amount {
        Err(TxError::InsufficientBalance)
    } else if from.nonce == u64::MAX {
        Err(TxError::Overflow)
    } else if t.from == t.to {
        Ok(m.insert(t.from, Account { balance: from.balance, nonce: (from.nonce + 1) as u64 }))
    } else {
        let to = account_at(m, t.to);
        if to.balance + t.amount > u64::MAX {
            Err(TxError::Overflow)
        } else {
            Ok(
                m.insert(
                    t.from,
                    Account {
                        balance: (from.balance - t.amount) as u64,
                        nonce: (from.nonce + 1) as u64,
                    },
                ).insert(t.to, Account { balance: (to.balance + t.amount) as u64, nonce: to.nonce }),
            )
        }
    }
}

/// Whether `apply_tx` succeeds, spelled out over the ledger rows.
pub open spec fn tx_applicable(m: Map<Seq<u8>, Account>, t: TxView) -> bool {
    &&& account_at(m, t.from).nonce == t.nonce
    &&& account_at(m, t.from).balance >= t.amount
    &&& t.nonce < u64::MAX
    &&& (t.from == t.to || account_at(m, t.to).balance + t.amount <= u64::MAX)
}

/// `apply_tx` succeeds exactly on the transfers `tx_applicable` admits.
pub proof fn lemma_apply_tx_ok(m: Map<Seq<u8>, Account>, t: TxView)
    ensures
        apply_tx(m, t) is Ok <==> tx_applicable(m, t),
{
}

/// Applying a list of transactions in order, stopping at the first failure.
pub open spec fn apply_txs(m: Map<Seq<u8>, Account>, txs: Seq<TxView>) -> Result<
    Map<Seq<u8>, Account>,
    TxError,
>
    decreases txs.len(),
{
    if txs.len() == 0 {
        Ok(m)
    } else {
        match apply_tx(m, txs[0]) {
            Ok(m2) => apply_txs(m2, txs.drop_first()),
            Err(e) => Err(e),
        }
    }
}

/// The mathematical value of the world state: the ledger rows and the hash
/// of the last applied block.
pub ghost struct StateView {
    pub accounts: Map<Seq<u8>, Account>,
    pub last_block_hash: Seq<u8>,
}

/// What applying a block to the world state yields: a block must extend the
/// last applied block, and all of its transactions must apply in order; on
/// success the block's own hash becomes the last applied hash.
pub open spec fn apply_block_spec(st: StateView, b: BlockView) -> Result<StateView, BlockError> {
    if b.header.previous_hash != st.last_block_hash {
        Err(BlockError::StaleOrForkedBlock)
    } else {
        match apply_txs(st.accounts, b.transactions) {
            Ok(m) => Ok(StateView { accounts: m, last_block_hash: block_hash_of(b.header) }),
            Err(e) => Err(BlockError::Transaction(e)),
        }
    }
}

/// A row lookup agrees with the map model on unique rows.
proof fn lemma_map_of_lookup(s: Seq<(PublicKey, Account)>, key: Seq<u8>)
    requires
        unique_keys(s),
    ensures
        map_of(s).dom().contains(key) <==> exists|i: int| 0 <= i < s.len() && s[i].0@ == key,
        forall|i: int| 0 <= i < s.len() && s[i].0@ == key ==> map_of(s)[key] == s[i].1,
    decreases s.len(),
{
    if s.len() > 0 {
        let prefix = s.drop_last();
        lemma_map_of_lookup(prefix, key);
        assert(forall|i: int| 0 <= i < s.len() - 1 ==> prefix[i] == s[i]);
        if s.last().0@ == key {
            assert(0 <= s.len() - 1 < s.len() && s[s.len() - 1].0@ == key);
            assert forall|i: int| 0 <= i < s.len() && s[i].0@ == key implies map_of(s)[key]
                == s[i].1 by {
                if i < s.len() - 1 {
                    assert(s[i].0@ == s[s.len() - 1].0@);
                    assert(false);
                }
            }
        } else {
            if map_of(s).dom().contains(key) {
                let j = choose|j: int| 0 <= j < prefix.len() && prefix[j].0@ == key;
                assert(s[j].0@ == key);
            }
            if exists|i: int| 0 <= i < s.len() && s[i].0@ == key {
                let j = choose|j: int| 0 <= j < s.len() && s[j].0@ == key;
                assert(j < s.len() - 1);
                assert(prefix[j].0@ == key);
            }
            assert forall|i: int| 0 <= i < s.len() && s[i].0@ == key implies map_of(s)[key]
                == s[i].1 by {
                assert(i < s.len() - 1);
                assert(prefix[i] == s[i]);
            }
        }
    }
}

/// Replacing the row at `i` by another row for the same key updates the map
/// model at that key alone.
proof fn lemma_map_of_update(s: Seq<(PublicKey, Account)>, i: int, pk: PublicKey, a: Account)
    requires
        unique_keys(s),
        0 <= i < s.len(),
        pk@ == s[i].0@,
    ensures
        unique_keys(s.update(i, (pk, a))),
        map_of(s.update(i, (pk, a))) == map_of(s).insert(pk@, a),
    decreases s.len(),
{
    let t = s.update(i, (pk, a));
    assert(forall|j: int| 0 <= j < s.len() ==> t[j].0@ == s[j].0@);
    if i == s.len() - 1 {
        assert(t.drop_last() =~= s.drop_last());
        assert(map_of(t) =~= map_of(s).insert(pk@, a));
    } else {
        assert(t.drop_last() =~= s.drop_last().update(i, (pk, a)));
        lemma_map_of_update(s.drop_last(), i, pk, a);
        assert(pk@ != s.last().0@);
        assert(map_of(t) =~= map_of(s).insert(pk@, a));
    }
}

/// Appending a row for a fresh key updates the map model at that key alone.
proof fn lemma_map_of_push(s: Seq<(PublicKey, Account)>, pk: PublicKey, a: Account)
    requires
        unique_keys(s),
        forall|i: int| 0 <= i < s.len() ==> s[i].0@ != pk@,
    ensures
        unique_keys(s.push((pk, a))),
        map_of(s.push((pk, a))) == map_of(s).insert(pk@, a),
{
    let t = s.push((pk, a));
    assert(t.drop_last() =~= s);
    assert forall|i: int, j: int| 0 <= i < j < t.len() implies t[i].0@ != t[j].0@ by {
        if j == s.len() {
            assert(t[i] == s[i]);
        } else {
            assert(t[i] == s[i] && t[j] == s[j]);
        }
    }
    assert(map_of(t) =~= map_of(s).insert(pk@, a));
}

/// The index of the row holding `key`, if one does.
fn find_key(accounts: &Vec<(PublicKey, Account)>, key: &PublicKey) -> (r: Option<usize>)
    ensures
        match r {
            Some(i) => i < accounts@.len() && accounts@[i as int].0@ == key@,
            None => forall|i: int| 0 <= i < accounts@.len() ==> accounts@[i].0@ != key@,
        },
{
    let mut i: usize = 0;
    while i < accounts.len()
        invariant
            i <= accounts@.len(),
            forall|j: int| 0 <= j < i ==> accounts@[j].0@ != key@,
        decreases accounts@.len() - i,
    {
        if accounts[i].0 == *key {
            return Some(i);
        }
        i = i + 1;
    }
    None
}

/// The row of `key`, or the implicit default.
fn account_row(accounts: &Vec<(PublicKey, Account)>, key: &PublicKey) -> (a: Account)
    requires
        unique_keys(accounts@),
    ensures
        a == account_at(map_of(accounts@), key@),
{
    proof {
        lemma_map_of_lookup(accounts@, key@);
    }
    match find_key(accounts, key) {
        Some(i) => accounts[i].1,
        None => Account { balance: 0, nonce: 0 },
    }
}

/// Writes `value` as the row of `key`, adding the row if absent.
fn upsert(accounts: &mut Vec<(PublicKey, Account)>, key: &PublicKey, value: Account)
    requires
        unique_keys(old(accounts)@),
    ensures
        unique_keys(final(accounts)@),
        map_of(final(accounts)@) == map_of(old(accounts)@).insert(key@, value),
{
    match find_key(accounts, key) {
        Some(i) => {
            let pk = accounts[i].0;
            accounts.set(i, (pk, value));
            proof {
                lemma_map_of_update(old(accounts)@, i as int, pk, value);
            }
        },
        None => {
            accounts.push((*key, value));
            proof {
                lemma_map_of_push(old(accounts)@, *key, value);
            }
        },
    }
}

/// Applies one transaction to the rows, exactly as `apply_tx` says.
fn apply_tx_rows(accounts: &mut Vec<(PublicKey, Account)>, tx: &Transaction) -> (r: Result<
    (),
    TxError,
>)
    requires
        unique_keys(old(accounts)@),
    ensures
        unique_keys(final(accounts)@),
        match apply_tx(map_of(old(accounts)@), tx@) {
            Ok(m) => r is Ok && map_of(final(accounts)@) == m,
            Err(e) => r == Err::<(), TxError>(e) && final(accounts)@ == old(accounts)@,
        },
{
    let from_row = account_row(accounts, &tx.from);
    if from_row.nonce != tx.nonce {
        return Err(TxError::InvalidNonce);
    }
    if from_row.balance < tx.amount {
        return Err(TxError::InsufficientBalance);
    }
    if from_row.nonce == u64::MAX {
        return Err(TxError::Overflow);
    }
    if tx.from == tx.to {
        upsert(accounts, &tx.from, Account { balance: from_row.balance, nonce: from_row.nonce + 1 });
        return Ok(());
    }
    let to_row = account_row(accounts, &tx.to);
    if to_row.balance > u64::MAX - tx.amount {
        return Err(TxError::Overflow);
    }
    upsert(
        accounts,
        &tx.from,
        Account { balance: from_row.balance - tx.amount, nonce: from_row.nonce + 1 },
    );
    upsert(accounts, &tx.to, Account { balance: to_row.balance + tx.amount, nonce: to_row.nonce });
    Ok(())
}

/// A fresh copy of the rows, row for row.
fn copy_accounts(src: &Vec<(PublicKey, Account)>) -> (r: Vec<(PublicKey, Account)>)
    ensures
        r@ == src@,
{
    let mut out: Vec<(PublicKey, Account)> = Vec::new();
    let mut i: usize = 0;
    while i < src.len()
        invariant
            i <= src@.len(),
            out@ == src@.subrange(0, i as int),
        decreases src@.len() - i,
    {
        out.push(src[i]);
        proof {
            assert(out@ =~= src@.subrange(0, i + 1));
        }
        i = i + 1;
    }
    proof {
        assert(out@ =~= src@);
    }
    out
}

/// The account ledger: every account's row, and the hash of the last block
/// whose transactions were applied to the rows.
#[derive(Debug)]
pub struct WorldState {
    accounts: Vec<(PublicKey, Account)>,
    last_block_hash: crate::hash::Hash,
}

impl View for WorldState {
    type V = StateView;

    closed spec fn view(&self) -> StateView {
        StateView { accounts: map_of(self.accounts@), last_block_hash: self.last_block_hash@ }
    }
}

impl WorldState {
    /// The ledger rows hold each key at most once.
    pub closed spec fn wf(&self) -> bool {
        unique_keys(self.accounts@)
    }

    /// An empty ledger whose last applied hash is the zero digest, so that
    /// the genesis block (whose parent reference is the zero digest) is the
    /// first block it accepts.
    pub fn new() -> (w: WorldState)
        ensures
            w.wf(),
            w@.accounts == Map::<Seq<u8>, Account>::empty(),
            w@.last_block_hash == zero_digest(),
    {
        WorldState { accounts: Vec::new(), last_block_hash: crate::hash::Hash::zero() }
    }

    /// Applies one transaction to the ledger rows, exactly as `apply_tx`
    /// says; on failure the rows are untouched. The last applied hash never
    /// moves here: only whole blocks move it.
    pub fn apply_transaction(&mut self, tx: &Transaction) -> (r: Result<(), TxError>)
        requires
            old(self).wf(),
        ensures
            final(self).wf(),
            final(self)@.last_block_hash == old(self)@.last_block_hash,
            match apply_tx(old(self)@.accounts, tx@) {
                Ok(m) => r is Ok && final(self)@.accounts == m,
                Err(e) => r == Err::<(), TxError>(e) && final(self)@.accounts == old(
                    self,
                )@.accounts,
            },
    {
        apply_tx_rows(&mut self.accounts, tx)
    }

    /// Applies a block, exactly as `apply_block_spec` says: the block must
    /// extend the last applied block and every transaction must apply in
    /// order; on any failure the state is left untouched (all or nothing).
    #[verifier::loop_isolation(false)]
    pub fn apply_block(&mut self, block: &Block) -> (r: Result<(), BlockError>)
        requires
            old(self).wf(),
        ensures
            final(self).wf(),
            match apply_block_spec(old(self)@, block@) {
                Ok(st) => r is Ok && final(self)@ == st,
                Err(e) => r == Err::<(), BlockError>(e) && final(self)@ == old(self)@,
            },
    {
        if !(block.header.previous_hash == self.last_block_hash) {
            return Err(BlockError::StaleOrForkedBlock);
        }
        let ghost m0 = map_of(self.accounts@);
        let ghost all = tx_views(block.transactions@);
        let mut working = copy_accounts(&self.accounts);
        proof {
            assert(all.skip(0) =~= all);
        }
        let mut i: usize = 0;
        while i < block.transactions.len()
            invariant
                unique_keys(working@),
                i <= all.len(),
                all == tx_views(block.transactions@),
                apply_txs(m0, all) == apply_txs(map_of(working@), all.skip(i as int)),
            decreases all.len() - i,
        {
            let ghost before = map_of(working@);
            let r = apply_tx_rows(&mut working, &block.transactions[i]);
            proof {
                assert(all.skip(i as int)[0] == all[i as int]);
                assert(all.skip(i as int).drop_first() =~= all.skip(i as int + 1));
            }
            match r {
                Ok(()) => {
                    i = i + 1;
                },
                Err(e) => {
                    return Err(BlockError::Transaction(e));
                },
            }
        }
        proof {
            assert(all.skip(all.len() as int) =~= Seq::<TxView>::empty());
        }
        self.accounts = working;
        let h = block.hash();
        self.last_block_hash = h;
        Ok(())
    }

    /// The row of `key` if the ledger holds one; a query never creates one.
    pub fn get_account(&self, key: &PublicKey) -> (r: Option<Account>)
        requires
            self.wf(),
        ensures
            r == if self@.accounts.dom().contains(key@) {
                Some(self@.accounts[key@])
            } else {
                None::<Account>
            },
    {
        proof {
            lemma_map_of_lookup(self.accounts@, key@);
        }
        match find_key(&self.accounts, key) {
            Some(i) => Some(self.accounts[i].1),
            None => None,
        }
    }

    /// The hash of the last applied block.
    pub fn get_last_block_hash(&self) -> (h: crate::hash::Hash)
        ensures
            h@ == self@.last_block_hash,
    {
        self.last_block_hash
    }
}

/// Nonce replay protection around `apply_tx`: once a sender's transfer with
/// nonce `n` is applied, a second transfer from that sender is rejected as a
/// replay when it reuses `n`, and is accepted with nonce `n + 1` whenever
/// the sender then holds the amount and no balance would overflow.
pub proof fn lemma_nonce_monotonicity(m: Map<Seq<u8>, Account>, t1: TxView, t2: TxView)
    requires
        t1.from == t2.from,
        apply_tx(m, t1) is Ok,
    ensures
        account_at(apply_tx(m, t1)->Ok_0, t2.from).nonce == t1.nonce + 1,
        t2.nonce == t1.nonce ==> apply_tx(apply_tx(m, t1)->Ok_0, t2) == Err::<
            Map<Seq<u8>, Account>,
            TxError,
        >(TxError::InvalidNonce),
        (t2.nonce == t1.nonce + 1 && tx_applicable(apply_tx(m, t1)->Ok_0, t2)) ==> apply_tx(
            apply_tx(m, t1)->Ok_0,
            t2,
        ) is Ok,
{
}

/// Balance conservation around `apply_tx`: what the sender loses, the
/// receiver gains; a self-transfer moves no balance; either way the sender's
/// nonce advances by exactly one.
pub proof fn lemma_balance_conservation(m: Map<Seq<u8>, Account>, t: TxView)
    requires
        apply_tx(m, t) is Ok,
    ensures
        t.from != t.to ==> account_at(apply_tx(m, t)->Ok_0, t.from).balance + t.amount == account_at(
            m,
            t.from,
        ).balance,
        t.from != t.to ==> account_at(apply_tx(m, t)->Ok_0, t.to).balance == account_at(
            m,
            t.to,
        ).balance + t.amount,
        t.from == t.to ==> account_at(apply_tx(m, t)->Ok_0, t.from).balance == account_at(
            m,
            t.from,
        ).balance,
        account_at(apply_tx(m, t)->Ok_0, t.from).nonce == account_at(m, t.from).nonce + 1,
{
}

} // verus!
