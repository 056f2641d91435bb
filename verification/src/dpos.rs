use vstd::prelude::*;

verus! {

use crate::block::Block;
use crate::errors::ChainError;
use crate::keys::PublicKey;

/// Pacing gate: a proposer must wait this many wall-clock seconds between
/// blocks.
pub const BLOCK_INTERVAL_SECS: u64 = 3;

/// How many of the top-staked validators are eligible to propose.
pub const ACTIVE_VALIDATOR_COUNT: usize = 21;

/// The mathematical values of a stake list, in insertion order.
pub open spec fn stake_views(s: Seq<(PublicKey, u64)>) -> Seq<(Seq<u8>, u64)> {
    Seq::new(s.len(), |i: int| (s[i].0@, s[i].1))
}

/// The mathematical values of a validator list.
pub open spec fn key_views(s: Seq<PublicKey>) -> Seq<Seq<u8>> {
    Seq::new(s.len(), |i: int| s[i]@)
}

/// No key occurs on two stake entries.
pub open spec fn unique_stake_keys(s: Seq<(Seq<u8>, u64)>) -> bool {
    forall|i: int, j: int| 0 <= i < j < s.len() ==> s[i].0 != s[j].0
}

/// Whether some entry holds `key`.
pub open spec fn has_stake_key(s: Seq<(Seq<u8>, u64)>, key: Seq<u8>) -> bool {
    exists|i: int| 0 <= i < s.len() && s[i].0 == key
}

/// The index of the entry holding `key` (meaningful when unique).
pub open spec fn stake_key_index(s: Seq<(Seq<u8>, u64)>, key: Seq<u8>) -> int {
    choose|i: int| 0 <= i < s.len() && s[i].0 == key
}

/// The stake list after `key`'s stake is set to `stake`: its entry is
/// replaced in place, or appended if `key` is new.
pub open spec fn stake_upsert(s: Seq<(Seq<u8>, u64)>, key: Seq<u8>, stake: u64) -> Seq<
    (Seq<u8>, u64),
> {
    if has_stake_key(s, key) {
        s.update(stake_key_index(s, key), (key, stake))
    } else {
        s.push((key, stake))
    }
}

/// The stake list after `key` is removed; unknown keys leave it untouched.
pub open spec fn stake_remove(s: Seq<(Seq<u8>, u64)>, key: Seq<u8>) -> Seq<(Seq<u8>, u64)> {
    if has_stake_key(s, key) {
        s.remove(stake_key_index(s, key))
    } else {
        s
    }
}

/// The sum of all stakes.
pub open spec fn total_stake_of(s: Seq<(Seq<u8>, u64)>) -> int
    decreases s.len(),
{
    if s.len() == 0 {
        0
    } else {
        total_stake_of(s.drop_last()) + s.last().1
    }
}

/// Stable insertion of `x` into a stake-descending list: `x` goes after
/// every entry whose stake is at least its own, so earlier entries keep
/// their place on ties.
pub open spec fn insert_sorted(x: (Seq<u8>, u64), s: Seq<(Seq<u8>, u64)>) -> Seq<(Seq<u8>, u64)>
    decreases s.len(),
{
    if s.len() == 0 {
        seq![x]
    } else if s[0].1 >= x.1 {
        seq![s[0]] + insert_sorted(x, s.drop_first())
    } else {
        seq![x] + s
    }
}

/// The stake list sorted by stake descending, stably: entries with equal
/// stake keep their insertion order.
pub open spec fn sort_by_stake(s: Seq<(Seq<u8>, u64)>) -> Seq<(Seq<u8>, u64)>
    decreases s.len(),
{
    if s.len() == 0 {
        Seq::empty()
    } else {
        insert_sorted(s.last(), sort_by_stake(s.drop_last()))
    }
}

/// The active set: the keys of the top `ACTIVE_VALIDATOR_COUNT` entries of
/// the stably sorted stake list.
pub open spec fn active_set_of(s: Seq<(Seq<u8>, u64)>) -> Seq<Seq<u8>> {
    let sorted = sort_by_stake(s);
    let n = if sorted.len() <= ACTIVE_VALIDATOR_COUNT as int {
        sorted.len() as int
    } else {
        ACTIVE_VALIDATOR_COUNT as int
    };
    Seq::new(n as nat, |i: int| sorted[i].0)
}

/// Stakes never increase along the list.
pub open spec fn sorted_desc(s: Seq<(Seq<u8>, u64)>) -> bool {
    forall|i: int, j: int| 0 <= i < j < s.len() ==> s[i].1 >= s[j].1
}

/// Stable insertion keeps a stake-descending list stake-descending, adds
/// exactly one entry, and leaves the largest stake in front.
proof fn lemma_insert_sorted_keeps_order(x: (Seq<u8>, u64), s: Seq<(Seq<u8>, u64)>)
    requires
        sorted_desc(s),
    ensures
        sorted_desc(insert_sorted(x, s)),
        insert_sorted(x, s).len() == s.len() + 1,
        insert_sorted(x, s)[0].1 == if s.len() > 0 && s[0].1 >= x.1 {
            s[0].1
        } else {
            x.1
        },
        insert_sorted(x, s).to_multiset() == s.to_multiset().insert(x),
    decreases s.len(),
{
    broadcast use vstd::seq_lib::group_seq_properties;

    if s.len() == 0 {
        assert(seq![x] =~= Seq::<(Seq<u8>, u64)>::empty().push(x));
        assert(insert_sorted(x, s).to_multiset() =~= s.to_multiset().insert(x));
    } else if s[0].1 >= x.1 {
        let rest = s.drop_first();
        assert(forall|i: int, j: int| 0 <= i < j < rest.len() ==> rest[i].1 >= rest[j].1);
        lemma_insert_sorted_keeps_order(x, rest);
        let t = insert_sorted(x, s);
        let inner = insert_sorted(x, rest);
        assert(t =~= seq![s[0]] + inner);
        assert forall|i: int, j: int| 0 <= i < j < t.len() implies t[i].1 >= t[j].1 by {
            if i == 0 {
                if rest.len() > 0 && rest[0].1 >= x.1 {
                    assert(inner[0].1 == rest[0].1);
                } else {
                    assert(inner[0].1 == x.1);
                }
                assert(t[j] == inner[j - 1]);
                assert(inner[0].1 >= inner[j - 1].1);
            } else {
                assert(t[i] == inner[i - 1] && t[j] == inner[j - 1]);
            }
        }
        assert(s =~= seq![s[0]] + rest);
        vstd::seq_lib::lemma_multiset_commutative(seq![s[0]], inner);
        vstd::seq_lib::lemma_multiset_commutative(seq![s[0]], rest);
        assert(t.to_multiset() =~= s.to_multiset().insert(x));
    } else {
        let t = insert_sorted(x, s);
        assert(t =~= seq![x] + s);
        assert forall|i: int, j: int| 0 <= i < j < t.len() implies t[i].1 >= t[j].1 by {
            if i == 0 {
                if j == 1 {
                    assert(t[1] == s[0]);
                } else {
                    assert(t[j] == s[j - 1]);
                    assert(s[0].1 >= s[j - 1].1);
                }
            } else {
                assert(t[i] == s[i - 1] && t[j] == s[j - 1]);
            }
        }
        vstd::seq_lib::lemma_multiset_commutative(seq![x], s);
        assert(seq![x] =~= Seq::<(Seq<u8>, u64)>::empty().push(x));
        assert(t.to_multiset() =~= s.to_multiset().insert(x));
    }
}

/// The rotation's ordering law: the stably sorted stake list that the
/// active set is drawn from holds exactly the registered entries, with
/// stakes never increasing along it.
pub proof fn lemma_sort_by_stake_descending(s: Seq<(Seq<u8>, u64)>)
    ensures
        sort_by_stake(s).len() == s.len(),
        sorted_desc(sort_by_stake(s)),
        sort_by_stake(s).to_multiset() == s.to_multiset(),
    decreases s.len(),
{
    broadcast use vstd::seq_lib::group_seq_properties;

    if s.len() > 0 {
        lemma_sort_by_stake_descending(s.drop_last());
        lemma_insert_sorted_keeps_order(s.last(), sort_by_stake(s.drop_last()));
        assert(s =~= s.drop_last().push(s.last()));
        assert(s.to_multiset() =~= s.drop_last().to_multiset().insert(s.last()));
    }
}

/// Inserting at the first position whose stake is below `x`'s is exactly
/// the stable insertion.
proof fn lemma_insert_sorted_at(x: (Seq<u8>, u64), s: Seq<(Seq<u8>, u64)>, j: int)
    requires
        0 <= j <= s.len(),
        forall|k: int| 0 <= k < j ==> s[k].1 >= x.1,
        j < s.len() ==> s[j].1 < x.1,
    ensures
        insert_sorted(x, s) == s.subrange(0, j) + seq![x] + s.subrange(j, s.len() as int),
    decreases j,
{
    if j == 0 {
        if s.len() == 0 {
            assert(insert_sorted(x, s) =~= s.subrange(0, 0) + seq![x] + s.subrange(0, 0));
        } else {
            assert(insert_sorted(x, s) =~= s.subrange(0, 0) + seq![x] + s.subrange(
                0,
                s.len() as int,
            ));
        }
    } else {
        let rest = s.drop_first();
        assert(forall|k: int| 0 <= k < j - 1 ==> rest[k].1 >= x.1);
        lemma_insert_sorted_at(x, rest, j - 1);
        assert(insert_sorted(x, s) =~= s.subrange(0, j) + seq![x] + s.subrange(j, s.len() as int));
    }
}

/// Replacing one entry changes the total by the difference of its stakes.
proof fn lemma_total_update(s: Seq<(Seq<u8>, u64)>, i: int, x: (Seq<u8>, u64))
    requires
        0 <= i < s.len(),
    ensures
        total_stake_of(s.update(i, x)) == total_stake_of(s) - s[i].1 + x.1,
    decreases s.len(),
{
    let t = s.update(i, x);
    if i == s.len() - 1 {
        assert(t.drop_last() =~= s.drop_last());
        assert(t.last() == x);
    } else {
        assert(t.drop_last() =~= s.drop_last().update(i, x));
        lemma_total_update(s.drop_last(), i, x);
        assert(t.last() == s.last());
    }
}

/// Removing one entry subtracts its stake from the total.
proof fn lemma_total_remove(s: Seq<(Seq<u8>, u64)>, i: int)
    requires
        0 <= i < s.len(),
    ensures
        total_stake_of(s.remove(i)) == total_stake_of(s) - s[i].1,
    decreases s.len(),
{
    let t = s.remove(i);
    if i == s.len() - 1 {
        assert(t =~= s.drop_last());
    } else {
        assert(t.drop_last() =~= s.drop_last().remove(i));
        lemma_total_remove(s.drop_last(), i);
        assert(t.last() == s.last());
    }
}

/// Appending an entry adds its stake to the total.
proof fn lemma_total_push(s: Seq<(Seq<u8>, u64)>, x: (Seq<u8>, u64))
    ensures
        total_stake_of(s.push(x)) == total_stake_of(s) + x.1,
{
    assert(s.push(x).drop_last() =~= s);
    assert(s.push(x).last() == x);
}

/// Every stake is at most the total, the total is never negative, and it is
/// bounded by one maximal stake per entry.
proof fn lemma_total_bounds(s: Seq<(Seq<u8>, u64)>)
    ensures
        0 <= total_stake_of(s),
        total_stake_of(s) <= s.len() * (u64::MAX as int),
        forall|i: int| 0 <= i < s.len() ==> s[i].1 <= total_stake_of(s),
    decreases s.len(),
{
    if s.len() > 0 {
        lemma_total_bounds(s.drop_last());
        assert((s.len() - 1) * (u64::MAX as int) + (u64::MAX as int) == s.len() * (
        u64::MAX as int)) by (nonlinear_arith);
        assert forall|i: int| 0 <= i < s.len() implies s[i].1 <= total_stake_of(s) by {
            if i < s.len() - 1 {
                assert(s.drop_last()[i] == s[i]);
            }
        }
    }
}

/// With one more maximal stake added, the total still fits the 128-bit
/// accumulator.
proof fn lemma_total_fits(s: Seq<(Seq<u8>, u64)>)
    requires
        s.len() <= u64::MAX as int,
    ensures
        total_stake_of(s) + (u64::MAX as int) < u128::MAX as int,
{
    lemma_total_bounds(s);
    assert(total_stake_of(s) + (u64::MAX as int) <= (s.len() + 1) * (u64::MAX as int))
        by (nonlinear_arith)
        requires
            total_stake_of(s) <= s.len() * (u64::MAX as int),
    ;
    assert((s.len() + 1) * (u64::MAX as int) <= 0x10000000000000000 * (u64::MAX as int))
        by (nonlinear_arith)
        requires
            0 <= s.len() + 1 <= 0x10000000000000000,
    ;
    assert(0x10000000000000000 * (u64::MAX as int) < u128::MAX as int);
}

/// The index of the entry holding `key`, if one does.
fn find_stake_key(validators: &Vec<(PublicKey, u64)>, key: &PublicKey) -> (r: Option<usize>)
    ensures
        match r {
            Some(i) => i < validators@.len() && validators@[i as int].0@ == key@,
            None => forall|i: int| 0 <= i < validators@.len() ==> validators@[i].0@ != key@,
        },
{
    let mut i: usize = 0;
    while i < validators.len()
        invariant
            i <= validators@.len(),
            forall|j: int| 0 <= j < i ==> validators@[j].0@ != key@,
        decreases validators@.len() - i,
    {
        if validators[i].0 == *key {
            return Some(i);
        }
        i = i + 1;
    }
    None
}

/// The stake list stably sorted by stake descending.
#[verifier::loop_isolation(false)]
fn sorted_by_stake(validators: &Vec<(PublicKey, u64)>) -> (r: Vec<(PublicKey, u64)>)
    ensures
        stake_views(r@) == sort_by_stake(stake_views(validators@)),
{
    let all = validators.len();
    let mut out: Vec<(PublicKey, u64)> = Vec::new();
    proof {
        assert(stake_views(validators@).subrange(0, 0) =~= Seq::<(Seq<u8>, u64)>::empty());
        assert(stake_views(out@) =~= Seq::<(Seq<u8>, u64)>::empty());
    }
    let mut i: usize = 0;
    while i < all
        invariant
            i <= all,
            stake_views(out@) == sort_by_stake(stake_views(validators@).subrange(0, i as int)),
            out@.len() == i,
        decreases all - i,
    {
        let x = validators[i];
        let mut j: usize = 0;
        while j < out.len() && out[j].1 >= x.1
            invariant
                j <= out@.len(),
                forall|k: int| 0 <= k < j ==> out@[k].1 >= x.1,
            decreases out@.len() - j,
        {
            j = j + 1;
        }
        let ghost before = stake_views(out@);
        out.insert(j, x);
        proof {
            lemma_insert_sorted_at((x.0@, x.1), before, j as int);
            assert(stake_views(out@) =~= before.subrange(0, j as int) + seq![(x.0@, x.1)]
                + before.subrange(j as int, before.len() as int));
            let prefix = stake_views(validators@).subrange(0, i + 1);
            assert(prefix.drop_last() =~= stake_views(validators@).subrange(0, i as int));
            assert(prefix.last() == (x.0@, x.1));
            assert(stake_views(out@) == sort_by_stake(prefix));
        }
        i = i + 1;
    }
    proof {
        assert(stake_views(validators@).subrange(0, all as int) =~= stake_views(validators@));
    }
    out
}

/// The proposer-scheduling half of consensus: a stake per registered
/// validator, the derived active set in stable stake order, a rotation
/// cursor into it, and the pacing clock.
pub struct DPoS {
    validators: Vec<(PublicKey, u64)>,
    active_validators: Vec<PublicKey>,
    total_stake: u128,
    current_validator_index: usize,
    last_block_time: u64,
}

impl View for DPoS {
    type V = Seq<(Seq<u8>, u64)>;

    closed spec fn view(&self) -> Seq<(Seq<u8>, u64)> {
        stake_views(self.validators@)
    }
}

impl DPoS {
    /// Each key is registered at most once, the active set and total stake
    /// are the derived values, and the cursor sits inside the active set
    /// whenever it is nonempty.
    pub closed spec fn wf(&self) -> bool {
        &&& unique_stake_keys(stake_views(self.validators@))
        &&& key_views(self.active_validators@) == active_set_of(stake_views(self.validators@))
        &&& self.total_stake as int == total_stake_of(stake_views(self.validators@))
        &&& self.active_validators@.len() == 0 ==> self.current_validator_index == 0
        &&& self.active_validators@.len() > 0 ==> (self.current_validator_index as int)
            < self.active_validators@.len()
    }

    /// Where the rotation cursor stands.
    pub closed spec fn cursor(&self) -> int {
        self.current_validator_index as int
    }

    /// When the last block was produced (pacing clock).
    pub closed spec fn last_time(&self) -> u64 {
        self.last_block_time
    }

    /// The sum of all registered stakes.
    pub closed spec fn total(&self) -> int {
        self.total_stake as int
    }

    /// An engine with no validators: nothing can be proposed or validated
    /// until one is registered.
    pub fn new() -> (d: DPoS)
        ensures
            d.wf(),
            d@ == Seq::<(Seq<u8>, u64)>::empty(),
            d.cursor() == 0,
            d.last_time() == 0,
            d.total() == 0,
    {
        let d = DPoS {
            validators: Vec::new(),
            active_validators: Vec::new(),
            total_stake: 0,
            current_validator_index: 0,
            last_block_time: 0,
        };
        proof {
            assert(d@ =~= Seq::<(Seq<u8>, u64)>::empty());
            assert(key_views(d.active_validators@) =~= active_set_of(d@));
        }
        d
    }

    /// Recomputes the active set from the stake list and clamps the cursor
    /// back to the start if it fell out of range.
    fn update_active_validators(&mut self)
        ensures
            final(self).validators == old(self).validators,
            final(self).total_stake == old(self).total_stake,
            final(self).last_block_time == old(self).last_block_time,
            key_views(final(self).active_validators@) == active_set_of(
                stake_views(final(self).validators@),
            ),
            final(self).current_validator_index == if (old(self).current_validator_index as int)
                < active_set_of(stake_views(old(self).validators@)).len() {
                old(self).current_validator_index
            } else {
                0usize
            },
    {
        let sorted = sorted_by_stake(&self.validators);
        let n = if sorted.len() <= ACTIVE_VALIDATOR_COUNT {
            sorted.len()
        } else {
            ACTIVE_VALIDATOR_COUNT
        };
        let mut active: Vec<PublicKey> = Vec::new();
        let mut k: usize = 0;
        while k < n
            invariant
                n <= sorted@.len(),
                k <= n,
                active@.len() == k,
                forall|m: int| 0 <= m < k ==> active@[m]@ == stake_views(sorted@)[m].0,
            decreases n - k,
        {
            let v = sorted[k].0;
            active.push(v);
            k = k + 1;
        }
        proof {
            assert(key_views(active@) =~= active_set_of(stake_views(self.validators@)));
        }
        self.active_validators = active;
        if self.current_validator_index >= self.active_validators.len() {
            self.current_validator_index = 0;
        }
    }

    /// Registers `public_key` with `stake` (replacing any earlier stake for
    /// the same key), adjusts the total, and rederives the active set; a
    /// cursor left out of range restarts at the first slot.
    pub fn add_validator(&mut self, public_key: PublicKey, stake: u64)
        requires
            old(self).wf(),
        ensures
            final(self).wf(),
            final(self)@ == stake_upsert(old(self)@, public_key@, stake),
            final(self).last_time() == old(self).last_time(),
            final(self).total() == total_stake_of(final(self)@),
            final(self).cursor() == if old(self).cursor() < active_set_of(final(self)@).len() {
                old(self).cursor()
            } else {
                0
            },
    {
        let n = self.validators.len();
        proof {
            assert(stake_views(self.validators@).len() == n as int);
            lemma_total_bounds(stake_views(self.validators@));
            lemma_total_fits(stake_views(self.validators@));
        }
        match find_stake_key(&self.validators, &public_key) {
            Some(i) => {
                let old_stake = self.validators[i].1;
                self.validators.set(i, (public_key, stake));
                proof {
                    let s = stake_views(old(self).validators@);
                    assert(s[i as int].0 == public_key@ && 0 <= i < s.len());
                    let j = stake_key_index(s, public_key@);
                    assert(s[j].0 == public_key@);
                    assert(j == i as int);
                    assert(s[i as int].1 <= total_stake_of(s));
                    assert(stake_views(self.validators@) =~= s.update(
                        i as int,
                        (public_key@, stake),
                    ));
                    lemma_total_update(s, i as int, (public_key@, stake));
                }
                self.total_stake = self.total_stake - (old_stake as u128) + (stake as u128);
            },
            None => {
                self.validators.push((public_key, stake));
                proof {
                    let s = stake_views(old(self).validators@);
                    assert(!has_stake_key(s, public_key@));
                    assert(stake_views(self.validators@) =~= s.push((public_key@, stake)));
                    lemma_total_push(s, (public_key@, stake));
                    assert forall|a: int, b: int|
                        0 <= a < b < stake_views(self.validators@).len() implies stake_views(
                        self.validators@,
                    )[a].0 != stake_views(self.validators@)[b].0 by {
                        if b < s.len() {
                            assert(stake_views(self.validators@)[a] == s[a]);
                            assert(stake_views(self.validators@)[b] == s[b]);
                        } else {
                            assert(stake_views(self.validators@)[a] == s[a]);
                        }
                    }
                }
                self.total_stake = self.total_stake + (stake as u128);
            },
        }
        self.update_active_validators();
    }

    /// Unregisters `public_key` if present, subtracts its stake from the
    /// total, and rederives the active set as `add_validator` does.
    pub fn remove_validator(&mut self, public_key: &PublicKey)
        requires
            old(self).wf(),
        ensures
            final(self).wf(),
            final(self)@ == stake_remove(old(self)@, public_key@),
            final(self).last_time() == old(self).last_time(),
            final(self).total() == total_stake_of(final(self)@),
            final(self).cursor() == if old(self).cursor() < active_set_of(final(self)@).len() {
                old(self).cursor()
            } else {
                0
            },
    {
        let n = self.validators.len();
        proof {
            assert(stake_views(self.validators@).len() == n as int);
            lemma_total_bounds(stake_views(self.validators@));
            lemma_total_fits(stake_views(self.validators@));
        }
        match find_stake_key(&self.validators, public_key) {
            Some(i) => {
                let old_stake = self.validators[i].1;
                self.validators.remove(i);
                proof {
                    let s = stake_views(old(self).validators@);
                    assert(s[i as int].0 == public_key@ && 0 <= i < s.len());
                    let j = stake_key_index(s, public_key@);
                    assert(s[j].0 == public_key@);
                    assert(j == i as int);
                    assert(s[i as int].1 <= total_stake_of(s));
                    assert(stake_views(self.validators@) =~= s.remove(i as int));
                    lemma_total_remove(s, i as int);
                }
                self.total_stake = self.total_stake - (old_stake as u128);
            },
            None => {
                proof {
                    assert(!has_stake_key(stake_views(self.validators@), public_key@));
                }
            },
        }
        self.update_active_validators();
    }

    /// Sets `public_key`'s stake to `new_stake` if it is registered; an
    /// unknown key changes nothing. The active set is rederived either way.
    pub fn update_stake(&mut self, public_key: &PublicKey, new_stake: u64)
        requires
            old(self).wf(),
        ensures
            final(self).wf(),
            final(self)@ == if has_stake_key(old(self)@, public_key@) {
                stake_upsert(old(self)@, public_key@, new_stake)
            } else {
                old(self)@
            },
            final(self).last_time() == old(self).last_time(),
            final(self).total() == total_stake_of(final(self)@),
            final(self).cursor() == if old(self).cursor() < active_set_of(final(self)@).len() {
                old(self).cursor()
            } else {
                0
            },
    {
        let n = self.validators.len();
        proof {
            assert(stake_views(self.validators@).len() == n as int);
            lemma_total_bounds(stake_views(self.validators@));
            lemma_total_fits(stake_views(self.validators@));
        }
        match find_stake_key(&self.validators, public_key) {
            Some(i) => {
                let old_stake = self.validators[i].1;
                let pk = self.validators[i].0;
                self.validators.set(i, (pk, new_stake));
                proof {
                    let s = stake_views(old(self).validators@);
                    assert(s[i as int].0 == public_key@ && 0 <= i < s.len());
                    let j = stake_key_index(s, public_key@);
                    assert(s[j].0 == public_key@);
                    assert(j == i as int);
                    assert(s[i as int].1 <= total_stake_of(s));
                    assert(stake_views(self.validators@) =~= s.update(
                        i as int,
                        (public_key@, new_stake),
                    ));
                    lemma_total_update(s, i as int, (public_key@, new_stake));
                }
                self.total_stake = self.total_stake - (old_stake as u128) + (new_stake as u128);
            },
            None => {
                proof {
                    assert(!has_stake_key(stake_views(self.validators@), public_key@));
                }
            },
        }
        self.update_active_validators();
    }

    /// The proposer scheduled for the coming slot; the cursor advances one
    /// slot, wrapping after the last. With no registered validator there is
    /// no proposer to schedule.
    pub fn get_next_validator(&mut self) -> (r: Result<PublicKey, ChainError>)
        requires
            old(self).wf(),
        ensures
            final(self).wf(),
            final(self)@ == old(self)@,
            final(self).last_time() == old(self).last_time(),
            active_set_of(old(self)@).len() == 0 ==> r == Err::<PublicKey, ChainError>(
                ChainError::NoActiveValidators,
            ) && final(self).cursor() == old(self).cursor(),
            active_set_of(old(self)@).len() > 0 ==> r is Ok && r->Ok_0@ == active_set_of(
                old(self)@,
            )[old(self).cursor()] && final(self).cursor() == (old(self).cursor() + 1) % (
            active_set_of(old(self)@).len() as int),
    {
        if self.active_validators.len() == 0 {
            return Err(ChainError::NoActiveValidators);
        }
        let v = self.active_validators[self.current_validator_index];
        proof {
            assert(key_views(self.active_validators@)[self.current_validator_index as int] == v@);
        }
        self.current_validator_index = (self.current_validator_index + 1)
            % self.active_validators.len();
        Ok(v)
    }

    /// Whether the block names the proposer the rotation expects right now;
    /// with an empty active set no block is acceptable.
    pub fn is_valid_block_producer(&self, block: &Block) -> (r: bool)
        requires
            self.wf(),
        ensures
            r == (active_set_of(self@).len() > 0 && block@.header.validator == active_set_of(
                self@,
            )[self.cursor()]),
    {
        if self.active_validators.len() == 0 {
            return false;
        }
        let expected = self.active_validators[self.current_validator_index];
        proof {
            assert(key_views(self.active_validators@)[self.current_validator_index as int]
                == expected@);
        }
        block.header.validator == expected
    }

    /// The pacing gate: whether `BLOCK_INTERVAL_SECS` have passed since the
    /// last produced block.
    pub fn can_produce_block(&self, now: u64) -> (r: bool)
        ensures
            r == (now >= self.last_time() + BLOCK_INTERVAL_SECS),
    {
        now >= self.last_block_time && now - self.last_block_time >= BLOCK_INTERVAL_SECS
    }

    /// Marks a block as produced at `now`: the pacing clock restarts and the
    /// rotation moves to the next slot, wrapping after the last.
    pub fn on_block_produced(&mut self, now: u64)
        requires
            old(self).wf(),
        ensures
            final(self).wf(),
            final(self)@ == old(self)@,
            final(self).last_time() == now,
            active_set_of(old(self)@).len() == 0 ==> final(self).cursor() == 0,
            active_set_of(old(self)@).len() > 0 ==> final(self).cursor() == (old(self).cursor()
                + 1) % (active_set_of(old(self)@).len() as int),
    {
        self.last_block_time = now;
        if self.active_validators.len() > 0 {
            self.current_validator_index = (self.current_validator_index + 1)
                % self.active_validators.len();
        }
    }
}

/// Leader rotation walks the active set in order: advancing from slot `c`
/// reaches slot `c + 1`, and wraps to the first slot after the last.
pub proof fn lemma_rotation_wraps(c: int, len: int)
    requires
        0 <= c < len,
    ensures
        (c + 1) % len == if c + 1 < len {
            c + 1
        } else {
            0
        },
{
    if c + 1 < len {
        vstd::arithmetic::div_mod::lemma_small_mod((c + 1) as nat, len as nat);
    } else {
        vstd::arithmetic::div_mod::lemma_mod_self_0(len);
    }
}

} // verus!
