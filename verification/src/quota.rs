//! Quota ledger: the per-owner remaining-byte counter.
//!
//! Every Create and Update charges `len(name) + len(payload)` bytes against
//! the requesting owner's counter, a signed 64-bit integer stored
//! little-endian under `quota_key_spec(owner)`. The counter is lazily
//! initialized: on the first query for which neither the owner's counter nor
//! the stored global default exists, the default counter is created with the
//! configured value. A charge that would drive the counter negative fails
//! with `InsufficientQuota` and writes no entry.
//!
//! The charge is a locked read-modify-write: against the real store the
//! caller holds the per-owner advisory lock for the whole routine and
//! releases it on every exit path. Here the exclusive `&mut` borrow of the
//! model store stands for the held lock, so concurrent charges serialize, as
//! the lock serializes them, into the sequences `lemma_charges_bounded`
//! quantifies over.

use vstd::prelude::*;

use crate::keys::{
    default_quota_key, default_quota_key_spec, lemma_quota_key_ne_default_key, quota_key,
    quota_key_spec,
};
use crate::params::ProtoError;
use crate::store::EntryStore;

verus! {

/// Initial remaining quota, in bytes, of an owner whose counter was never
/// configured: 4 MiB.
pub const DEFAULT_REMAINING_QUOTA: i64 = 4194304;

/// The unsigned 64-bit word whose little-endian bytes encode counter `x`:
/// its two's complement.
pub open spec fn counter_to_u64(x: i64) -> u64 {
    if x >= 0 {
        x as u64
    } else {
        (x + 0x10000000000000000) as u64
    }
}

/// The counter a 64-bit word decodes to.
pub open spec fn u64_to_counter(x: u64) -> i64 {
    if x <= i64::MAX {
        x as i64
    } else {
        (x - 0x10000000000000000) as i64
    }
}

/// The eight little-endian bytes a counter is stored as.
pub open spec fn counter_bytes(x: i64) -> Seq<u8> {
    vstd::bytes::spec_u64_to_le_bytes(counter_to_u64(x))
}

/// The counter eight stored bytes decode to.
pub open spec fn counter_of_bytes(s: Seq<u8>) -> i64
    recommends
        s.len() == 8,
{
    u64_to_counter(vstd::bytes::spec_u64_from_le_bytes(s))
}

/// Decoding inverts encoding.
pub proof fn lemma_counter_bytes_roundtrip(x: i64)
    ensures
        counter_bytes(x).len() == 8,
        counter_of_bytes(counter_bytes(x)) == x,
{
    vstd::bytes::lemma_auto_spec_u64_to_from_le_bytes();
}

/// Encodes a counter as its eight little-endian bytes.
pub fn counter_to_le_bytes(x: i64) -> (v: Vec<u8>)
    ensures
        v@ == counter_bytes(x),
        v@.len() == 8,
{
    let w: u64 = if x >= 0 {
        x as u64
    } else {
        u64::MAX - ((-(x + 1)) as u64)
    };
    assert(w == counter_to_u64(x));
    vstd::bytes::u64_to_le_bytes(w)
}

/// Decodes a counter from its eight little-endian bytes.
pub fn counter_from_le_bytes(v: &Vec<u8>) -> (x: i64)
    requires
        v@.len() == 8,
    ensures
        x == counter_of_bytes(v@),
{
    let w = vstd::bytes::u64_from_le_bytes(v.as_slice());
    if w <= (i64::MAX as u64) {
        w as i64
    } else {
        let y = -((u64::MAX - w) as i64) - 1;
        assert(y == u64_to_counter(w));
        y
    }
}

/// The store holds well-formed counters: wherever the owner's counter or the
/// stored default exists, its value is eight bytes long.
pub open spec fn quota_wf(m: Map<Seq<u8>, Seq<u8>>, owner: Seq<u8>) -> bool {
    &&& m.contains_key(quota_key_spec(owner)) ==> m[quota_key_spec(owner)].len() == 8
    &&& m.contains_key(default_quota_key_spec()) ==> m[default_quota_key_spec()].len() == 8
}

/// The counter a charge against `owner` starts from: the owner's counter if
/// it exists, else the stored default, else the configured default.
pub open spec fn effective_quota(m: Map<Seq<u8>, Seq<u8>>, owner: Seq<u8>) -> i64 {
    if m.contains_key(quota_key_spec(owner)) {
        counter_of_bytes(m[quota_key_spec(owner)])
    } else if m.contains_key(default_quota_key_spec()) {
        counter_of_bytes(m[default_quota_key_spec()])
    } else {
        DEFAULT_REMAINING_QUOTA
    }
}

/// The store after the lazy initialization a counter query performs: if
/// neither the owner's counter nor the stored default exists, the default
/// counter is created; otherwise nothing changes.
pub open spec fn with_lazy_default(m: Map<Seq<u8>, Seq<u8>>, owner: Seq<u8>) -> Map<
    Seq<u8>,
    Seq<u8>,
> {
    if !m.contains_key(quota_key_spec(owner)) && !m.contains_key(default_quota_key_spec()) {
        m.insert(default_quota_key_spec(), counter_bytes(DEFAULT_REMAINING_QUOTA))
    } else {
        m
    }
}

/// Whether a charge of `amount` against `owner` succeeds on store `m`.
pub open spec fn charge_ok(m: Map<Seq<u8>, Seq<u8>>, owner: Seq<u8>, amount: int) -> bool {
    amount <= effective_quota(m, owner)
}

/// The store a charge of `amount` against `owner` leaves behind: on success
/// the decremented counter is written back; on failure only the lazy
/// initialization is visible.
pub open spec fn charge_map(m: Map<Seq<u8>, Seq<u8>>, owner: Seq<u8>, amount: int) -> Map<
    Seq<u8>,
    Seq<u8>,
> {
    if charge_ok(m, owner, amount) {
        with_lazy_default(m, owner).insert(
            quota_key_spec(owner),
            counter_bytes((effective_quota(m, owner) - amount) as i64),
        )
    } else {
        with_lazy_default(m, owner)
    }
}

/// Charges `amount` bytes against `owner`'s remaining quota: the locked
/// read-modify-write of `charge_map`, failing with `InsufficientQuota` — and
/// writing no counter — when the remaining quota is smaller than the charge.
pub fn charge_quota(store: &mut EntryStore, owner: &Vec<u8>, amount: i64) -> (r: Result<
    (),
    ProtoError,
>)
    requires
        old(store).wf(),
        quota_wf(old(store)@, owner@),
        amount >= 0,
    ensures
        final(store).wf(),
        quota_wf(final(store)@, owner@),
        r is Ok <==> charge_ok(old(store)@, owner@, amount as int),
        r is Err ==> r == Err::<(), ProtoError>(ProtoError::InsufficientQuota),
        final(store)@ == charge_map(old(store)@, owner@, amount as int),
        r is Ok ==> effective_quota(final(store)@, owner@) == effective_quota(old(store)@, owner@)
            - amount,
{
    let qk = quota_key(owner);
    proof {
        lemma_quota_key_ne_default_key(owner@);
    }
    let owner_counter_exists: bool;
    let current: i64;
    match store.read(&qk) {
        Ok(data) => {
            owner_counter_exists = true;
            current = counter_from_le_bytes(&data);
        },
        Err(_) => {
            owner_counter_exists = false;
            let dk = default_quota_key();
            match store.read(&dk) {
                Ok(data) => {
                    current = counter_from_le_bytes(&data);
                },
                Err(_) => {
                    let bytes = counter_to_le_bytes(DEFAULT_REMAINING_QUOTA);
                    let created = store.create(&dk, &bytes);
                    assert(created is Ok);
                    current = DEFAULT_REMAINING_QUOTA;
                },
            }
        },
    }
    assert(current == effective_quota(old(store)@, owner@));
    assert(store@ == with_lazy_default(old(store)@, owner@));
    if current < amount {
        assert(!charge_ok(old(store)@, owner@, amount as int));
        return Err(ProtoError::InsufficientQuota);
    }
    let new_counter = current - amount;
    let bytes = counter_to_le_bytes(new_counter);
    proof {
        lemma_counter_bytes_roundtrip(new_counter);
        lemma_counter_bytes_roundtrip(DEFAULT_REMAINING_QUOTA);
    }
    if owner_counter_exists {
        let updated = store.update(&qk, &bytes);
        assert(updated is Ok);
    } else {
        let created = store.create(&qk, &bytes);
        assert(created is Ok);
    }
    Ok(())
}

/// One charge attempt against a plain counter: whether it succeeds.
pub open spec fn charge_succeeds(c: int, a: int) -> bool {
    0 <= a <= c
}

/// One charge attempt against a plain counter: the counter it leaves.
pub open spec fn counter_after_charge(c: int, a: int) -> int {
    if charge_succeeds(c, a) {
        c - a
    } else {
        c
    }
}

/// The counter left by a sequence of charge attempts, first attempt first.
pub open spec fn counter_after_charges(c: int, amounts: Seq<int>) -> int
    decreases amounts.len(),
{
    if amounts.len() == 0 {
        c
    } else {
        counter_after_charges(counter_after_charge(c, amounts[0]), amounts.drop_first())
    }
}

/// The bytes successfully charged by a sequence of charge attempts.
pub open spec fn total_charged(c: int, amounts: Seq<int>) -> int
    decreases amounts.len(),
{
    if amounts.len() == 0 {
        0
    } else {
        (if charge_succeeds(c, amounts[0]) {
            amounts[0]
        } else {
            0
        }) + total_charged(counter_after_charge(c, amounts[0]), amounts.drop_first())
    }
}

/// However many charge attempts run against one owner, and in whatever order
/// the per-owner lock serializes them, the bytes charged since the counter
/// was initialized never exceed its initial value, and the counter never goes
/// negative.
pub proof fn lemma_charges_bounded(c0: int, amounts: Seq<int>)
    requires
        c0 >= 0,
    ensures
        0 <= total_charged(c0, amounts) <= c0,
        counter_after_charges(c0, amounts) == c0 - total_charged(c0, amounts),
    decreases amounts.len(),
{
    if amounts.len() == 0 {
    } else {
        lemma_charges_bounded(counter_after_charge(c0, amounts[0]), amounts.drop_first());
    }
}

/// Two charges for one owner whose combined size exceeds the remaining quota,
/// but which each fit alone: exactly one succeeds and one fails, whichever
/// order the lock grants, and the counter never goes negative.
pub proof fn lemma_charge_pair_exclusive(c0: int, a: int, b: int)
    requires
        0 <= a <= c0,
        0 <= b <= c0,
        a + b > c0,
    ensures
        charge_succeeds(c0, a) && !charge_succeeds(counter_after_charge(c0, a), b),
        charge_succeeds(c0, b) && !charge_succeeds(counter_after_charge(c0, b), a),
        counter_after_charges(c0, seq![a, b]) == c0 - a,
        counter_after_charges(c0, seq![b, a]) == c0 - b,
        counter_after_charges(c0, seq![a, b]) >= 0,
        counter_after_charges(c0, seq![b, a]) >= 0,
{
    let ca = counter_after_charge(c0, a);
    let cb = counter_after_charge(c0, b);
    assert(seq![a, b].drop_first() =~= seq![b]);
    assert(seq![b, a].drop_first() =~= seq![a]);
    assert(seq![b].drop_first() =~= Seq::<int>::empty());
    assert(seq![a].drop_first() =~= Seq::<int>::empty());
    assert(seq![a, b][0] == a && seq![b, a][0] == b && seq![a][0] == a && seq![b][0] == b);
    assert(counter_after_charges(counter_after_charge(ca, b), Seq::<int>::empty())
        == counter_after_charge(ca, b));
    assert(counter_after_charges(counter_after_charge(cb, a), Seq::<int>::empty())
        == counter_after_charge(cb, a));
    assert(counter_after_charges(ca, seq![b]) == counter_after_charge(ca, b));
    assert(counter_after_charges(cb, seq![a]) == counter_after_charge(cb, a));
    assert(counter_after_charges(c0, seq![a, b]) == counter_after_charges(ca, seq![b]));
    assert(counter_after_charges(c0, seq![b, a]) == counter_after_charges(cb, seq![a]));
}

/// The ledger transition matches one charge attempt against the plain
/// counter: the effective quota evolves exactly by `counter_after_charge`.
pub proof fn lemma_charge_matches_counter(m: Map<Seq<u8>, Seq<u8>>, owner: Seq<u8>, amount: int)
    requires
        amount >= 0,
    ensures
        effective_quota(charge_map(m, owner, amount), owner) as int == counter_after_charge(
            effective_quota(m, owner) as int,
            amount,
        ),
{
    lemma_quota_key_ne_default_key(owner);
    if charge_ok(m, owner, amount) {
        lemma_counter_bytes_roundtrip((effective_quota(m, owner) - amount) as i64);
    } else {
        lemma_counter_bytes_roundtrip(DEFAULT_REMAINING_QUOTA);
    }
}

/// Two charges for one owner whose combined size exceeds the remaining
/// quota, but which each fit alone, serialized by the per-owner lock in
/// either order: the first succeeds and the second fails, so exactly one of
/// the two operations goes through.
pub proof fn lemma_charge_pair_exclusive_map(m: Map<Seq<u8>, Seq<u8>>, owner: Seq<u8>, a: int, b:
    int)
    requires
        0 <= a <= effective_quota(m, owner),
        0 <= b <= effective_quota(m, owner),
        a + b > effective_quota(m, owner),
    ensures
        charge_ok(m, owner, a) && !charge_ok(charge_map(m, owner, a), owner, b),
        charge_ok(m, owner, b) && !charge_ok(charge_map(m, owner, b), owner, a),
{
    lemma_charge_matches_counter(m, owner, a);
    lemma_charge_matches_counter(m, owner, b);
}

/// The pure decision at the heart of the locked read-modify-write: the new
/// counter if the charge fits, `None` if it must be refused. The party that
/// drives the ledger against the real store reads the counter under the lock,
/// asks this function, and writes back exactly what it returns.
pub fn charge_decision(counter: i64, amount: i64) -> (r: Option<i64>)
    requires
        amount >= 0,
    ensures
        r is Some <==> charge_succeeds(counter as int, amount as int),
        r matches Some(c) ==> c as int == counter_after_charge(counter as int, amount as int),
{
    if counter < amount {
        None
    } else {
        Some(counter - amount)
    }
}

} // verus!
