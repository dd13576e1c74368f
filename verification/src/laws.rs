//! Protocol-level theorems: what the handler transitions guarantee when they
//! are composed the way the protocol composes them.

use vstd::prelude::*;

use crate::handlers::{
    charge_amount, create_map, create_verdict, delete_map, delete_verdict, read_allowed,
    read_provider_map, read_provider_verdict, read_requester_map, read_requester_verdict,
    resolved_holder, update_map, update_verdict,
};
use crate::keys::{
    entry_key_spec, lemma_entry_key_ne_default_key, lemma_entry_key_ne_quota_key,
    lemma_task_result_key_ne_entry_key, lemma_task_result_key_ne_quota_key,
    lemma_task_result_keys_distinct, lemma_transfer_keys_distinct, task_result_key_spec,
    transfer_key_spec, transfer_name_spec,
};
use crate::params::ProtoError;
use crate::quota::{counter_after_charge, effective_quota, lemma_charge_matches_counter};

verus! {

/// Create followed immediately by a read of the same owner, visibility, and
/// name finds exactly the bytes written.
pub proof fn lemma_create_then_read(
    m: Map<Seq<u8>, Seq<u8>>,
    requester: Seq<u8>,
    is_public: bool,
    name: Seq<u8>,
    payload: Seq<u8>,
)
    requires
        create_verdict(m, requester, is_public, name, payload) is None,
    ensures
        create_map(m, requester, is_public, name, payload).contains_key(
            entry_key_spec(is_public, requester, name),
        ),
        create_map(m, requester, is_public, name, payload)[entry_key_spec(
            is_public,
            requester,
            name,
        )] == payload,
{
}

/// Create followed by the full Read handshake, initiated by the owner,
/// returns exactly the bytes written: the provider's status record reads `0`,
/// its output record holds the payload, and the requester republishes the
/// payload unchanged at the task's well-known result slot, for any payload —
/// empty included — the create could store.
pub proof fn lemma_create_then_read_round_trip(
    m: Map<Seq<u8>, Seq<u8>>,
    owner: Seq<u8>,
    provider: Seq<u8>,
    task: Seq<u8>,
    is_public: bool,
    name: Seq<u8>,
    payload: Seq<u8>,
)
    requires
        create_verdict(m, owner, is_public, name, payload) is None,
        read_provider_verdict(
            create_map(m, owner, is_public, name, payload),
            owner,
            provider,
            task,
            is_public,
            name,
            Seq::<u8>::empty(),
        ) is None,
        !m.contains_key(task_result_key_spec(task, false)),
        !m.contains_key(task_result_key_spec(task, true)),
    ensures
        read_provider_map(
            create_map(m, owner, is_public, name, payload),
            owner,
            provider,
            task,
            is_public,
            name,
            Seq::<u8>::empty(),
        )[transfer_key_spec(provider, task, true)] == seq![0u8],
        read_provider_map(
            create_map(m, owner, is_public, name, payload),
            owner,
            provider,
            task,
            is_public,
            name,
            Seq::<u8>::empty(),
        )[transfer_key_spec(provider, task, false)] == payload,
        read_requester_verdict(
            read_provider_map(
                create_map(m, owner, is_public, name, payload),
                owner,
                provider,
                task,
                is_public,
                name,
                Seq::<u8>::empty(),
            ),
            provider,
            task,
        ) is None,
        read_requester_map(
            read_provider_map(
                create_map(m, owner, is_public, name, payload),
                owner,
                provider,
                task,
                is_public,
                name,
                Seq::<u8>::empty(),
            ),
            provider,
            task,
        )[task_result_key_spec(task, false)] == payload,
        read_requester_map(
            read_provider_map(
                create_map(m, owner, is_public, name, payload),
                owner,
                provider,
                task,
                is_public,
                name,
                Seq::<u8>::empty(),
            ),
            provider,
            task,
        )[task_result_key_spec(task, true)] == seq![0u8],
{
    let ek = entry_key_spec(is_public, owner, name);
    let skey = transfer_key_spec(provider, task, true);
    let okey = transfer_key_spec(provider, task, false);
    let sname = transfer_name_spec(task, true);
    let oname = transfer_name_spec(task, false);
    let m1 = create_map(m, owner, is_public, name, payload);
    assert(resolved_holder(Seq::<u8>::empty(), owner) == owner);
    assert(read_allowed(is_public, owner, owner));
    assert(m1[ek] == payload);

    // The two nested creates of the handshake, over m1.
    let m2 = create_map(m1, provider, false, sname, seq![0u8]);
    let m3 = create_map(m2, provider, false, oname, m1[ek]);
    assert(create_verdict(m1, provider, false, sname, seq![0u8]) is None);
    assert(m2[skey] == seq![0u8]);
    assert(create_verdict(m2, provider, false, oname, m1[ek]) is None);
    assert(m3[okey] == payload);
    lemma_transfer_keys_distinct(provider, task);
    lemma_entry_key_ne_quota_key(false, provider, oname, provider);
    lemma_entry_key_ne_default_key(false, provider, oname);
    lemma_entry_key_ne_quota_key(false, provider, sname, provider);
    lemma_entry_key_ne_default_key(false, provider, sname);
    assert(m3[skey] == seq![0u8]);
    assert(read_provider_map(m1, owner, provider, task, is_public, name, Seq::<u8>::empty())
        == m3);

    // The task result slots are untouched by any of the three creates.
    lemma_task_result_key_ne_entry_key(task, false, is_public, owner, name);
    lemma_task_result_key_ne_entry_key(task, true, is_public, owner, name);
    lemma_task_result_key_ne_entry_key(task, false, false, provider, sname);
    lemma_task_result_key_ne_entry_key(task, true, false, provider, sname);
    lemma_task_result_key_ne_entry_key(task, false, false, provider, oname);
    lemma_task_result_key_ne_entry_key(task, true, false, provider, oname);
    lemma_task_result_key_ne_quota_key(task, false, owner);
    lemma_task_result_key_ne_quota_key(task, true, owner);
    lemma_task_result_key_ne_quota_key(task, false, provider);
    lemma_task_result_key_ne_quota_key(task, true, provider);
    assert(!m3.contains_key(task_result_key_spec(task, false)));
    assert(!m3.contains_key(task_result_key_spec(task, true)));

    // The requester observes status 0 and republishes the payload.
    lemma_task_result_keys_distinct(task);
    assert(read_requester_map(m3, provider, task)[task_result_key_spec(task, false)] == payload);
    assert(read_requester_map(m3, provider, task)[task_result_key_spec(task, true)] == seq![0u8]);
}

/// A Read of a private entry by a requester who does not hold it is denied,
/// whatever the prior state: the provider signals status `1` — never the
/// output — and reports the denial.
pub proof fn lemma_denied_read_signals_failure(
    m: Map<Seq<u8>, Seq<u8>>,
    requester: Seq<u8>,
    provider: Seq<u8>,
    task: Seq<u8>,
    name: Seq<u8>,
    holder_id: Seq<u8>,
)
    requires
        !read_allowed(false, resolved_holder(holder_id, requester), requester),
        !m.contains_key(transfer_key_spec(provider, task, false)),
    ensures
        !read_provider_map(m, requester, provider, task, false, name, holder_id).contains_key(
            transfer_key_spec(provider, task, false),
        ),
        create_verdict(m, provider, false, transfer_name_spec(task, true), seq![1u8]) is None
            ==> read_provider_verdict(m, requester, provider, task, false, name, holder_id)
            == Some(ProtoError::PermissionDenied),
        create_verdict(m, provider, false, transfer_name_spec(task, true), seq![1u8]) is None
            ==> read_provider_map(m, requester, provider, task, false, name, holder_id)[
        transfer_key_spec(provider, task, true)] == seq![1u8],
{
    lemma_transfer_keys_distinct(provider, task);
    lemma_entry_key_ne_quota_key(false, provider, transfer_name_spec(task, false), provider);
    lemma_entry_key_ne_default_key(false, provider, transfer_name_spec(task, false));
}

/// A Read of a non-existent entry signals status `1` and never writes the
/// output record, so the requester — which touches the output only on status
/// `0` — is never left blocked on an output that will never come.
pub proof fn lemma_missing_read_signals_failure(
    m: Map<Seq<u8>, Seq<u8>>,
    requester: Seq<u8>,
    provider: Seq<u8>,
    task: Seq<u8>,
    is_public: bool,
    name: Seq<u8>,
    holder_id: Seq<u8>,
)
    requires
        read_allowed(is_public, resolved_holder(holder_id, requester), requester),
        !m.contains_key(entry_key_spec(is_public, resolved_holder(holder_id, requester), name)),
        !m.contains_key(transfer_key_spec(provider, task, false)),
    ensures
        !read_provider_map(m, requester, provider, task, is_public, name, holder_id).contains_key(
            transfer_key_spec(provider, task, false),
        ),
        create_verdict(m, provider, false, transfer_name_spec(task, true), seq![1u8]) is None
            ==> read_provider_verdict(m, requester, provider, task, is_public, name, holder_id)
            == Some(ProtoError::NotFound),
        create_verdict(m, provider, false, transfer_name_spec(task, true), seq![1u8]) is None
            ==> read_provider_map(m, requester, provider, task, is_public, name, holder_id)[
        transfer_key_spec(provider, task, true)] == seq![1u8],
{
    lemma_transfer_keys_distinct(provider, task);
    lemma_entry_key_ne_quota_key(false, provider, transfer_name_spec(task, false), provider);
    lemma_entry_key_ne_default_key(false, provider, transfer_name_spec(task, false));
}

/// On a nonzero status the requester publishes the failure at the task's
/// status slot and leaves the output slot untouched.
pub proof fn lemma_failure_status_skips_output(m: Map<Seq<u8>, Seq<u8>>, provider: Seq<u8>, task:
    Seq<u8>)
    requires
        m[transfer_key_spec(provider, task, true)][0] != 0,
        !m.contains_key(task_result_key_spec(task, false)),
    ensures
        !read_requester_map(m, provider, task).contains_key(task_result_key_spec(task, false)),
        !m.contains_key(task_result_key_spec(task, true)) ==> read_requester_map(
            m,
            provider,
            task,
        )[task_result_key_spec(task, true)] == seq![1u8],
        !m.contains_key(task_result_key_spec(task, true)) ==> read_requester_verdict(
            m,
            provider,
            task,
        ) is None,
{
    lemma_task_result_keys_distinct(task);
}

/// Delete removes the entry: a subsequent read of the key finds nothing, and
/// an Update fails with `NotFound` without silently re-creating the entry —
/// or charging any quota.
pub proof fn lemma_delete_then_gone(
    m: Map<Seq<u8>, Seq<u8>>,
    requester: Seq<u8>,
    is_public: bool,
    name: Seq<u8>,
    payload2: Seq<u8>,
)
    requires
        delete_verdict(m, requester, is_public, name) is None,
    ensures
        !delete_map(m, requester, is_public, name).contains_key(
            entry_key_spec(is_public, requester, name),
        ),
        update_verdict(delete_map(m, requester, is_public, name), requester, is_public, name,
            payload2) == Some(ProtoError::NotFound),
        update_map(delete_map(m, requester, is_public, name), requester, is_public, name, payload2)
            == delete_map(m, requester, is_public, name),
{
}

/// Each Create moves the owner's counter exactly as one charge attempt of
/// `len(name) + len(payload)` bytes, so — with `lemma_charges_bounded` — any
/// serialized run of operations charges at most the counter's initial value.
pub proof fn lemma_create_moves_counter_as_charge(
    m: Map<Seq<u8>, Seq<u8>>,
    requester: Seq<u8>,
    is_public: bool,
    name: Seq<u8>,
    payload: Seq<u8>,
)
    requires
        !m.contains_key(entry_key_spec(is_public, requester, name)),
    ensures
        effective_quota(create_map(m, requester, is_public, name, payload), requester) as int
            == counter_after_charge(
            effective_quota(m, requester) as int,
            charge_amount(name, payload),
        ),
{
    lemma_charge_matches_counter(m, requester, charge_amount(name, payload));
    lemma_entry_key_ne_quota_key(is_public, requester, name, requester);
    lemma_entry_key_ne_default_key(is_public, requester, name);
}

/// Each Update moves the owner's counter exactly as one charge attempt.
pub proof fn lemma_update_moves_counter_as_charge(
    m: Map<Seq<u8>, Seq<u8>>,
    requester: Seq<u8>,
    is_public: bool,
    name: Seq<u8>,
    payload: Seq<u8>,
)
    requires
        m.contains_key(entry_key_spec(is_public, requester, name)),
    ensures
        effective_quota(update_map(m, requester, is_public, name, payload), requester) as int
            == counter_after_charge(
            effective_quota(m, requester) as int,
            charge_amount(name, payload),
        ),
{
    lemma_charge_matches_counter(m, requester, charge_amount(name, payload));
    lemma_entry_key_ne_quota_key(is_public, requester, name, requester);
    lemma_entry_key_ne_default_key(is_public, requester, name);
}

/// Two Creates for one owner whose combined size exceeds the remaining quota,
/// but which each fit alone: the lock under the ledger serializes them, and
/// whichever runs first succeeds while the other fails with
/// `InsufficientQuota` — never both, and the counter never goes negative.
pub proof fn lemma_concurrent_creates_exclusive(
    m: Map<Seq<u8>, Seq<u8>>,
    requester: Seq<u8>,
    is_public: bool,
    name1: Seq<u8>,
    payload1: Seq<u8>,
    name2: Seq<u8>,
    payload2: Seq<u8>,
)
    requires
        entry_key_spec(is_public, requester, name1) != entry_key_spec(is_public, requester, name2),
        !m.contains_key(entry_key_spec(is_public, requester, name1)),
        !m.contains_key(entry_key_spec(is_public, requester, name2)),
        charge_amount(name1, payload1) <= effective_quota(m, requester),
        charge_amount(name2, payload2) <= effective_quota(m, requester),
        charge_amount(name1, payload1) + charge_amount(name2, payload2) > effective_quota(
            m,
            requester,
        ),
    ensures
        create_verdict(m, requester, is_public, name1, payload1) is None,
        create_verdict(
            create_map(m, requester, is_public, name1, payload1),
            requester,
            is_public,
            name2,
            payload2,
        ) == Some(ProtoError::InsufficientQuota),
        effective_quota(create_map(m, requester, is_public, name1, payload1), requester) >= 0,
{
    lemma_create_moves_counter_as_charge(m, requester, is_public, name1, payload1);
    lemma_entry_key_ne_quota_key(is_public, requester, name2, requester);
    lemma_entry_key_ne_default_key(is_public, requester, name2);
    let m1 = create_map(m, requester, is_public, name1, payload1);
    assert(!m1.contains_key(entry_key_spec(is_public, requester, name2)));
}

} // verus!
