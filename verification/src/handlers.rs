//! The eight role handlers: Requester/Provider for Create, Read, Update, and
//! Delete, plus the registration stub.
//!
//! Each provider handler is verified against the model store; its contract is
//! the exact store transition it performs, stated by a spec transition
//! function, so that the protocol's laws are theorems about those
//! transitions. The requester stubs of Create, Update, and Delete exist only
//! so the orchestration substrate has a handler to dispatch to; the Read
//! requester is the waiting half of the variable-transfer handshake.

use vstd::prelude::*;

use crate::keys::{
    entry_key, entry_key_spec, lemma_entry_key_ne_default_key, lemma_entry_key_ne_quota_key,
    lemma_task_result_keys_distinct, task_result_key, task_result_key_spec, transfer_key,
    transfer_key_spec, transfer_name, transfer_name_spec,
};
use crate::params::{verdict, CreateParams, DeleteParams, ProtoError, ReadParams, UpdateParams};
use crate::quota::{charge_map, charge_ok, charge_quota, quota_wf};
use crate::store::EntryStore;

verus! {

/// Bytes a Create or Update charges: the logical name's length plus the
/// payload's.
pub open spec fn charge_amount(name: Seq<u8>, payload: Seq<u8>) -> int {
    name.len() + payload.len() as int
}

/// Create-Provider's verdict on store `m`: `AlreadyExists` if the key is
/// taken, `InsufficientQuota` if the charge does not fit, else success.
pub open spec fn create_verdict(
    m: Map<Seq<u8>, Seq<u8>>,
    requester: Seq<u8>,
    is_public: bool,
    name: Seq<u8>,
    payload: Seq<u8>,
) -> Option<ProtoError> {
    if m.contains_key(entry_key_spec(is_public, requester, name)) {
        Some(ProtoError::AlreadyExists)
    } else if !charge_ok(m, requester, charge_amount(name, payload)) {
        Some(ProtoError::InsufficientQuota)
    } else {
        None
    }
}

/// The store Create-Provider leaves behind: on success the charged counter
/// and the new entry; on a failed charge only the ledger's lazy
/// initialization; on `AlreadyExists` nothing.
pub open spec fn create_map(
    m: Map<Seq<u8>, Seq<u8>>,
    requester: Seq<u8>,
    is_public: bool,
    name: Seq<u8>,
    payload: Seq<u8>,
) -> Map<Seq<u8>, Seq<u8>> {
    let k = entry_key_spec(is_public, requester, name);
    if m.contains_key(k) {
        m
    } else {
        let m1 = charge_map(m, requester, charge_amount(name, payload));
        if charge_ok(m, requester, charge_amount(name, payload)) {
            m1.insert(k, payload)
        } else {
            m1
        }
    }
}

/// Registration stub dispatched when the protocol is installed; no store
/// access.
pub fn init_handler() -> (r: Result<(), ProtoError>)
    ensures
        r is Ok,
{
    Ok(())
}

/// Create-Requester: a stub so the substrate has a handler to dispatch to;
/// no store access.
pub fn create_requester() -> (r: Result<(), ProtoError>)
    ensures
        r is Ok,
{
    Ok(())
}

/// Update-Requester: a stub; no store access.
pub fn update_requester() -> (r: Result<(), ProtoError>)
    ensures
        r is Ok,
{
    Ok(())
}

/// Delete-Requester: a stub; no store access.
pub fn delete_requester() -> (r: Result<(), ProtoError>)
    ensures
        r is Ok,
{
    Ok(())
}

/// Create-Provider: charges `len(name) + len(payload)` against the
/// requester's quota, then stores the entry. A failed charge aborts the whole
/// operation with no entry written; creating over an existing key fails
/// before anything — quota included — is touched.
pub fn create_provider(store: &mut EntryStore, params: &CreateParams, requester_uid: &Vec<u8>) -> (r:
    Result<(), ProtoError>)
    requires
        old(store).wf(),
        quota_wf(old(store)@, requester_uid@),
        params.remote_key_name@.len() + params.payload@.len() <= i64::MAX,
    ensures
        final(store).wf(),
        quota_wf(final(store)@, requester_uid@),
        verdict(r) == create_verdict(
            old(store)@,
            requester_uid@,
            params.is_public,
            params.remote_key_name@,
            params.payload@,
        ),
        final(store)@ == create_map(
            old(store)@,
            requester_uid@,
            params.is_public,
            params.remote_key_name@,
            params.payload@,
        ),
        r is Ok ==> final(store)@[entry_key_spec(
            params.is_public,
            requester_uid@,
            params.remote_key_name@,
        )] == params.payload@,
{
    let k = entry_key(params.is_public, requester_uid, &params.remote_key_name);
    proof {
        lemma_entry_key_ne_quota_key(
            params.is_public,
            requester_uid@,
            params.remote_key_name@,
            requester_uid@,
        );
        lemma_entry_key_ne_default_key(params.is_public, requester_uid@, params.remote_key_name@);
    }
    if store.contains(&k) {
        return Err(ProtoError::AlreadyExists);
    }
    let amount: i64 = (params.remote_key_name.len() as u64 + params.payload.len() as u64) as i64;
    assert(amount as int == charge_amount(params.remote_key_name@, params.payload@));
    match charge_quota(store, requester_uid, amount) {
        Err(e) => {
            return Err(e);
        },
        Ok(()) => {},
    }
    let created = store.create(&k, &params.payload);
    assert(created is Ok);
    Ok(())
}

/// What Update-Provider reports: `NotFound` if the entry does not exist — it is
/// never silently re-created — `InsufficientQuota` if the charge does not
/// fit, else success.
pub open spec fn update_verdict(
    m: Map<Seq<u8>, Seq<u8>>,
    requester: Seq<u8>,
    is_public: bool,
    name: Seq<u8>,
    payload: Seq<u8>,
) -> Option<ProtoError> {
    if !m.contains_key(entry_key_spec(is_public, requester, name)) {
        Some(ProtoError::NotFound)
    } else if !charge_ok(m, requester, charge_amount(name, payload)) {
        Some(ProtoError::InsufficientQuota)
    } else {
        None
    }
}

/// The store Update-Provider leaves behind.
pub open spec fn update_map(
    m: Map<Seq<u8>, Seq<u8>>,
    requester: Seq<u8>,
    is_public: bool,
    name: Seq<u8>,
    payload: Seq<u8>,
) -> Map<Seq<u8>, Seq<u8>> {
    let k = entry_key_spec(is_public, requester, name);
    if !m.contains_key(k) {
        m
    } else {
        let m1 = charge_map(m, requester, charge_amount(name, payload));
        if charge_ok(m, requester, charge_amount(name, payload)) {
            m1.insert(k, payload)
        } else {
            m1
        }
    }
}

/// Update-Provider: charges the same amount a Create would, then overwrites
/// the existing entry. A missing entry fails with `NotFound` before any
/// quota is charged.
pub fn update_provider(store: &mut EntryStore, params: &UpdateParams, requester_uid: &Vec<u8>) -> (r:
    Result<(), ProtoError>)
    requires
        old(store).wf(),
        quota_wf(old(store)@, requester_uid@),
        params.remote_key_name@.len() + params.payload@.len() <= i64::MAX,
    ensures
        final(store).wf(),
        quota_wf(final(store)@, requester_uid@),
        verdict(r) == update_verdict(
            old(store)@,
            requester_uid@,
            params.is_public,
            params.remote_key_name@,
            params.payload@,
        ),
        final(store)@ == update_map(
            old(store)@,
            requester_uid@,
            params.is_public,
            params.remote_key_name@,
            params.payload@,
        ),
        r is Ok ==> final(store)@[entry_key_spec(
            params.is_public,
            requester_uid@,
            params.remote_key_name@,
        )] == params.payload@,
{
    let k = entry_key(params.is_public, requester_uid, &params.remote_key_name);
    proof {
        lemma_entry_key_ne_quota_key(
            params.is_public,
            requester_uid@,
            params.remote_key_name@,
            requester_uid@,
        );
        lemma_entry_key_ne_default_key(params.is_public, requester_uid@, params.remote_key_name@);
    }
    if !store.contains(&k) {
        return Err(ProtoError::NotFound);
    }
    let amount: i64 = (params.remote_key_name.len() as u64 + params.payload.len() as u64) as i64;
    assert(amount as int == charge_amount(params.remote_key_name@, params.payload@));
    match charge_quota(store, requester_uid, amount) {
        Err(e) => {
            return Err(e);
        },
        Ok(()) => {},
    }
    let updated = store.update(&k, &params.payload);
    assert(updated is Ok);
    Ok(())
}

/// What Delete-Provider reports: `NotFound` if the entry does not exist.
pub open spec fn delete_verdict(
    m: Map<Seq<u8>, Seq<u8>>,
    requester: Seq<u8>,
    is_public: bool,
    name: Seq<u8>,
) -> Option<ProtoError> {
    if m.contains_key(entry_key_spec(is_public, requester, name)) {
        None
    } else {
        Some(ProtoError::NotFound)
    }
}

/// The store Delete-Provider leaves behind: the entry is removed; no quota is
/// refunded.
pub open spec fn delete_map(
    m: Map<Seq<u8>, Seq<u8>>,
    requester: Seq<u8>,
    is_public: bool,
    name: Seq<u8>,
) -> Map<Seq<u8>, Seq<u8>> {
    let k = entry_key_spec(is_public, requester, name);
    if m.contains_key(k) {
        m.remove(k)
    } else {
        m
    }
}

/// Delete-Provider: removes the entry unconditionally once the request
/// reaches the provider; no quota refund.
pub fn delete_provider(store: &mut EntryStore, params: &DeleteParams, requester_uid: &Vec<u8>) -> (r:
    Result<(), ProtoError>)
    requires
        old(store).wf(),
    ensures
        final(store).wf(),
        verdict(r) == delete_verdict(
            old(store)@,
            requester_uid@,
            params.is_public,
            params.remote_key_name@,
        ),
        final(store)@ == delete_map(
            old(store)@,
            requester_uid@,
            params.is_public,
            params.remote_key_name@,
        ),
        r is Ok ==> !final(store)@.contains_key(entry_key_spec(
            params.is_public,
            requester_uid@,
            params.remote_key_name@,
        )),
{
    let k = entry_key(params.is_public, requester_uid, &params.remote_key_name);
    store.delete(&k)
}

/// Holder defaulting: an unset (empty) holder id means the calling requester
/// itself.
pub open spec fn resolved_holder(holder_id: Seq<u8>, requester: Seq<u8>) -> Seq<u8> {
    if holder_id.len() == 0 {
        requester
    } else {
        holder_id
    }
}

/// The permission rule for reads: a public entry may be read by anyone, a
/// private one only by its holder.
pub open spec fn read_allowed(is_public: bool, holder: Seq<u8>, requester: Seq<u8>) -> bool {
    is_public || holder == requester
}

/// Resolves the effective holder id of a Read.
pub fn resolve_holder(holder_id: &Vec<u8>, requester_uid: &Vec<u8>) -> (h: Vec<u8>)
    ensures
        h@ == resolved_holder(holder_id@, requester_uid@),
{
    if holder_id.len() == 0 {
        let h = requester_uid.clone();
        assert(h@ =~= requester_uid@);
        h
    } else {
        let h = holder_id.clone();
        assert(h@ =~= holder_id@);
        h
    }
}

/// Decides Read-Provider's permission check.
pub fn is_read_allowed(is_public: bool, holder: &Vec<u8>, requester_uid: &Vec<u8>) -> (b: bool)
    ensures
        b == read_allowed(is_public, holder@, requester_uid@),
{
    if is_public {
        true
    } else {
        let eq = holder == requester_uid;
        proof {
            if eq {
                assert(holder@ =~= requester_uid@);
            }
            if holder@ == requester_uid@ {
                assert(forall|i: int| 0 <= i < holder@.len() ==> holder@[i] == requester_uid@[i]);
            }
        }
        eq
    }
}

/// Dispatch of a nested Create sub-task. The substrate invokes the no-op
/// requester stub and the Create-Provider handler; the dispatching party is
/// the sub-task's requester, so the entry lands in its own namespace and is
/// charged against its own quota.
pub fn run_create_task(store: &mut EntryStore, params: &CreateParams, requester_uid: &Vec<u8>) -> (r:
    Result<(), ProtoError>)
    requires
        old(store).wf(),
        quota_wf(old(store)@, requester_uid@),
        params.remote_key_name@.len() + params.payload@.len() <= i64::MAX,
    ensures
        final(store).wf(),
        quota_wf(final(store)@, requester_uid@),
        verdict(r) == create_verdict(
            old(store)@,
            requester_uid@,
            params.is_public,
            params.remote_key_name@,
            params.payload@,
        ),
        final(store)@ == create_map(
            old(store)@,
            requester_uid@,
            params.is_public,
            params.remote_key_name@,
            params.payload@,
        ),
{
    let stub = create_requester();
    assert(stub is Ok);
    create_provider(store, params, requester_uid)
}

/// Read-Provider's status signal: a nested Create of the one-byte status
/// record — `0` success, `1` failure — as a private entry of the provider,
/// named by the original task id so the waiting requester can address it.
pub fn set_status(store: &mut EntryStore, provider_uid: &Vec<u8>, task_id: &Vec<u8>, status_code:
    u8) -> (r: Result<(), ProtoError>)
    requires
        old(store).wf(),
        quota_wf(old(store)@, provider_uid@),
        task_id@.len() + 27 <= i64::MAX,
    ensures
        final(store).wf(),
        quota_wf(final(store)@, provider_uid@),
        verdict(r) == create_verdict(
            old(store)@,
            provider_uid@,
            false,
            transfer_name_spec(task_id@, true),
            seq![status_code],
        ),
        final(store)@ == create_map(
            old(store)@,
            provider_uid@,
            false,
            transfer_name_spec(task_id@, true),
            seq![status_code],
        ),
        r is Ok ==> final(store)@[transfer_key_spec(provider_uid@, task_id@, true)] == seq![
            status_code,
        ],
{
    let name = transfer_name(task_id, true);
    let mut status: Vec<u8> = Vec::new();
    status.push(status_code);
    assert(status@ =~= seq![status_code]);
    let params = CreateParams { remote_key_name: name, payload: status, is_public: false };
    run_create_task(store, &params, provider_uid)
}

/// What Read-Provider reports: a denied or failed read is funneled through the
/// status handshake — never aborted silently — and the status write's own
/// failure takes precedence; on a served read the verdicts of the two nested
/// Creates follow.
pub open spec fn read_provider_verdict(
    m: Map<Seq<u8>, Seq<u8>>,
    requester: Seq<u8>,
    provider: Seq<u8>,
    task: Seq<u8>,
    is_public: bool,
    name: Seq<u8>,
    holder_id: Seq<u8>,
) -> Option<ProtoError> {
    let holder = resolved_holder(holder_id, requester);
    let ek = entry_key_spec(is_public, holder, name);
    if !read_allowed(is_public, holder, requester) {
        let sv = create_verdict(m, provider, false, transfer_name_spec(task, true), seq![1u8]);
        if sv is None {
            Some(ProtoError::PermissionDenied)
        } else {
            sv
        }
    } else if !m.contains_key(ek) {
        let sv = create_verdict(m, provider, false, transfer_name_spec(task, true), seq![1u8]);
        if sv is None {
            Some(ProtoError::NotFound)
        } else {
            sv
        }
    } else {
        let sv = create_verdict(m, provider, false, transfer_name_spec(task, true), seq![0u8]);
        if sv is Some {
            sv
        } else {
            let m1 = create_map(m, provider, false, transfer_name_spec(task, true), seq![0u8]);
            create_verdict(m1, provider, false, transfer_name_spec(task, false), m[ek])
        }
    }
}

/// The store Read-Provider leaves behind: the status record (and, on a served
/// read, the output record), written through the Create sub-protocol.
pub open spec fn read_provider_map(
    m: Map<Seq<u8>, Seq<u8>>,
    requester: Seq<u8>,
    provider: Seq<u8>,
    task: Seq<u8>,
    is_public: bool,
    name: Seq<u8>,
    holder_id: Seq<u8>,
) -> Map<Seq<u8>, Seq<u8>> {
    let holder = resolved_holder(holder_id, requester);
    let ek = entry_key_spec(is_public, holder, name);
    if !read_allowed(is_public, holder, requester) || !m.contains_key(ek) {
        create_map(m, provider, false, transfer_name_spec(task, true), seq![1u8])
    } else {
        let m1 = create_map(m, provider, false, transfer_name_spec(task, true), seq![0u8]);
        if create_verdict(m, provider, false, transfer_name_spec(task, true), seq![0u8]) is Some {
            m1
        } else {
            create_map(m1, provider, false, transfer_name_spec(task, false), m[ek])
        }
    }
}

/// Read-Provider: resolves the holder, checks permission, reads the entry,
/// and hands the outcome back through the variable-transfer handshake. A
/// denial or a missing entry signals status `1` before the error is
/// propagated; a served read signals status `0` and then delivers the payload
/// at the output record.
pub fn read_provider(
    store: &mut EntryStore,
    params: &ReadParams,
    requester_uid: &Vec<u8>,
    provider_uid: &Vec<u8>,
    task_id: &Vec<u8>,
) -> (r: Result<(), ProtoError>)
    requires
        old(store).wf(),
        quota_wf(old(store)@, provider_uid@),
        task_id@.len() + 27 <= i64::MAX,
        old(store)@.contains_key(
            entry_key_spec(
                params.is_public,
                resolved_holder(params.holder_id@, requester_uid@),
                params.remote_key_name@,
            ),
        ) ==> task_id@.len() + 26 + old(store)@[entry_key_spec(
            params.is_public,
            resolved_holder(params.holder_id@, requester_uid@),
            params.remote_key_name@,
        )].len() <= i64::MAX,
    ensures
        final(store).wf(),
        quota_wf(final(store)@, provider_uid@),
        verdict(r) == read_provider_verdict(
            old(store)@,
            requester_uid@,
            provider_uid@,
            task_id@,
            params.is_public,
            params.remote_key_name@,
            params.holder_id@,
        ),
        final(store)@ == read_provider_map(
            old(store)@,
            requester_uid@,
            provider_uid@,
            task_id@,
            params.is_public,
            params.remote_key_name@,
            params.holder_id@,
        ),
{
    let holder = resolve_holder(&params.holder_id, requester_uid);
    let allowed = is_read_allowed(params.is_public, &holder, requester_uid);
    if !allowed {
        match set_status(store, provider_uid, task_id, 1) {
            Ok(()) => {
                return Err(ProtoError::PermissionDenied);
            },
            Err(e) => {
                return Err(e);
            },
        }
    }
    let ek = entry_key(params.is_public, &holder, &params.remote_key_name);
    let payload = match store.read(&ek) {
        Ok(p) => p,
        Err(e) => {
            match set_status(store, provider_uid, task_id, 1) {
                Ok(()) => {
                    return Err(e);
                },
                Err(e2) => {
                    return Err(e2);
                },
            }
        },
    };
    match set_status(store, provider_uid, task_id, 0) {
        Ok(()) => {},
        Err(e) => {
            return Err(e);
        },
    }
    let out_name = transfer_name(task_id, false);
    let out_params = CreateParams { remote_key_name: out_name, payload, is_public: false };
    run_create_task(store, &out_params, provider_uid)
}

/// What Read-Requester reports: with the provider's status observed, publishing
/// the result can only collide with an already-occupied task result slot.
pub open spec fn read_requester_verdict(
    m: Map<Seq<u8>, Seq<u8>>,
    provider: Seq<u8>,
    task: Seq<u8>,
) -> Option<ProtoError> {
    if m[transfer_key_spec(provider, task, true)][0] == 0 {
        if m.contains_key(task_result_key_spec(task, false)) {
            Some(ProtoError::AlreadyExists)
        } else if m.contains_key(task_result_key_spec(task, true)) {
            Some(ProtoError::AlreadyExists)
        } else {
            None
        }
    } else {
        if m.contains_key(task_result_key_spec(task, true)) {
            Some(ProtoError::AlreadyExists)
        } else {
            None
        }
    }
}

/// The store Read-Requester leaves behind: on status `0` the provider's
/// output, copied to the task's well-known result slot, then the result
/// status `0`; on any other status only the result status `1` — the output is
/// never touched.
pub open spec fn read_requester_map(
    m: Map<Seq<u8>, Seq<u8>>,
    provider: Seq<u8>,
    task: Seq<u8>,
) -> Map<Seq<u8>, Seq<u8>> {
    let out_slot = task_result_key_spec(task, false);
    let st_slot = task_result_key_spec(task, true);
    if m[transfer_key_spec(provider, task, true)][0] == 0 {
        if m.contains_key(out_slot) {
            m
        } else {
            let m1 = m.insert(out_slot, m[transfer_key_spec(provider, task, false)]);
            if m.contains_key(st_slot) {
                m1
            } else {
                m1.insert(st_slot, seq![0u8])
            }
        }
    } else {
        if m.contains_key(st_slot) {
            m
        } else {
            m.insert(st_slot, seq![1u8])
        }
    }
}

/// Read-Requester: blocks on the provider's status record; on status `0`
/// blocks on the output record and publishes it at the task's well-known
/// result slot with status `0`; on any other status publishes status `1` and
/// never reads the output — a denied or failed read cannot leave the
/// requester blocked on an output record that will never be written.
pub fn read_requester(store: &mut EntryStore, provider_uid: &Vec<u8>, task_id: &Vec<u8>) -> (r:
    Result<(), ProtoError>)
    requires
        old(store).wf(),
        old(store)@.contains_key(transfer_key_spec(provider_uid@, task_id@, true)),
        old(store)@[transfer_key_spec(provider_uid@, task_id@, true)].len() >= 1,
        old(store)@[transfer_key_spec(provider_uid@, task_id@, true)][0] == 0 ==> old(
            store,
        )@.contains_key(transfer_key_spec(provider_uid@, task_id@, false)),
    ensures
        final(store).wf(),
        verdict(r) == read_requester_verdict(old(store)@, provider_uid@, task_id@),
        final(store)@ == read_requester_map(old(store)@, provider_uid@, task_id@),
{
    let status_key = transfer_key(provider_uid, task_id, true);
    let status = store.read_or_wait(&status_key);
    if status[0] == 0 {
        let output_key = transfer_key(provider_uid, task_id, false);
        let data = store.read_or_wait(&output_key);
        let out_slot = task_result_key(task_id, false);
        match store.create(&out_slot, &data) {
            Err(e) => {
                return Err(e);
            },
            Ok(()) => {},
        }
        proof {
            lemma_task_result_keys_distinct(task_id@);
        }
        let st_slot = task_result_key(task_id, true);
        let mut zero: Vec<u8> = Vec::new();
        zero.push(0);
        assert(zero@ =~= seq![0u8]);
        store.create(&st_slot, &zero)
    } else {
        let st_slot = task_result_key(task_id, true);
        let mut one: Vec<u8> = Vec::new();
        one.push(1);
        assert(one@ =~= seq![1u8]);
        store.create(&st_slot, &one)
    }
}

} // verus!
