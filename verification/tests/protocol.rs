//! End-to-end behaviour of the verified protocol core, driven through the
//! model entry store.

use remote_storage::handlers::{
    create_provider, create_requester, delete_provider, delete_requester, init_handler,
    is_read_allowed, read_provider, read_requester, resolve_holder, set_status, update_provider,
    update_requester,
};
use remote_storage::keys::{
    default_quota_key, entry_key, quota_key, task_result_key, transfer_key,
};
use remote_storage::params::{CreateParams, DeleteParams, ProtoError, ReadParams, UpdateParams};
use remote_storage::quota::{charge_quota, counter_from_le_bytes, counter_to_le_bytes};
use remote_storage::store::EntryStore;

fn b(s: &str) -> Vec<u8> {
    s.as_bytes().to_vec()
}

fn read_counter(store: &EntryStore, key: &Vec<u8>) -> i64 {
    let raw = store.read(key).expect("counter entry exists");
    counter_from_le_bytes(&raw)
}

#[test]
fn stub_handlers_do_nothing_and_succeed() {
    assert!(init_handler().is_ok());
    assert!(create_requester().is_ok());
    assert!(update_requester().is_ok());
    assert!(delete_requester().is_ok());
}

#[test]
fn create_stores_entry_and_charges_quota() {
    let mut store = EntryStore::new();
    let alice = b("alice");
    let params = CreateParams {
        remote_key_name: b("demo"),
        payload: b("hello"),
        is_public: false,
    };
    assert_eq!(create_provider(&mut store, &params, &alice), Ok(()));
    let entry = store
        .read(&entry_key(false, &alice, &b("demo")))
        .expect("entry was created");
    assert_eq!(entry, b("hello"));
    // 4194304 - 4 - 5
    assert_eq!(read_counter(&store, &quota_key(&alice)), 4194295);
    // the lazy default was created too
    assert_eq!(read_counter(&store, &default_quota_key()), 4194304);
}

#[test]
fn create_over_existing_key_fails_and_charges_nothing() {
    let mut store = EntryStore::new();
    let alice = b("alice");
    let params = CreateParams {
        remote_key_name: b("demo"),
        payload: b("hello"),
        is_public: true,
    };
    assert_eq!(create_provider(&mut store, &params, &alice), Ok(()));
    let before = read_counter(&store, &quota_key(&alice));
    let again = CreateParams {
        remote_key_name: b("demo"),
        payload: b("other"),
        is_public: true,
    };
    assert_eq!(
        create_provider(&mut store, &again, &alice),
        Err(ProtoError::AlreadyExists)
    );
    assert_eq!(read_counter(&store, &quota_key(&alice)), before);
    let entry = store
        .read(&entry_key(true, &alice, &b("demo")))
        .expect("first payload kept");
    assert_eq!(entry, b("hello"));
}

#[test]
fn update_missing_entry_fails_without_charge_or_recreation() {
    let mut store = EntryStore::new();
    let alice = b("alice");
    let params = UpdateParams {
        remote_key_name: b("demo"),
        payload: b("new"),
        is_public: false,
    };
    assert_eq!(
        update_provider(&mut store, &params, &alice),
        Err(ProtoError::NotFound)
    );
    assert!(!store.contains(&entry_key(false, &alice, &b("demo"))));
    assert!(!store.contains(&quota_key(&alice)));
}

#[test]
fn insufficient_quota_aborts_create_with_no_entry() {
    let mut store = EntryStore::new();
    let alice = b("alice");
    // an explicit tiny quota for alice
    let little = counter_to_le_bytes(3);
    store
        .create(&quota_key(&alice), &little)
        .expect("counter written");
    let params = CreateParams {
        remote_key_name: b("demo"),
        payload: b("hello"),
        is_public: false,
    };
    assert_eq!(
        create_provider(&mut store, &params, &alice),
        Err(ProtoError::InsufficientQuota)
    );
    assert!(!store.contains(&entry_key(false, &alice, &b("demo"))));
    assert_eq!(read_counter(&store, &quota_key(&alice)), 3);
}

#[test]
fn serialized_charges_admit_exactly_one_of_two_oversized() {
    let mut store = EntryStore::new();
    let alice = b("alice");
    let ten = counter_to_le_bytes(10);
    store
        .create(&quota_key(&alice), &ten)
        .expect("counter written");
    // 6 + 6 > 10, but each fits alone: the lock serializes them and exactly
    // one goes through, whichever runs first.
    assert_eq!(charge_quota(&mut store, &alice, 6), Ok(()));
    assert_eq!(
        charge_quota(&mut store, &alice, 6),
        Err(ProtoError::InsufficientQuota)
    );
    assert_eq!(read_counter(&store, &quota_key(&alice)), 4);
}

#[test]
fn charges_never_exceed_initial_quota() {
    let mut store = EntryStore::new();
    let alice = b("alice");
    let start = counter_to_le_bytes(100);
    store
        .create(&quota_key(&alice), &start)
        .expect("counter written");
    let mut charged: i64 = 0;
    for amount in [40, 40, 40, 10, 10, 10, 1] {
        if charge_quota(&mut store, &alice, amount).is_ok() {
            charged += amount;
        }
    }
    assert!(charged <= 100);
    assert_eq!(read_counter(&store, &quota_key(&alice)), 100 - charged);
}

#[test]
fn read_handshake_returns_exact_bytes() {
    let mut store = EntryStore::new();
    let alice = b("alice");
    let provider = b("prov");
    let task = b("task1");
    let params = CreateParams {
        remote_key_name: b("demo"),
        payload: b("hello"),
        is_public: false,
    };
    assert_eq!(create_provider(&mut store, &params, &alice), Ok(()));
    let read_params = ReadParams {
        remote_key_name: b("demo"),
        holder_id: Vec::new(),
        is_public: false,
    };
    assert_eq!(
        read_provider(&mut store, &read_params, &alice, &provider, &task),
        Ok(())
    );
    assert_eq!(store.read(&transfer_key(&provider, &task, true)), Ok(vec![0]));
    assert_eq!(
        store.read(&transfer_key(&provider, &task, false)),
        Ok(b("hello"))
    );
    assert_eq!(read_requester(&mut store, &provider, &task), Ok(()));
    assert_eq!(store.read(&task_result_key(&task, false)), Ok(b("hello")));
    assert_eq!(store.read(&task_result_key(&task, true)), Ok(vec![0]));
}

#[test]
fn read_handshake_carries_empty_payload() {
    let mut store = EntryStore::new();
    let alice = b("alice");
    let provider = b("prov");
    let task = b("task2");
    let params = CreateParams {
        remote_key_name: b("empty"),
        payload: Vec::new(),
        is_public: true,
    };
    assert_eq!(create_provider(&mut store, &params, &alice), Ok(()));
    let read_params = ReadParams {
        remote_key_name: b("empty"),
        holder_id: b("alice"),
        is_public: true,
    };
    assert_eq!(
        read_provider(&mut store, &read_params, &alice, &provider, &task),
        Ok(())
    );
    assert_eq!(read_requester(&mut store, &provider, &task), Ok(()));
    assert_eq!(store.read(&task_result_key(&task, false)), Ok(Vec::new()));
    assert_eq!(store.read(&task_result_key(&task, true)), Ok(vec![0]));
}

#[test]
fn private_read_by_non_holder_is_denied() {
    let mut store = EntryStore::new();
    let alice = b("alice");
    let bob = b("bob");
    let provider = b("prov");
    let task = b("task3");
    let params = CreateParams {
        remote_key_name: b("demo"),
        payload: b("secret"),
        is_public: false,
    };
    assert_eq!(create_provider(&mut store, &params, &alice), Ok(()));
    // bob asks for alice's private entry
    let read_params = ReadParams {
        remote_key_name: b("demo"),
        holder_id: b("alice"),
        is_public: false,
    };
    assert_eq!(
        read_provider(&mut store, &read_params, &bob, &provider, &task),
        Err(ProtoError::PermissionDenied)
    );
    assert_eq!(store.read(&transfer_key(&provider, &task, true)), Ok(vec![1]));
    assert!(!store.contains(&transfer_key(&provider, &task, false)));
    assert_eq!(read_requester(&mut store, &provider, &task), Ok(()));
    assert_eq!(store.read(&task_result_key(&task, true)), Ok(vec![1]));
    assert!(!store.contains(&task_result_key(&task, false)));
}

#[test]
fn read_of_missing_key_signals_failure_without_output() {
    let mut store = EntryStore::new();
    let alice = b("alice");
    let provider = b("prov");
    let task = b("task4");
    let read_params = ReadParams {
        remote_key_name: b("nothing"),
        holder_id: Vec::new(),
        is_public: false,
    };
    assert_eq!(
        read_provider(&mut store, &read_params, &alice, &provider, &task),
        Err(ProtoError::NotFound)
    );
    assert_eq!(store.read(&transfer_key(&provider, &task, true)), Ok(vec![1]));
    assert!(!store.contains(&transfer_key(&provider, &task, false)));
    assert_eq!(read_requester(&mut store, &provider, &task), Ok(()));
    assert_eq!(store.read(&task_result_key(&task, true)), Ok(vec![1]));
    assert!(!store.contains(&task_result_key(&task, false)));
}

#[test]
fn delete_removes_entry_for_good() {
    let mut store = EntryStore::new();
    let alice = b("alice");
    let provider = b("prov");
    let task = b("task5");
    let params = CreateParams {
        remote_key_name: b("demo"),
        payload: b("hello"),
        is_public: false,
    };
    assert_eq!(create_provider(&mut store, &params, &alice), Ok(()));
    let del = DeleteParams {
        remote_key_name: b("demo"),
        is_public: false,
    };
    assert_eq!(delete_provider(&mut store, &del, &alice), Ok(()));
    assert_eq!(
        store.read(&entry_key(false, &alice, &b("demo"))),
        Err(ProtoError::NotFound)
    );
    // an update does not silently re-create it
    let upd = UpdateParams {
        remote_key_name: b("demo"),
        payload: b("again"),
        is_public: false,
    };
    assert_eq!(
        update_provider(&mut store, &upd, &alice),
        Err(ProtoError::NotFound)
    );
    assert!(!store.contains(&entry_key(false, &alice, &b("demo"))));
    // the read handshake reports the failure
    let read_params = ReadParams {
        remote_key_name: b("demo"),
        holder_id: Vec::new(),
        is_public: false,
    };
    assert_eq!(
        read_provider(&mut store, &read_params, &alice, &provider, &task),
        Err(ProtoError::NotFound)
    );
    // a second delete fails too
    assert_eq!(
        delete_provider(&mut store, &del, &alice),
        Err(ProtoError::NotFound)
    );
}

#[test]
fn quota_scenario_charges_as_specified() {
    let mut store = EntryStore::new();
    let alice = b("alice");
    let bob = b("bob");
    let provider = b("prov");

    // A creates a private entry "demo" with payload "hello" (5 bytes):
    // 4194304 - 4 - 5 = 4194295.
    let create = CreateParams {
        remote_key_name: b("demo"),
        payload: b("hello"),
        is_public: false,
    };
    assert_eq!(create_provider(&mut store, &create, &alice), Ok(()));
    assert_eq!(read_counter(&store, &quota_key(&alice)), 4194295);

    // A updates "demo" to "update hello" (12 bytes): 4194295 - 4 - 12 = 4194279.
    let update = UpdateParams {
        remote_key_name: b("demo"),
        payload: b("update hello"),
        is_public: false,
    };
    assert_eq!(update_provider(&mut store, &update, &alice), Ok(()));
    assert_eq!(read_counter(&store, &quota_key(&alice)), 4194279);

    // B reads A's private "demo" without being the holder: denied.
    let read_params = ReadParams {
        remote_key_name: b("demo"),
        holder_id: b("alice"),
        is_public: false,
    };
    assert_eq!(
        read_provider(&mut store, &read_params, &bob, &provider, &b("task6")),
        Err(ProtoError::PermissionDenied)
    );

    // A deletes "demo": a subsequent read by A fails NotFound.
    let del = DeleteParams {
        remote_key_name: b("demo"),
        is_public: false,
    };
    assert_eq!(delete_provider(&mut store, &del, &alice), Ok(()));
    let read_again = ReadParams {
        remote_key_name: b("demo"),
        holder_id: Vec::new(),
        is_public: false,
    };
    assert_eq!(
        read_provider(&mut store, &read_again, &alice, &provider, &b("task7")),
        Err(ProtoError::NotFound)
    );
}

#[test]
fn status_write_goes_through_create_and_charges_provider() {
    let mut store = EntryStore::new();
    let provider = b("prov");
    let task = b("task8");
    assert_eq!(set_status(&mut store, &provider, &task, 1), Ok(()));
    assert_eq!(store.read(&transfer_key(&provider, &task, true)), Ok(vec![1]));
    // "_variable_transfer:task8:status" is 31 bytes, plus the 1-byte payload
    assert_eq!(read_counter(&store, &quota_key(&provider)), 4194304 - 31 - 1);
    // the same task cannot signal twice
    assert_eq!(
        set_status(&mut store, &provider, &task, 1),
        Err(ProtoError::AlreadyExists)
    );
}

#[test]
fn holder_resolution_and_permission_rule() {
    assert_eq!(resolve_holder(&Vec::new(), &b("alice")), b("alice"));
    assert_eq!(resolve_holder(&b("carol"), &b("alice")), b("carol"));
    assert!(is_read_allowed(true, &b("carol"), &b("alice")));
    assert!(is_read_allowed(false, &b("alice"), &b("alice")));
    assert!(!is_read_allowed(false, &b("carol"), &b("alice")));
}

#[test]
fn two_oversized_creates_admit_exactly_one() {
    let mut store = EntryStore::new();
    let alice = b("alice");
    let twelve = counter_to_le_bytes(12);
    store
        .create(&quota_key(&alice), &twelve)
        .expect("counter written");
    // "a" + "hello" charges 6, "b" + "hello!!" charges 8: each fits the
    // remaining 12 alone, together they do not.
    let first = CreateParams {
        remote_key_name: b("a"),
        payload: b("hello"),
        is_public: false,
    };
    let second = CreateParams {
        remote_key_name: b("b"),
        payload: b("hello!!"),
        is_public: false,
    };
    assert_eq!(create_provider(&mut store, &first, &alice), Ok(()));
    assert_eq!(
        create_provider(&mut store, &second, &alice),
        Err(ProtoError::InsufficientQuota)
    );
    assert!(store.contains(&entry_key(false, &alice, &b("a"))));
    assert!(!store.contains(&entry_key(false, &alice, &b("b"))));
    assert_eq!(read_counter(&store, &quota_key(&alice)), 6);
}
