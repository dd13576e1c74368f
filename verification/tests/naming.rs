//! The namespace resolver's rendered keys and the counter encoding.

use remote_storage::keys::{
    default_quota_key, entry_key, quota_key, task_result_key, transfer_key, transfer_name,
};
use remote_storage::quota::{
    charge_decision, counter_from_le_bytes, counter_to_le_bytes, DEFAULT_REMAINING_QUOTA,
};
use remote_storage::store::EntryStore;
use remote_storage::params::ProtoError;

fn b(s: &str) -> Vec<u8> {
    s.as_bytes().to_vec()
}

#[test]
fn entry_keys_render_as_the_protocol_namespace() {
    assert_eq!(
        entry_key(false, &b("alice"), &b("demo")),
        b("_remote_storage:private:alice:demo")
    );
    assert_eq!(
        entry_key(true, &b("alice"), &b("demo")),
        b("_remote_storage:public:alice:demo")
    );
}

#[test]
fn quota_keys_render_as_the_protocol_namespace() {
    assert_eq!(
        quota_key(&b("alice")),
        b("_remote_storage:remaining_quota:alice")
    );
    assert_eq!(
        default_quota_key(),
        b("_remote_storage:default_remaining_quota")
    );
}

#[test]
fn transfer_keys_render_as_the_protocol_namespace() {
    assert_eq!(
        transfer_name(&b("task1"), true),
        b("_variable_transfer:task1:status")
    );
    assert_eq!(
        transfer_name(&b("task1"), false),
        b("_variable_transfer:task1:output")
    );
    assert_eq!(
        transfer_key(&b("prov"), &b("task1"), true),
        b("_remote_storage:private:prov:_variable_transfer:task1:status")
    );
    assert_eq!(
        task_result_key(&b("task1"), false),
        b("tasks:task1:output")
    );
    assert_eq!(task_result_key(&b("task1"), true), b("tasks:task1:status"));
}

#[test]
fn distinct_inputs_give_distinct_keys() {
    let keys = [
        entry_key(false, &b("alice"), &b("demo")),
        entry_key(true, &b("alice"), &b("demo")),
        entry_key(false, &b("bob"), &b("demo")),
        entry_key(false, &b("alice"), &b("demo2")),
        quota_key(&b("alice")),
        quota_key(&b("bob")),
        default_quota_key(),
        transfer_key(&b("alice"), &b("task1"), true),
        transfer_key(&b("alice"), &b("task1"), false),
        task_result_key(&b("task1"), true),
        task_result_key(&b("task1"), false),
    ];
    for i in 0..keys.len() {
        for j in 0..keys.len() {
            if i != j {
                assert_ne!(keys[i], keys[j]);
            }
        }
    }
}

#[test]
fn counter_encoding_is_little_endian_two_complement() {
    assert_eq!(counter_to_le_bytes(DEFAULT_REMAINING_QUOTA), 4194304i64.to_le_bytes().to_vec());
    assert_eq!(counter_to_le_bytes(-1), (-1i64).to_le_bytes().to_vec());
    assert_eq!(counter_to_le_bytes(0), vec![0; 8]);
    for v in [0i64, 1, -1, 4194304, i64::MAX, i64::MIN, -4194304] {
        assert_eq!(counter_from_le_bytes(&counter_to_le_bytes(v)), v);
        assert_eq!(counter_from_le_bytes(&v.to_le_bytes().to_vec()), v);
    }
}

#[test]
fn charge_decision_matches_the_counter_rule() {
    assert_eq!(charge_decision(10, 6), Some(4));
    assert_eq!(charge_decision(10, 10), Some(0));
    assert_eq!(charge_decision(10, 11), None);
    assert_eq!(charge_decision(-5, 0), None);
    assert_eq!(charge_decision(0, 0), Some(0));
}

#[test]
fn store_implements_the_external_contract() {
    let mut store = EntryStore::new();
    let k = b("some:key");
    assert_eq!(store.read(&k), Err(ProtoError::NotFound));
    assert_eq!(store.update(&k, &b("v")), Err(ProtoError::NotFound));
    assert_eq!(store.delete(&k), Err(ProtoError::NotFound));
    assert_eq!(store.create(&k, &b("v1")), Ok(()));
    assert_eq!(store.create(&k, &b("v2")), Err(ProtoError::AlreadyExists));
    assert_eq!(store.read(&k), Ok(b("v1")));
    assert_eq!(store.read_or_wait(&k), b("v1"));
    assert_eq!(store.update(&k, &b("v3")), Ok(()));
    assert_eq!(store.read(&k), Ok(b("v3")));
    assert_eq!(store.delete(&k), Ok(()));
    assert_eq!(store.read(&k), Err(ProtoError::NotFound));
}
