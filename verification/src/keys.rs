//! Namespace resolver: maps logical names to fully-qualified storage keys.
//!
//! Keys are byte strings of the form `_remote_storage:<vis>:<owner>:<name>`,
//! plus per-owner quota-counter keys, ephemeral variable-transfer keys, and
//! per-task result keys. The resolver is pure and injective: distinct inputs
//! never alias, provided owner ids contain no `:` separator byte, and
//! user-chosen logical names that do not begin with the reserved `_` prefix
//! never collide with the protocol's internal variable-transfer names.

use vstd::prelude::*;

verus! {

/// The byte string `"_remote_storage:"`.
pub open spec fn prefix_spec() -> Seq<u8> {
    seq![95u8, 114u8, 101u8, 109u8, 111u8, 116u8, 101u8, 95u8, 115u8, 116u8, 111u8, 114u8, 97u8, 103u8, 101u8, 58u8]
}

fn push_prefix(v: &mut Vec<u8>)
    ensures
        final(v)@ == old(v)@ + prefix_spec(),
{
    v.push(95);
    v.push(114);
    v.push(101);
    v.push(109);
    v.push(111);
    v.push(116);
    v.push(101);
    v.push(95);
    v.push(115);
    v.push(116);
    v.push(111);
    v.push(114);
    v.push(97);
    v.push(103);
    v.push(101);
    v.push(58);
    assert(v@ =~= old(v)@ + prefix_spec());
}

/// The byte string `"public"`.
pub open spec fn vis_public_spec() -> Seq<u8> {
    seq![112u8, 117u8, 98u8, 108u8, 105u8, 99u8]
}

fn push_vis_public(v: &mut Vec<u8>)
    ensures
        final(v)@ == old(v)@ + vis_public_spec(),
{
    v.push(112);
    v.push(117);
    v.push(98);
    v.push(108);
    v.push(105);
    v.push(99);
    assert(v@ =~= old(v)@ + vis_public_spec());
}

/// The byte string `"private"`.
pub open spec fn vis_private_spec() -> Seq<u8> {
    seq![112u8, 114u8, 105u8, 118u8, 97u8, 116u8, 101u8]
}

fn push_vis_private(v: &mut Vec<u8>)
    ensures
        final(v)@ == old(v)@ + vis_private_spec(),
{
    v.push(112);
    v.push(114);
    v.push(105);
    v.push(118);
    v.push(97);
    v.push(116);
    v.push(101);
    assert(v@ =~= old(v)@ + vis_private_spec());
}

/// The byte string `"remaining_quota:"`.
pub open spec fn quota_tag_spec() -> Seq<u8> {
    seq![114u8, 101u8, 109u8, 97u8, 105u8, 110u8, 105u8, 110u8, 103u8, 95u8, 113u8, 117u8, 111u8, 116u8, 97u8, 58u8]
}

fn push_quota_tag(v: &mut Vec<u8>)
    ensures
        final(v)@ == old(v)@ + quota_tag_spec(),
{
    v.push(114);
    v.push(101);
    v.push(109);
    v.push(97);
    v.push(105);
    v.push(110);
    v.push(105);
    v.push(110);
    v.push(103);
    v.push(95);
    v.push(113);
    v.push(117);
    v.push(111);
    v.push(116);
    v.push(97);
    v.push(58);
    assert(v@ =~= old(v)@ + quota_tag_spec());
}

/// The byte string `"default_remaining_quota"`.
pub open spec fn default_quota_tag_spec() -> Seq<u8> {
    seq![100u8, 101u8, 102u8, 97u8, 117u8, 108u8, 116u8, 95u8, 114u8, 101u8, 109u8, 97u8, 105u8, 110u8, 105u8, 110u8, 103u8, 95u8, 113u8, 117u8, 111u8, 116u8, 97u8]
}

fn push_default_quota_tag(v: &mut Vec<u8>)
    ensures
        final(v)@ == old(v)@ + default_quota_tag_spec(),
{
    v.push(100);
    v.push(101);
    v.push(102);
    v.push(97);
    v.push(117);
    v.push(108);
    v.push(116);
    v.push(95);
    v.push(114);
    v.push(101);
    v.push(109);
    v.push(97);
    v.push(105);
    v.push(110);
    v.push(105);
    v.push(110);
    v.push(103);
    v.push(95);
    v.push(113);
    v.push(117);
    v.push(111);
    v.push(116);
    v.push(97);
    assert(v@ =~= old(v)@ + default_quota_tag_spec());
}

/// The byte string `"_variable_transfer:"`.
pub open spec fn transfer_tag_spec() -> Seq<u8> {
    seq![95u8, 118u8, 97u8, 114u8, 105u8, 97u8, 98u8, 108u8, 101u8, 95u8, 116u8, 114u8, 97u8, 110u8, 115u8, 102u8, 101u8, 114u8, 58u8]
}

fn push_transfer_tag(v: &mut Vec<u8>)
    ensures
        final(v)@ == old(v)@ + transfer_tag_spec(),
{
    v.push(95);
    v.push(118);
    v.push(97);
    v.push(114);
    v.push(105);
    v.push(97);
    v.push(98);
    v.push(108);
    v.push(101);
    v.push(95);
    v.push(116);
    v.push(114);
    v.push(97);
    v.push(110);
    v.push(115);
    v.push(102);
    v.push(101);
    v.push(114);
    v.push(58);
    assert(v@ =~= old(v)@ + transfer_tag_spec());
}

/// The byte string `"status"`.
pub open spec fn phase_status_spec() -> Seq<u8> {
    seq![115u8, 116u8, 97u8, 116u8, 117u8, 115u8]
}

fn push_phase_status(v: &mut Vec<u8>)
    ensures
        final(v)@ == old(v)@ + phase_status_spec(),
{
    v.push(115);
    v.push(116);
    v.push(97);
    v.push(116);
    v.push(117);
    v.push(115);
    assert(v@ =~= old(v)@ + phase_status_spec());
}

/// The byte string `"output"`.
pub open spec fn phase_output_spec() -> Seq<u8> {
    seq![111u8, 117u8, 116u8, 112u8, 117u8, 116u8]
}

fn push_phase_output(v: &mut Vec<u8>)
    ensures
        final(v)@ == old(v)@ + phase_output_spec(),
{
    v.push(111);
    v.push(117);
    v.push(116);
    v.push(112);
    v.push(117);
    v.push(116);
    assert(v@ =~= old(v)@ + phase_output_spec());
}

/// The byte string `"tasks:"`.
pub open spec fn tasks_tag_spec() -> Seq<u8> {
    seq![116u8, 97u8, 115u8, 107u8, 115u8, 58u8]
}

fn push_tasks_tag(v: &mut Vec<u8>)
    ensures
        final(v)@ == old(v)@ + tasks_tag_spec(),
{
    v.push(116);
    v.push(97);
    v.push(115);
    v.push(107);
    v.push(115);
    v.push(58);
    assert(v@ =~= old(v)@ + tasks_tag_spec());
}

/// The one-byte separator `":"`.
pub open spec fn sep_spec() -> Seq<u8> {
    seq![58u8]
}

/// The visibility segment: `"public"` or `"private"`.
pub open spec fn vis_spec(is_public: bool) -> Seq<u8> {
    if is_public {
        vis_public_spec()
    } else {
        vis_private_spec()
    }
}

/// The phase segment of a transfer or task-result key: `"status"` or `"output"`.
pub open spec fn phase_spec(is_status: bool) -> Seq<u8> {
    if is_status {
        phase_status_spec()
    } else {
        phase_output_spec()
    }
}

/// Fully-qualified key of the entry `{visibility, owner, name}`:
/// `_remote_storage:<public|private>:<owner>:<name>`.
pub open spec fn entry_key_spec(is_public: bool, owner: Seq<u8>, name: Seq<u8>) -> Seq<u8> {
    prefix_spec() + vis_spec(is_public) + sep_spec() + owner + sep_spec() + name
}

/// Key of an owner's remaining-quota counter:
/// `_remote_storage:remaining_quota:<owner>`.
pub open spec fn quota_key_spec(owner: Seq<u8>) -> Seq<u8> {
    prefix_spec() + quota_tag_spec() + owner
}

/// Key of the global default-quota counter:
/// `_remote_storage:default_remaining_quota`.
pub open spec fn default_quota_key_spec() -> Seq<u8> {
    prefix_spec() + default_quota_tag_spec()
}

/// Logical name of a variable-transfer record for one task:
/// `_variable_transfer:<task>:<status|output>`.
pub open spec fn transfer_name_spec(task: Seq<u8>, is_status: bool) -> Seq<u8> {
    transfer_tag_spec() + task + sep_spec() + phase_spec(is_status)
}

/// Fully-qualified key of a variable-transfer record: a private entry of the
/// party that answers, named by the original task id.
pub open spec fn transfer_key_spec(owner: Seq<u8>, task: Seq<u8>, is_status: bool) -> Seq<u8> {
    entry_key_spec(false, owner, transfer_name_spec(task, is_status))
}

/// Key of the well-known per-task result slot: `tasks:<task>:<status|output>`.
pub open spec fn task_result_key_spec(task: Seq<u8>, is_status: bool) -> Seq<u8> {
    tasks_tag_spec() + task + sep_spec() + phase_spec(is_status)
}

/// Appends all of `src` to `v`.
pub fn push_bytes(v: &mut Vec<u8>, src: &Vec<u8>)
    ensures
        final(v)@ == old(v)@ + src@,
{
    let mut i: usize = 0;
    while i < src.len()
        invariant
            0 <= i <= src@.len(),
            v@ == old(v)@ + src@.subrange(0, i as int),
        decreases src@.len() - i,
    {
        v.push(src[i]);
        assert(v@ =~= old(v)@ + src@.subrange(0, (i + 1) as int));
        i = i + 1;
    }
    assert(v@ =~= old(v)@ + src@);
}

/// Builds `entry_key_spec(is_public, owner@, name@)`.
pub fn entry_key(is_public: bool, owner: &Vec<u8>, name: &Vec<u8>) -> (k: Vec<u8>)
    ensures
        k@ == entry_key_spec(is_public, owner@, name@),
{
    let mut k: Vec<u8> = Vec::new();
    push_prefix(&mut k);
    if is_public {
        push_vis_public(&mut k);
    } else {
        push_vis_private(&mut k);
    }
    k.push(58);
    push_bytes(&mut k, owner);
    k.push(58);
    push_bytes(&mut k, name);
    assert(k@ =~= entry_key_spec(is_public, owner@, name@));
    k
}

/// Builds `quota_key_spec(owner@)`.
pub fn quota_key(owner: &Vec<u8>) -> (k: Vec<u8>)
    ensures
        k@ == quota_key_spec(owner@),
{
    let mut k: Vec<u8> = Vec::new();
    push_prefix(&mut k);
    push_quota_tag(&mut k);
    push_bytes(&mut k, owner);
    assert(k@ =~= quota_key_spec(owner@));
    k
}

/// Builds `default_quota_key_spec()`.
pub fn default_quota_key() -> (k: Vec<u8>)
    ensures
        k@ == default_quota_key_spec(),
{
    let mut k: Vec<u8> = Vec::new();
    push_prefix(&mut k);
    push_default_quota_tag(&mut k);
    assert(k@ =~= default_quota_key_spec());
    k
}

/// Builds `transfer_name_spec(task@, is_status)`.
pub fn transfer_name(task: &Vec<u8>, is_status: bool) -> (n: Vec<u8>)
    ensures
        n@ == transfer_name_spec(task@, is_status),
{
    let mut n: Vec<u8> = Vec::new();
    push_transfer_tag(&mut n);
    push_bytes(&mut n, task);
    n.push(58);
    if is_status {
        push_phase_status(&mut n);
    } else {
        push_phase_output(&mut n);
    }
    assert(n@ =~= transfer_name_spec(task@, is_status));
    n
}

/// Builds `transfer_key_spec(owner@, task@, is_status)`.
pub fn transfer_key(owner: &Vec<u8>, task: &Vec<u8>, is_status: bool) -> (k: Vec<u8>)
    ensures
        k@ == transfer_key_spec(owner@, task@, is_status),
{
    let name = transfer_name(task, is_status);
    entry_key(false, owner, &name)
}

/// Builds `task_result_key_spec(task@, is_status)`.
pub fn task_result_key(task: &Vec<u8>, is_status: bool) -> (k: Vec<u8>)
    ensures
        k@ == task_result_key_spec(task@, is_status),
{
    let mut k: Vec<u8> = Vec::new();
    push_tasks_tag(&mut k);
    push_bytes(&mut k, task);
    k.push(58);
    if is_status {
        push_phase_status(&mut k);
    } else {
        push_phase_output(&mut k);
    }
    assert(k@ =~= task_result_key_spec(task@, is_status));
    k
}


/// An entry key never aliases a quota-counter key: they differ at the byte
/// after the namespace prefix (`p` of the visibility vs `r` of
/// `remaining_quota:`).
pub proof fn lemma_entry_key_ne_quota_key(
    is_public: bool,
    owner: Seq<u8>,
    name: Seq<u8>,
    owner2: Seq<u8>,
)
    ensures
        entry_key_spec(is_public, owner, name) != quota_key_spec(owner2),
{
    assert(entry_key_spec(is_public, owner, name)[16] == 112);
    assert(quota_key_spec(owner2)[16] == 114);
}

/// An entry key never aliases the default-counter key.
pub proof fn lemma_entry_key_ne_default_key(is_public: bool, owner: Seq<u8>, name: Seq<u8>)
    ensures
        entry_key_spec(is_public, owner, name) != default_quota_key_spec(),
{
    assert(entry_key_spec(is_public, owner, name)[16] == 112);
    assert(default_quota_key_spec()[16] == 100);
}

/// A quota-counter key never aliases the default-counter key.
pub proof fn lemma_quota_key_ne_default_key(owner: Seq<u8>)
    ensures
        quota_key_spec(owner) != default_quota_key_spec(),
{
    assert(quota_key_spec(owner)[16] == 114);
    assert(default_quota_key_spec()[16] == 100);
}

/// The quota-counter keys of distinct owners are distinct.
pub proof fn lemma_quota_key_injective(owner1: Seq<u8>, owner2: Seq<u8>)
    requires
        quota_key_spec(owner1) == quota_key_spec(owner2),
    ensures
        owner1 == owner2,
{
    let k1 = quota_key_spec(owner1);
    let k2 = quota_key_spec(owner2);
    assert(prefix_spec().len() == 16);
    assert(quota_tag_spec().len() == 16);
    assert(k1.len() == 32 + owner1.len());
    assert(k2.len() == 32 + owner2.len());
    assert(owner1.len() == owner2.len());
    assert forall|i: int| 0 <= i < owner1.len() implies owner1[i] == owner2[i] by {
        assert(k1[32 + i] == owner1[i]);
        assert(k2[32 + i] == owner2[i]);
    }
    assert(owner1 =~= owner2);
}

/// The status and output transfer records of one task never alias: the keys
/// end in `status` and `output` respectively.
pub proof fn lemma_transfer_keys_distinct(owner: Seq<u8>, task: Seq<u8>)
    ensures
        transfer_key_spec(owner, task, true) != transfer_key_spec(owner, task, false),
{
    let n1 = transfer_name_spec(task, true);
    let n2 = transfer_name_spec(task, false);
    let k1 = transfer_key_spec(owner, task, true);
    let k2 = transfer_key_spec(owner, task, false);
    assert(n1[n1.len() - 1] == 115);
    assert(n2[n2.len() - 1] == 116);
    assert(k1[k1.len() - 1] == n1[n1.len() - 1]);
    assert(k2[k2.len() - 1] == n2[n2.len() - 1]);
    assert(k1.len() == k2.len());
}

/// The status and output result slots of one task never alias.
pub proof fn lemma_task_result_keys_distinct(task: Seq<u8>)
    ensures
        task_result_key_spec(task, true) != task_result_key_spec(task, false),
{
    let k1 = task_result_key_spec(task, true);
    let k2 = task_result_key_spec(task, false);
    assert(k1[k1.len() - 1] == 115);
    assert(k2[k2.len() - 1] == 116);
    assert(k1.len() == k2.len());
}

/// A per-task result slot lives outside the protocol namespace: it starts
/// with `t`, every entry, quota, and transfer key with `_`.
pub proof fn lemma_task_result_key_ne_entry_key(
    task: Seq<u8>,
    is_status: bool,
    is_public: bool,
    owner: Seq<u8>,
    name: Seq<u8>,
)
    ensures
        task_result_key_spec(task, is_status) != entry_key_spec(is_public, owner, name),
{
    assert(task_result_key_spec(task, is_status)[0] == 116);
    assert(entry_key_spec(is_public, owner, name)[0] == 95);
}

/// A per-task result slot never aliases a quota-counter key.
pub proof fn lemma_task_result_key_ne_quota_key(task: Seq<u8>, is_status: bool, owner: Seq<u8>)
    ensures
        task_result_key_spec(task, is_status) != quota_key_spec(owner),
        task_result_key_spec(task, is_status) != default_quota_key_spec(),
{
    assert(task_result_key_spec(task, is_status)[0] == 116);
    assert(quota_key_spec(owner)[0] == 95);
    assert(default_quota_key_spec()[0] == 95);
}

/// Owner ids contain no `:` separator byte; the identity layer guarantees
/// this of every user id.
pub open spec fn colon_free(owner: Seq<u8>) -> bool {
    forall|i: int| 0 <= i < owner.len() ==> owner[i] != 58
}

/// The resolver is injective: for owner ids free of the separator byte,
/// distinct inputs never produce the same entry key.
pub proof fn lemma_entry_key_injective(
    v1: bool,
    o1: Seq<u8>,
    n1: Seq<u8>,
    v2: bool,
    o2: Seq<u8>,
    n2: Seq<u8>,
)
    requires
        colon_free(o1),
        colon_free(o2),
        entry_key_spec(v1, o1, n1) == entry_key_spec(v2, o2, n2),
    ensures
        v1 == v2,
        o1 == o2,
        n1 == n2,
{
    let k1 = entry_key_spec(v1, o1, n1);
    let k2 = entry_key_spec(v2, o2, n2);
    if v1 != v2 {
        assert(k1[17] == (if v1 { 117u8 } else { 114u8 }));
        assert(k2[17] == (if v2 { 117u8 } else { 114u8 }));
        assert(false);
    }
    let vl = vis_spec(v1).len() as int;
    let base = 17 + vl;
    assert(k1.len() == base + o1.len() + 1 + n1.len());
    assert(k2.len() == base + o2.len() + 1 + n2.len());
    if o1.len() < o2.len() {
        let j = o1.len() as int;
        assert(k1[base + j] == 58);
        assert(k2[base + j] == o2[j]);
        assert(false);
    }
    if o2.len() < o1.len() {
        let j = o2.len() as int;
        assert(k2[base + j] == 58);
        assert(k1[base + j] == o1[j]);
        assert(false);
    }
    assert(o1.len() == o2.len());
    assert forall|i: int| 0 <= i < o1.len() implies o1[i] == o2[i] by {
        assert(k1[base + i] == o1[i]);
        assert(k2[base + i] == o2[i]);
    }
    assert(o1 =~= o2);
    assert(n1.len() == n2.len());
    assert forall|i: int| 0 <= i < n1.len() implies n1[i] == n2[i] by {
        assert(k1[base + o1.len() + 1 + i] == n1[i]);
        assert(k2[base + o2.len() + 1 + i] == n2[i]);
    }
    assert(n1 =~= n2);
}

/// The `_` name prefix is reserved: a user-chosen logical name that does not
/// begin with `_` never addresses a variable-transfer record, whoever the
/// parties are.
pub proof fn lemma_user_name_ne_transfer_key(
    is_public: bool,
    owner: Seq<u8>,
    name: Seq<u8>,
    owner2: Seq<u8>,
    task: Seq<u8>,
    is_status: bool,
)
    requires
        colon_free(owner),
        colon_free(owner2),
        name.len() == 0 || name[0] != 95,
    ensures
        entry_key_spec(is_public, owner, name) != transfer_key_spec(owner2, task, is_status),
{
    let tn = transfer_name_spec(task, is_status);
    if entry_key_spec(is_public, owner, name) == transfer_key_spec(owner2, task, is_status) {
        lemma_entry_key_injective(is_public, owner, name, false, owner2, tn);
        assert(tn[0] == 95);
        assert(tn.len() > 0);
        assert(false);
    }
}

} // verus!
