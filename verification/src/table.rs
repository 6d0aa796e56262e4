//! The concurrent maps and sets of `dashmap` that the process tables are made
//! of, with the contracts that are assumed of them.
//!
//! Tables are keyed by the number of an identifier.  A table is only ever
//! reached through `&mut` when it changes, so no other thread can change it
//! between two calls; what the contracts below say of the contents rests on
//! that.  No call here returns a reference into a table.

use dashmap::DashMap;
use dashmap::DashSet;
use vstd::prelude::*;
use crate::inbox::Inbox;
use crate::kernel::Kernel;

verus! {

/// `dashmap::DashMap`, a hash map that can be shared between threads.
#[verifier::external_type_specification]
#[verifier::external_body]
#[verifier::reject_recursive_types(K)]
#[verifier::reject_recursive_types(V)]
#[verifier::reject_recursive_types(S)]
pub struct ExDashMap<K, V, S>(DashMap<K, V, S>);

/// `dashmap::DashSet`, a hash set that can be shared between threads.
#[verifier::external_type_specification]
#[verifier::external_body]
#[verifier::reject_recursive_types(K)]
#[verifier::reject_recursive_types(S)]
pub struct ExDashSet<K, S>(DashSet<K, S>);

/// The mailboxes in a mailbox table, by the number of the owning process.
pub uninterp spec fn inbox_entries(table: DashMap<u32, Inbox>) -> Map<u32, Inbox>;

/// The control blocks in a kernel table, by the number of the owning process.
pub uninterp spec fn kernel_entries(table: DashMap<u32, Kernel>) -> Map<u32, Kernel>;

/// The numbers in a set of linked processes.
pub uninterp spec fn linked_numbers(set: DashSet<u32>) -> Set<u32>;

/// The entries of a monitor map: from the number of a monitor reference to
/// the number of the monitoring process.
pub uninterp spec fn monitor_entries(table: DashMap<u32, u32>) -> Map<u32, u32>;

/// Calls `DashMap::new`.  Claims that a new map has no entry.
#[verifier::external_body]
pub(crate) fn inbox_table_new() -> (table: DashMap<u32, Inbox>)
    ensures
        forall|key: u32| !inbox_entries(table).contains_key(key),
{
    DashMap::new()
}

/// Calls `DashMap::insert`.  Claims that the key maps to the value
/// afterwards, that no other entry changes, and that the value the key had
/// before, if any, is returned.
#[verifier::external_body]
pub(crate) fn inbox_table_insert(
    table: &mut DashMap<u32, Inbox>,
    key: u32,
    value: Inbox,
) -> (previous: Option<Inbox>)
    ensures
        inbox_entries(*final(table)) == inbox_entries(*old(table)).insert(key, value),
        previous == if inbox_entries(*old(table)).contains_key(key) {
            Some(inbox_entries(*old(table))[key])
        } else {
            None
        },
{
    table.insert(key, value)
}

/// Calls `DashMap::remove` and keeps the value of the pair it returns.
/// Claims that the key has no entry afterwards, that no other entry changes,
/// and that the value the key had before, if any, is returned.
#[verifier::external_body]
pub(crate) fn inbox_table_remove(table: &mut DashMap<u32, Inbox>, key: u32) -> (removed: Option<Inbox>)
    ensures
        inbox_entries(*final(table)) == inbox_entries(*old(table)).remove(key),
        removed == if inbox_entries(*old(table)).contains_key(key) {
            Some(inbox_entries(*old(table))[key])
        } else {
            None
        },
{
    table.remove(&key).map(|pair| pair.1)
}

/// Calls `DashMap::contains_key`.  Claims that the result is true exactly
/// when the key has an entry.
#[verifier::external_body]
pub(crate) fn inbox_table_contains(table: &DashMap<u32, Inbox>, key: u32) -> (found: bool)
    ensures
        found == inbox_entries(*table).contains_key(key),
{
    table.contains_key(&key)
}

/// Calls `DashMap::new`.  Claims that a new map has no entry.
#[verifier::external_body]
pub(crate) fn kernel_table_new() -> (table: DashMap<u32, Kernel>)
    ensures
        forall|key: u32| !kernel_entries(table).contains_key(key),
{
    DashMap::new()
}

/// Calls `DashMap::insert`.  Claims that the key maps to the value
/// afterwards, that no other entry changes, and that the value the key had
/// before, if any, is returned.
#[verifier::external_body]
pub(crate) fn kernel_table_insert(
    table: &mut DashMap<u32, Kernel>,
    key: u32,
    value: Kernel,
) -> (previous: Option<Kernel>)
    ensures
        kernel_entries(*final(table)) == kernel_entries(*old(table)).insert(key, value),
        previous == if kernel_entries(*old(table)).contains_key(key) {
            Some(kernel_entries(*old(table))[key])
        } else {
            None
        },
{
    table.insert(key, value)
}

/// Calls `DashMap::remove` and keeps the value of the pair it returns.
/// Claims that the key has no entry afterwards, that no other entry changes,
/// and that the value the key had before, if any, is returned.
#[verifier::external_body]
pub(crate) fn kernel_table_remove(
    table: &mut DashMap<u32, Kernel>,
    key: u32,
) -> (removed: Option<Kernel>)
    ensures
        kernel_entries(*final(table)) == kernel_entries(*old(table)).remove(key),
        removed == if kernel_entries(*old(table)).contains_key(key) {
            Some(kernel_entries(*old(table))[key])
        } else {
            None
        },
{
    table.remove(&key).map(|pair| pair.1)
}

/// Calls `DashMap::contains_key`.  Claims that the result is true exactly
/// when the key has an entry.
#[verifier::external_body]
pub(crate) fn kernel_table_contains(table: &DashMap<u32, Kernel>, key: u32) -> (found: bool)
    ensures
        found == kernel_entries(*table).contains_key(key),
{
    table.contains_key(&key)
}

/// Calls `DashSet::new`.  Claims that a new set has no member.
#[verifier::external_body]
pub(crate) fn linked_set_new() -> (set: DashSet<u32>)
    ensures
        linked_numbers(set) == Set::<u32>::empty(),
{
    DashSet::new()
}

/// Calls `DashSet::insert`.  Claims that the key is a member afterwards, that
/// no other membership changes, and that the result is true exactly when the
/// key was not a member before.
#[verifier::external_body]
pub(crate) fn linked_set_insert(set: &mut DashSet<u32>, key: u32) -> (added: bool)
    ensures
        linked_numbers(*final(set)) == linked_numbers(*old(set)).insert(key),
        added == !linked_numbers(*old(set)).contains(key),
{
    set.insert(key)
}

/// Walks the set with `DashSet::iter` and copies each member out.  The order
/// of the walk is not fixed; claims only that each member comes out once and
/// nothing else does.
#[verifier::external_body]
pub(crate) fn linked_set_members(set: &DashSet<u32>) -> (members: Vec<u32>)
    ensures
        members@.no_duplicates(),
        members@.to_set() == linked_numbers(*set),
{
    set.iter().map(|member| *member.key()).collect()
}

/// Calls `DashMap::new`.  Claims that a new map has no entry.
#[verifier::external_body]
pub(crate) fn monitor_table_new() -> (table: DashMap<u32, u32>)
    ensures
        forall|key: u32| !monitor_entries(table).contains_key(key),
{
    DashMap::new()
}

/// Calls `DashMap::insert`.  Claims that the key maps to the value
/// afterwards, that no other entry changes, and that the value the key had
/// before, if any, is returned.
#[verifier::external_body]
pub(crate) fn monitor_table_insert(
    table: &mut DashMap<u32, u32>,
    key: u32,
    value: u32,
) -> (previous: Option<u32>)
    ensures
        monitor_entries(*final(table)) == monitor_entries(*old(table)).insert(key, value),
        previous == if monitor_entries(*old(table)).contains_key(key) {
            Some(monitor_entries(*old(table))[key])
        } else {
            None
        },
{
    table.insert(key, value)
}

/// Calls `DashMap::get` and copies the value out of the entry it returns.
/// Claims that the result is the value the key maps to, or `None` where the
/// key has no entry.
#[verifier::external_body]
pub(crate) fn monitor_table_get(table: &DashMap<u32, u32>, key: u32) -> (value: Option<u32>)
    ensures
        value == if monitor_entries(*table).contains_key(key) {
            Some(monitor_entries(*table)[key])
        } else {
            None
        },
{
    table.get(&key).map(|entry| *entry.value())
}

} // verus!
