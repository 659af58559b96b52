//! The tables that lead from what a response names to the local descriptor:
//! from a channel to the connection that owns it, and from a connection to
//! its descriptor.

use std::collections::BTreeMap;
use vstd::prelude::*;

verus! {

/// The connection that owns the channel `channelId`, if the channel is
/// registered.
pub fn LookupChannel(table: &BTreeMap<u32, u32>, channelId: u32) -> (r: Option<u32>)
    ensures
        r == (if table@.contains_key(channelId) {
            Some(table@[channelId])
        } else {
            None
        }),
{
    broadcast use vstd::std_specs::btree::group_btree_axioms;

    match table.get(&channelId) {
        Some(v) => Some(*v),
        None => None,
    }
}

/// The descriptor of the connection `rdmaId`, if the connection is
/// registered.
pub fn LookupSocket(table: &BTreeMap<u32, i32>, rdmaId: u32) -> (r: Option<i32>)
    ensures
        r == (if table@.contains_key(rdmaId) {
            Some(table@[rdmaId])
        } else {
            None
        }),
{
    broadcast use vstd::std_specs::btree::group_btree_axioms;

    match table.get(&rdmaId) {
        Some(v) => Some(*v),
        None => None,
    }
}

/// Registers the channel `channelId` as owned by the connection `rdmaId`.
pub fn RegisterChannel(table: &mut BTreeMap<u32, u32>, channelId: u32, rdmaId: u32)
    ensures
        final(table)@ == old(table)@.insert(channelId, rdmaId),
{
    broadcast use vstd::std_specs::btree::group_btree_axioms;

    table.insert(channelId, rdmaId);
}

/// Registers the connection `rdmaId` as served by the descriptor `fd`.
pub fn RegisterSocket(table: &mut BTreeMap<u32, i32>, rdmaId: u32, fd: i32)
    ensures
        final(table)@ == old(table)@.insert(rdmaId, fd),
{
    broadcast use vstd::std_specs::btree::group_btree_axioms;

    table.insert(rdmaId, fd);
}

/// Forgets the channel `channelId`.
pub fn ForgetChannel(table: &mut BTreeMap<u32, u32>, channelId: u32)
    ensures
        final(table)@ == old(table)@.remove(channelId),
{
    broadcast use vstd::std_specs::btree::group_btree_axioms;

    table.remove(&channelId);
}

/// Forgets the connection `rdmaId`.
pub fn ForgetSocket(table: &mut BTreeMap<u32, i32>, rdmaId: u32)
    ensures
        final(table)@ == old(table)@.remove(rdmaId),
{
    broadcast use vstd::std_specs::btree::group_btree_axioms;

    table.remove(&rdmaId);
}

} // verus!
