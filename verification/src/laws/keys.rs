//! Laws on the grouping of changed keys.

use vstd::prelude::*;
use vstd::seq_lib::lemma_seq_concat_contains_all_elements;

use crate::keys::{
    groups, keys_of, lemma_mentioned, mentioned, mentions, mentions_of, ChangedKeyView, GroupView,
    Mention,
};

verus! {

/// The accounts of a list of groups are distinct.
pub open spec fn distinct(left: Seq<GroupView>) -> bool {
    forall|i: int, j: int|
        0 <= i < j < left.len() ==> (#[trigger] left[i]).addr != (#[trigger] left[j]).addr
}

/// One of the groups is that of `addr`.
pub open spec fn has_group(left: Seq<GroupView>, addr: Seq<char>) -> bool {
    exists|i: int| 0 <= i < left.len() && (#[trigger] left[i]).addr == addr
}

/// One of the changed keys has the address `addr`.
pub open spec fn found(changed: Seq<ChangedKeyView>, addr: Seq<char>) -> bool {
    exists|k: int| 0 <= k < changed.len() && #[trigger] changed[k].addresses.contains(addr)
}

/// A mention is found in the changed keys if and only if one of the keys has
/// that text and that address.
proof fn lemma_mentions(changed: Seq<ChangedKeyView>, m: Mention)
    ensures
        mentions(changed).contains(m) <==> exists|i: int|
            0 <= i < changed.len() && (#[trigger] changed[i]).key == m.key
                && changed[i].addresses.contains(m.addr),
    decreases changed.len(),
{
    if changed.len() > 0 {
        let before = changed.drop_last();
        let last = changed.last();
        lemma_mentions(before, m);
        lemma_seq_concat_contains_all_elements(mentions(before), mentions_of(last), m);
        if mentions_of(last).contains(m) {
            let j = choose|j: int| 0 <= j < mentions_of(last).len() && mentions_of(last)[j] == m;
            assert(last.addresses[j] == m.addr);
            assert(changed[changed.len() - 1].key == m.key);
        }
        if exists|i: int|
            0 <= i < changed.len() && (#[trigger] changed[i]).key == m.key
                && changed[i].addresses.contains(m.addr) {
            let i = choose|i: int|
                0 <= i < changed.len() && (#[trigger] changed[i]).key == m.key
                    && changed[i].addresses.contains(m.addr);
            if i < before.len() {
                assert(before[i] == changed[i]);
            } else {
                let j = choose|j: int|
                    0 <= j < last.addresses.len() && last.addresses[j] == m.addr;
                assert(mentions_of(last)[j] == m);
            }
        }
        if mentions(before).contains(m) {
            let i = choose|i: int|
                0 <= i < before.len() && (#[trigger] before[i]).key == m.key
                    && before[i].addresses.contains(m.addr);
            assert(changed[i] == before[i]);
        }
    }
}

/// A key is listed under an address if and only if it is mentioned with it.
proof fn lemma_keys_of(all: Seq<Mention>, addr: Seq<char>, key: Seq<char>)
    ensures
        keys_of(all, addr).contains(key) <==> all.contains(Mention { addr, key }),
    decreases all.len(),
{
    let m = Mention { addr, key };
    if all.len() > 0 {
        let before = all.drop_last();
        let earlier = keys_of(before, addr);
        lemma_keys_of(before, addr, key);
        assert(all =~= before.push(all.last()));
        assert(all.contains(m) <==> before.contains(m) || all.last() == m) by {
            if before.contains(m) {
                let i = choose|i: int| 0 <= i < before.len() && before[i] == m;
                assert(all[i] == m);
            }
            if all.last() == m {
                assert(all[all.len() - 1] == m);
            }
        }
        if all.last().addr == addr {
            let now = earlier.push(all.last().key);
            assert(now.contains(key) <==> earlier.contains(key) || all.last().key == key) by {
                if earlier.contains(key) {
                    let i = choose|i: int| 0 <= i < earlier.len() && earlier[i] == key;
                    assert(now[i] == key);
                }
                if all.last().key == key {
                    assert(now[now.len() - 1] == key);
                }
            }
        }
    }
}

/// Every address found in the changed keys has one group, no other address has
/// one, and a group holds exactly the keys that its address was found in.
pub proof fn law_groups(changed: Seq<ChangedKeyView>)
    ensures
        distinct(groups(changed)),
        forall|addr: Seq<char>| #[trigger] has_group(groups(changed), addr) <==> found(changed, addr),
        forall|i: int, key: Seq<char>|
            0 <= i < groups(changed).len() ==> (#[trigger] groups(changed)[i].keys.contains(key)
                <==> exists|k: int|
                0 <= k < changed.len() && (#[trigger] changed[k]).key == key
                    && changed[k].addresses.contains(groups(changed)[i].addr)),
{
    let all = mentions(changed);
    let listed = mentioned(all);
    let grouped = groups(changed);
    lemma_mentioned(all);
    assert forall|addr: Seq<char>| #[trigger] has_group(grouped, addr) <==> found(changed, addr) by {
        if has_group(grouped, addr) {
            let i = choose|i: int| 0 <= i < grouped.len() && (#[trigger] grouped[i]).addr == addr;
            assert(listed[i] == addr);
            assert(listed.contains(addr));
            let j = choose|j: int| 0 <= j < all.len() && (#[trigger] all[j]).addr == addr;
            lemma_mentions(changed, all[j]);
            let k = choose|k: int|
                0 <= k < changed.len() && (#[trigger] changed[k]).key == all[j].key
                    && changed[k].addresses.contains(addr);
            assert(changed[k].addresses.contains(addr));
        }
        if found(changed, addr) {
            let k = choose|k: int|
                0 <= k < changed.len() && #[trigger] changed[k].addresses.contains(addr);
            let m = Mention { addr, key: changed[k].key };
            lemma_mentions(changed, m);
            let j = choose|j: int| 0 <= j < all.len() && all[j] == m;
            assert(all[j].addr == addr);
            assert(listed.contains(addr));
            let i = choose|i: int| 0 <= i < listed.len() && listed[i] == addr;
            assert(grouped[i].addr == addr);
        }
    }
    assert forall|i: int, key: Seq<char>| 0 <= i < grouped.len() implies (
    #[trigger] grouped[i].keys.contains(key) <==> exists|k: int|
        0 <= k < changed.len() && (#[trigger] changed[k]).key == key
            && changed[k].addresses.contains(grouped[i].addr)) by {
        let m = Mention { addr: grouped[i].addr, key };
        lemma_keys_of(all, grouped[i].addr, key);
        lemma_mentions(changed, m);
    }
}

/// The keys mentioned with an address, of joined mentions.
proof fn lemma_keys_of_joined(first: Seq<Mention>, second: Seq<Mention>, addr: Seq<char>)
    ensures
        keys_of(first + second, addr) == keys_of(first, addr) + keys_of(second, addr),
    decreases second.len(),
{
    if second.len() == 0 {
        assert(first + second =~= first);
        assert(keys_of(first + second, addr) =~= keys_of(first, addr) + keys_of(second, addr));
    } else {
        lemma_keys_of_joined(first, second.drop_last(), addr);
        assert((first + second).drop_last() =~= first + second.drop_last());
        assert(keys_of(first + second, addr) =~= keys_of(first, addr) + keys_of(second, addr));
    }
}

/// A key is mentioned with an address as often as it has that address.
proof fn lemma_keys_of_one(changed: ChangedKeyView, addr: Seq<char>)
    ensures
        keys_of(mentions_of(changed), addr) == changed.addresses.filter(
            |a: Seq<char>| a == addr,
        ).map_values(|a: Seq<char>| changed.key),
    decreases changed.addresses.len(),
{
    reveal(Seq::filter);
    let same = |a: Seq<char>| a == addr;
    let named = |a: Seq<char>| changed.key;
    let all = changed.addresses;
    if all.len() > 0 {
        let fewer = ChangedKeyView { key: changed.key, addresses: all.drop_last() };
        lemma_keys_of_one(fewer, addr);
        assert(mentions_of(changed).drop_last() =~= mentions_of(fewer));
        assert(fewer.addresses.filter(same).map_values(|a: Seq<char>| fewer.key)
            =~= fewer.addresses.filter(same).map_values(named));
    }
    assert(keys_of(mentions_of(changed), addr) =~= all.filter(same).map_values(named));
}

/// The keys of an account are those of the changed keys that have its address,
/// in their order, each as often as it has that address.
pub proof fn law_keys_of_an_account(changed: Seq<ChangedKeyView>, addr: Seq<char>)
    ensures
        keys_of(mentions(changed), addr) == changed.map_values(
            |c: ChangedKeyView|
                c.addresses.filter(|a: Seq<char>| a == addr).map_values(|a: Seq<char>| c.key),
        ).flatten(),
        forall|i: int|
            0 <= i < groups(changed).len() && (#[trigger] groups(changed)[i]).addr == addr
                ==> groups(changed)[i].keys == changed.map_values(
                |c: ChangedKeyView|
                    c.addresses.filter(|a: Seq<char>| a == addr).map_values(|a: Seq<char>| c.key),
            ).flatten(),
    decreases changed.len(),
{
    let own = |c: ChangedKeyView|
        c.addresses.filter(|a: Seq<char>| a == addr).map_values(|a: Seq<char>| c.key);
    if changed.len() > 0 {
        let before = changed.drop_last();
        let last = changed.last();
        law_keys_of_an_account(before, addr);
        lemma_keys_of_joined(mentions(before), mentions_of(last), addr);
        lemma_keys_of_one(last, addr);
        before.map_values(own).lemma_flatten_push(own(last));
        assert(changed.map_values(own) =~= before.map_values(own).push(own(last)));
    } else {
        assert(changed.map_values(own) =~= Seq::empty());
    }
}

/// Every address of every changed key has a group, which holds that key, and no
/// two groups have the same address. Every group is that of an address of one of
/// the keys.
pub proof fn law_every_account_once(
    changed: Seq<ChangedKeyView>,
    i: int,
    j: int,
    one: int,
    other: int,
)
    ensures
        0 <= i < changed.len() && 0 <= j < changed[i].addresses.len() ==> exists|g: int|
            0 <= g < groups(changed).len() && (#[trigger] groups(changed)[g]).addr
                == changed[i].addresses[j] && groups(changed)[g].keys.contains(changed[i].key),
        0 <= one < other < groups(changed).len() ==> groups(changed)[one].addr != groups(
            changed,
        )[other].addr,
        0 <= one < groups(changed).len() ==> exists|k: int|
            0 <= k < changed.len() && (#[trigger] changed[k]).addresses.contains(
                groups(changed)[one].addr,
            ),
{
    let grouped = groups(changed);
    law_groups(changed);
    if 0 <= i < changed.len() && 0 <= j < changed[i].addresses.len() {
        let addr = changed[i].addresses[j];
        assert(changed[i].addresses.contains(addr));
        assert(found(changed, addr));
        assert(has_group(grouped, addr));
        let g = choose|g: int| 0 <= g < grouped.len() && (#[trigger] grouped[g]).addr == addr;
        assert(grouped[g].keys.contains(changed[i].key));
    }
    if 0 <= one < grouped.len() {
        assert(has_group(grouped, grouped[one].addr));
        assert(found(changed, grouped[one].addr));
    }
}

} // verus!
