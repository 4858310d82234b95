//! The storage keys that a transaction has changed, grouped by the accounts
//! that they belong to.

use vstd::prelude::*;

use crate::text::texts;

verus! {

/// A changed storage key, in its text form, with the addresses of the accounts
/// in whose storage it lies.
#[derive(Debug, PartialEq, Eq)]
pub struct ChangedKey {
    pub key: String,
    pub addresses: Vec<String>,
}

/// The changed keys of one account.
#[derive(Debug, PartialEq, Eq)]
pub struct KeyGroup {
    pub addr: String,
    pub keys: Vec<String>,
}

/// The model of a [`ChangedKey`].
pub struct ChangedKeyView {
    pub key: Seq<char>,
    pub addresses: Seq<Seq<char>>,
}

/// The model of a [`KeyGroup`].
#[verifier::ext_equal]
pub struct GroupView {
    pub addr: Seq<char>,
    pub keys: Seq<Seq<char>>,
}

/// An address found in a changed key, with that key.
pub struct Mention {
    pub addr: Seq<char>,
    pub key: Seq<char>,
}

impl View for ChangedKey {
    type V = ChangedKeyView;

    open spec fn view(&self) -> ChangedKeyView {
        ChangedKeyView { key: self.key@, addresses: texts(self.addresses@) }
    }
}

impl View for KeyGroup {
    type V = GroupView;

    open spec fn view(&self) -> GroupView {
        GroupView { addr: self.addr@, keys: texts(self.keys@) }
    }
}

/// The models of a sequence of changed keys.
pub open spec fn changed_views(changed: Seq<ChangedKey>) -> Seq<ChangedKeyView> {
    changed.map_values(|key: ChangedKey| key@)
}

/// The models of a sequence of groups.
pub open spec fn group_views(groups: Seq<KeyGroup>) -> Seq<GroupView> {
    groups.map_values(|group: KeyGroup| group@)
}

/// The addresses of one key, each with the key.
pub open spec fn mentions_of(changed: ChangedKeyView) -> Seq<Mention> {
    changed.addresses.map_values(|addr: Seq<char>| Mention { addr, key: changed.key })
}

/// The addresses of all keys, each with its key, in the order of the keys.
pub open spec fn mentions(changed: Seq<ChangedKeyView>) -> Seq<Mention>
    decreases changed.len(),
{
    if changed.len() == 0 {
        Seq::empty()
    } else {
        mentions(changed.drop_last()) + mentions_of(changed.last())
    }
}

/// Every mentioned address once, in the order of first mention.
pub open spec fn mentioned(mentions: Seq<Mention>) -> Seq<Seq<char>>
    decreases mentions.len(),
{
    if mentions.len() == 0 {
        Seq::empty()
    } else {
        let earlier = mentioned(mentions.drop_last());
        if earlier.contains(mentions.last().addr) {
            earlier
        } else {
            earlier.push(mentions.last().addr)
        }
    }
}

/// The keys mentioned with `addr`, in order.
pub open spec fn keys_of(mentions: Seq<Mention>, addr: Seq<char>) -> Seq<Seq<char>>
    decreases mentions.len(),
{
    if mentions.len() == 0 {
        Seq::empty()
    } else {
        let earlier = keys_of(mentions.drop_last(), addr);
        if mentions.last().addr == addr {
            earlier.push(mentions.last().key)
        } else {
            earlier
        }
    }
}

/// The mentions, grouped: each mentioned address with its keys.
pub open spec fn groups_of(mentions: Seq<Mention>) -> Seq<GroupView> {
    mentioned(mentions).map_values(
        |addr: Seq<char>| GroupView { addr, keys: keys_of(mentions, addr) },
    )
}

/// The changed keys grouped by address: each address found in them once, with
/// the keys that it was found in.
pub open spec fn groups(changed: Seq<ChangedKeyView>) -> Seq<GroupView> {
    groups_of(mentions(changed))
}

/// No address is listed twice, and an address is listed if and only if it is
/// mentioned.
pub proof fn lemma_mentioned(mentions: Seq<Mention>)
    ensures
        mentioned(mentions).no_duplicates(),
        forall|addr: Seq<char>|
            mentioned(mentions).contains(addr) <==> exists|i: int|
                0 <= i < mentions.len() && (#[trigger] mentions[i]).addr == addr,
    decreases mentions.len(),
{
    if mentions.len() > 0 {
        let before = mentions.drop_last();
        let last = mentions.last();
        lemma_mentioned(before);
        let earlier = mentioned(before);
        let now = mentioned(mentions);
        assert forall|addr: Seq<char>| now.contains(addr) implies exists|i: int|
            0 <= i < mentions.len() && (#[trigger] mentions[i]).addr == addr by {
            if earlier.contains(addr) {
                let i = choose|i: int| 0 <= i < before.len() && (#[trigger] before[i]).addr == addr;
                assert(mentions[i].addr == addr);
            } else {
                let j = choose|j: int| 0 <= j < now.len() && now[j] == addr;
                if j < earlier.len() {
                    assert(earlier[j] == addr);
                }
                assert(mentions[mentions.len() - 1].addr == addr);
            }
        }
        assert forall|addr: Seq<char>|
            (exists|i: int| 0 <= i < mentions.len() && (#[trigger] mentions[i]).addr == addr) implies now.contains(
            addr,
        ) by {
            let i = choose|i: int| 0 <= i < mentions.len() && (#[trigger] mentions[i]).addr == addr;
            if i < before.len() {
                assert(before[i].addr == addr);
                assert(earlier.contains(addr));
                let j = choose|j: int| 0 <= j < earlier.len() && earlier[j] == addr;
                assert(now[j] == addr);
            } else if !earlier.contains(addr) {
                assert(now[now.len() - 1] == addr);
            }
        }
    }
}

/// What one more mention does to the groups.
proof fn lemma_groups_push(mentions: Seq<Mention>, m: Mention)
    ensures
        forall|i: int|
            0 <= i < groups_of(mentions).len() && (#[trigger] groups_of(mentions)[i]).addr == m.addr
                ==> groups_of(mentions.push(m)) == groups_of(mentions).update(
                i,
                GroupView { addr: m.addr, keys: groups_of(mentions)[i].keys.push(m.key) },
            ),
        (forall|i: int| 0 <= i < groups_of(mentions).len() ==> (#[trigger] groups_of(mentions)[i]).addr != m.addr)
            ==> groups_of(mentions.push(m)) == groups_of(mentions).push(
            GroupView { addr: m.addr, keys: seq![m.key] },
        ),
{
    let next = mentions.push(m);
    let listed = mentioned(mentions);
    let old_groups = groups_of(mentions);
    assert(next.drop_last() =~= mentions);
    lemma_mentioned(mentions);
    assert forall|i: int|
        0 <= i < old_groups.len() && (#[trigger] old_groups[i]).addr == m.addr implies groups_of(next)
        == old_groups.update(
        i,
        GroupView { addr: m.addr, keys: old_groups[i].keys.push(m.key) },
    ) by {
        assert(listed[i] == m.addr);
        assert(mentioned(next) == listed);
        assert(groups_of(next) =~= old_groups.update(
            i,
            GroupView { addr: m.addr, keys: old_groups[i].keys.push(m.key) },
        ));
    }
    if forall|i: int| 0 <= i < old_groups.len() ==> (#[trigger] old_groups[i]).addr != m.addr {
        assert(!listed.contains(m.addr)) by {
            if listed.contains(m.addr) {
                let i = choose|i: int| 0 <= i < listed.len() && listed[i] == m.addr;
                assert(old_groups[i].addr == m.addr);
            }
        }
        assert(mentioned(next) == listed.push(m.addr));
        lemma_no_keys(mentions, m.addr);
        assert(groups_of(next) =~= old_groups.push(
            GroupView { addr: m.addr, keys: seq![m.key] },
        )) by {
            assert(keys_of(next, m.addr) =~= seq![m.key]);
            assert forall|i: int| 0 <= i < old_groups.len() implies groups_of(next)[i]
                == old_groups[i] by {
                assert(listed[i] != m.addr) by {
                    assert(old_groups[i].addr != m.addr);
                }
            }
        }
    }
}

/// An address that is not mentioned has no keys.
proof fn lemma_no_keys(mentions: Seq<Mention>, addr: Seq<char>)
    requires
        !mentioned(mentions).contains(addr),
    ensures
        keys_of(mentions, addr) == Seq::<Seq<char>>::empty(),
    decreases mentions.len(),
{
    if mentions.len() > 0 {
        let earlier = mentioned(mentions.drop_last());
        if mentions.last().addr == addr {
            if !earlier.contains(addr) {
                assert(mentioned(mentions)[earlier.len() as int] == addr);
            }
        } else if earlier.contains(addr) {
            let j = choose|j: int| 0 <= j < earlier.len() && earlier[j] == addr;
            assert(mentioned(mentions)[j] == addr);
        }
        lemma_no_keys(mentions.drop_last(), addr);
    }
}

/// The place of the group of `addr`, if there is one.
fn position(groups: &Vec<KeyGroup>, addr: &String) -> (place: Option<usize>)
    ensures
        match place {
            Some(i) => i < groups.len() && groups@[i as int]@.addr == addr@,
            None => forall|j: int| 0 <= j < groups.len() ==> (#[trigger] groups@[j])@.addr != addr@,
        },
{
    let mut i: usize = 0;
    while i < groups.len()
        invariant
            i <= groups.len(),
            forall|j: int| 0 <= j < i ==> (#[trigger] groups@[j])@.addr != addr@,
        decreases groups.len() - i,
    {
        if groups[i].addr == *addr {
            return Some(i);
        }
        i = i + 1;
    }
    None
}

/// Adds `key` to the group of `addr`, or starts one. The groups are those of
/// the mentions in `before`.
fn record(
    groups: &mut Vec<KeyGroup>,
    addr: &String,
    key: &String,
    Ghost(before): Ghost<Seq<Mention>>,
)
    requires
        group_views(old(groups)@) == groups_of(before),
    ensures
        group_views(final(groups)@) == groups_of(before.push(Mention { addr: addr@, key: key@ })),
{
    let ghost m = Mention { addr: addr@, key: key@ };
    proof {
        lemma_groups_push(before, m);
    }
    match position(groups, addr) {
        Some(i) => {
            assert(group_views(groups@)[i as int] == groups@[i as int]@);
            let ghost old_keys = groups@[i as int].keys@;
            groups[i].keys.push(key.clone());
            assert(texts(old_keys.push(*key)) =~= texts(old_keys).push(key@));
            assert(group_views(groups@) =~= groups_of(before).update(
                i as int,
                GroupView { addr: m.addr, keys: groups_of(before)[i as int].keys.push(m.key) },
            ));
        },
        None => {
            assert forall|j: int| 0 <= j < groups_of(before).len() implies (#[trigger] groups_of(
                before,
            )[j]).addr != m.addr by {
                assert(group_views(groups@)[j] == groups@[j]@);
            }
            let mut keys: Vec<String> = Vec::new();
            keys.push(key.clone());
            assert(texts(keys@) =~= seq![key@]);
            groups.push(KeyGroup { addr: addr.clone(), keys });
            assert(group_views(groups@) =~= groups_of(before).push(
                GroupView { addr: m.addr, keys: seq![m.key] },
            ));
        },
    }
}

/// Groups the changed keys by the addresses found in them.
pub fn group_by_address(changed: &Vec<ChangedKey>) -> (grouped: Vec<KeyGroup>)
    ensures
        group_views(grouped@) == groups(changed_views(changed@)),
{
    let mut grouped: Vec<KeyGroup> = Vec::new();
    let ghost views = changed_views(changed@);
    assert(group_views(grouped@) =~= groups(views.take(0)));
    let mut i: usize = 0;
    while i < changed.len()
        invariant
            i <= changed.len(),
            views == changed_views(changed@),
            group_views(grouped@) == groups(views.take(i as int)),
        decreases changed.len() - i,
    {
        let ghost earlier = mentions(views.take(i as int));
        let ghost own = mentions_of(views[i as int]);
        assert(earlier + own.take(0) =~= earlier);
        let mut j: usize = 0;
        while j < changed[i].addresses.len()
            invariant
                i < changed.len(),
                views == changed_views(changed@),
                own == mentions_of(views[i as int]),
                own.len() == changed@[i as int].addresses@.len(),
                j <= own.len(),
                group_views(grouped@) == groups_of(earlier + own.take(j as int)),
            decreases own.len() - j,
        {
            record(
                &mut grouped,
                &changed[i].addresses[j],
                &changed[i].key,
                Ghost(earlier + own.take(j as int)),
            );
            assert(own[j as int] == Mention {
                addr: changed@[i as int].addresses@[j as int]@,
                key: changed@[i as int].key@,
            });
            assert((earlier + own.take(j as int)).push(own[j as int]) =~= earlier + own.take(j + 1));
            j = j + 1;
        }
        assert(own.take(j as int) =~= own);
        assert(views.take(i + 1).drop_last() =~= views.take(i as int));
        assert(views.take(i + 1).last() == views[i as int]);
        i = i + 1;
    }
    assert(views.take(i as int) =~= views);
    grouped
}

} // verus!
