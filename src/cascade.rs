//! Removing the embedded copies of a deleted record from every
//! recommendation system.
use vstd::prelude::*;
use crate::model::{Item, RecommendationSystem, SystemView, User, UserPreference};
use crate::store::{EntityStore, entries_map, in_key_order, keys_ascending, lemma_unique_index};

verus! {

/// Which of a recommendation system's lists a deletion concerns.
#[derive(Clone, Copy, Debug, PartialEq, Eq, Structural)]
pub enum Member {
    User,
    Item,
    UserPreference,
}

/// The user copies whose id is not `id`, in their order.
pub open spec fn users_without(s: Seq<User>, id: u64) -> Seq<User> {
    s.filter(|u: User| u.id != id)
}

/// The item copies whose id is not `id`, in their order.
pub open spec fn items_without(s: Seq<Item>, id: u64) -> Seq<Item> {
    s.filter(|t: Item| t.id != id)
}

/// The preference copies whose id is not `id`, in their order.
pub open spec fn preferences_without(s: Seq<UserPreference>, id: u64) -> Seq<UserPreference> {
    s.filter(|p: UserPreference| p.id != id)
}

/// A system with the copies of member `id` of the given kind taken out.
pub open spec fn scrubbed(s: SystemView, kind: Member, id: u64) -> SystemView {
    match kind {
        Member::User => SystemView { users: users_without(s.users, id), ..s },
        Member::Item => SystemView { items: items_without(s.items, id), ..s },
        Member::UserPreference => SystemView {
            user_preferences: preferences_without(s.user_preferences, id),
            ..s
        },
    }
}

/// Every system of `m` scrubbed of member `id` of the given kind.
pub open spec fn scrubbed_all(m: Map<u64, SystemView>, kind: Member, id: u64) -> Map<
    u64,
    SystemView,
> {
    m.map_values(|s: SystemView| scrubbed(s, kind, id))
}

/// Copies of the users whose id is not `id`.
pub fn retain_other_users(users: &Vec<User>, id: u64) -> (r: Vec<User>)
    ensures
        r@ == users_without(users@, id),
{
    let mut r: Vec<User> = Vec::new();
    let mut i: usize = 0;
    while i < users.len()
        invariant
            i <= users@.len(),
            r@ == users_without(users@.subrange(0, i as int), id),
        decreases users@.len() - i,
    {
        proof {
            reveal(Seq::filter);
            assert(users@.subrange(0, i + 1).drop_last() =~= users@.subrange(0, i as int));
        }
        if users[i].id != id {
            r.push(users[i].clone());
        }
        i = i + 1;
    }
    proof {
        assert(users@.subrange(0, users@.len() as int) =~= users@);
    }
    r
}

/// Copies of the items whose id is not `id`.
pub fn retain_other_items(items: &Vec<Item>, id: u64) -> (r: Vec<Item>)
    ensures
        r@ == items_without(items@, id),
{
    let mut r: Vec<Item> = Vec::new();
    let mut i: usize = 0;
    while i < items.len()
        invariant
            i <= items@.len(),
            r@ == items_without(items@.subrange(0, i as int), id),
        decreases items@.len() - i,
    {
        proof {
            reveal(Seq::filter);
            assert(items@.subrange(0, i + 1).drop_last() =~= items@.subrange(0, i as int));
        }
        if items[i].id != id {
            r.push(items[i].clone());
        }
        i = i + 1;
    }
    proof {
        assert(items@.subrange(0, items@.len() as int) =~= items@);
    }
    r
}

/// Copies of the preferences whose id is not `id`.
pub fn retain_other_preferences(prefs: &Vec<UserPreference>, id: u64) -> (r: Vec<
    UserPreference,
>)
    ensures
        r@ == preferences_without(prefs@, id),
{
    let mut r: Vec<UserPreference> = Vec::new();
    let mut i: usize = 0;
    while i < prefs.len()
        invariant
            i <= prefs@.len(),
            r@ == preferences_without(prefs@.subrange(0, i as int), id),
        decreases prefs@.len() - i,
    {
        proof {
            reveal(Seq::filter);
            assert(prefs@.subrange(0, i + 1).drop_last() =~= prefs@.subrange(0, i as int));
        }
        if prefs[i].id != id {
            r.push(prefs[i].clone());
        }
        i = i + 1;
    }
    proof {
        assert(prefs@.subrange(0, prefs@.len() as int) =~= prefs@);
    }
    r
}

/// The system with the copies of member `id` of the given kind taken out.
pub fn scrub(system: RecommendationSystem, kind: Member, id: u64) -> (r: RecommendationSystem)
    ensures
        r@ == scrubbed(system@, kind, id),
{
    let mut system = system;
    match kind {
        Member::User => {
            system.users = retain_other_users(&system.users, id);
        },
        Member::Item => {
            system.items = retain_other_items(&system.items, id);
        },
        Member::UserPreference => {
            system.user_preferences = retain_other_preferences(&system.user_preferences, id);
        },
    }
    system
}

/// Every system is filed under its own id.
pub open spec fn filed_by_id(m: Map<u64, SystemView>) -> bool {
    forall|k: u64| #[trigger] m.contains_key(k) ==> m[k].id == k
}

/// Rewrites every system of the store with the copies of member `id` of the
/// given kind taken out. Each system is written back, changed or not.
pub fn scrub_kind(systems: &mut EntityStore<RecommendationSystem>, id: u64, kind: Member)
    requires
        old(systems).wf(),
        filed_by_id(old(systems)@),
    ensures
        final(systems).wf(),
        final(systems)@ == scrubbed_all(old(systems)@, kind, id),
{
    let ghost m = systems@;
    let snapshot = systems.list_all();
    let ghost s = choose|s: Seq<(u64, SystemView)>|
        keys_ascending(s) && entries_map(s) == m && snapshot@.map_values(
            |t: RecommendationSystem| t@,
        ) == s.map_values(|e: (u64, SystemView)| e.1);
    proof {
        let vs = snapshot@.map_values(|t: RecommendationSystem| t@);
        let es = s.map_values(|e: (u64, SystemView)| e.1);
        assert(vs.len() == es.len());
        assert forall|j: int| 0 <= j < snapshot@.len() implies #[trigger] snapshot@[j]@
            == s[j].1 by {
            assert(vs[j] == es[j]);
        }
    }
    let mut snapshot = snapshot;
    let n = snapshot.len();
    let mut i: usize = 0;
    while i < n
        invariant
            n == s.len(),
            i <= n,
            snapshot@.len() + i == n,
            keys_ascending(s),
            entries_map(s) == m,
            filed_by_id(m),
            forall|j: int|
                0 <= j < snapshot@.len() ==> #[trigger] snapshot@[j]@ == s[n - snapshot@.len()
                    + j].1,
            systems.wf(),
            forall|k: u64| #[trigger] systems@.contains_key(k) == m.contains_key(k),
            forall|j: int|
                0 <= j < i ==> systems@[#[trigger] s[j].0] == scrubbed(m[s[j].0], kind, id),
            forall|k: u64|
                m.contains_key(k) && (forall|j: int| 0 <= j < i ==> s[j].0 != k)
                    ==> #[trigger] systems@[k] == m[k],
        decreases n - i,
    {
        proof {
            assert(snapshot@[0]@ == s[i as int].1);
            lemma_unique_index(s, i as int);
        }
        let system = snapshot.remove(0);
        let key = system.id;
        let cleaned = scrub(system, kind, id);
        let ghost before = systems@;
        systems.put(key, cleaned);
        proof {
            assert(m.contains_key(s[i as int].0));
            assert(key == s[i as int].0);
            assert forall|j: int| 0 <= j < i implies s[j].0 != key by {
                assert(s[j].0 < s[i as int].0);
            }
        }
        i = i + 1;
    }
    proof {
        assert forall|k: u64| m.contains_key(k) implies systems@[k] == scrubbed(m[k], kind, id) by {
            let j = choose|j: int| 0 <= j < s.len() && s[j].0 == k;
        }
        assert(systems@ =~= scrubbed_all(m, kind, id));
    }
}

} // verus!
