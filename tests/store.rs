use recsys_store::{
    scrub, EntityStore, IdAllocator, Item, Member, RecommendationSystem, User, UserPreference,
};

fn user(id: u64, name: &str) -> User {
    User {
        id,
        name: name.to_string(),
        email: "e".to_string(),
        password: "p".to_string(),
        created_at: 0,
        updated_at: None,
    }
}

#[test]
fn allocator_starts_at_one() {
    let mut a = IdAllocator::new();
    assert_eq!(a.current(), 0);
    assert!(a.can_issue());
    assert_eq!(a.next(), 1);
    assert_eq!(a.next(), 2);
    assert_eq!(a.current(), 2);
}

#[test]
fn store_keeps_key_order() {
    let mut s: EntityStore<User> = EntityStore::new();
    s.put(5, user(5, "e"));
    s.put(2, user(2, "b"));
    s.put(9, user(9, "i"));
    s.put(2, user(2, "b2"));
    assert_eq!(s.list_all().len(), 3);
    let names: Vec<String> = s.list_all().into_iter().map(|u| u.name).collect();
    assert_eq!(names, vec!["b2", "e", "i"]);
}

#[test]
fn store_get_and_remove() {
    let mut s: EntityStore<User> = EntityStore::new();
    assert_eq!(s.get(1), None);
    s.put(1, user(1, "a"));
    assert_eq!(s.get(1), Some(user(1, "a")));
    assert_eq!(s.remove(1), Some(user(1, "a")));
    assert_eq!(s.remove(1), None);
    assert_eq!(s.get(1), None);
    assert!(s.list_all().is_empty());
}

#[test]
fn scrub_takes_out_only_the_named_kind() {
    let item = Item {
        id: 1,
        name: "n".to_string(),
        category: "c".to_string(),
        description: "d".to_string(),
        created_at: 0,
        updated_at: None,
    };
    let pref = UserPreference {
        id: 1,
        user_id: 1,
        item_id: 1,
        rating: 3,
        created_at: 0,
        updated_at: None,
    };
    let system = RecommendationSystem {
        id: 7,
        users: vec![user(1, "a"), user(2, "b"), user(1, "a")],
        items: vec![item.clone()],
        user_preferences: vec![pref.clone()],
    };
    let r = scrub(system, Member::User, 1);
    assert_eq!(r.id, 7);
    assert_eq!(r.users, vec![user(2, "b")]);
    assert_eq!(r.items, vec![item]);
    let r = scrub(r, Member::UserPreference, 1);
    assert!(r.user_preferences.is_empty());
    assert_eq!(r.items.len(), 1);
    let r = scrub(r, Member::Item, 1);
    assert!(r.items.is_empty());
    assert_eq!(r.users.len(), 1);
}
