use recsys_store::{
    Error, ItemPayload, Kind, RecommendationService, UserPayload, UserPreferencePayload,
};

fn user_payload(name: &str, email: &str, password: &str) -> UserPayload {
    UserPayload {
        name: name.to_string(),
        email: email.to_string(),
        password: password.to_string(),
    }
}

fn item_payload(name: &str, category: &str, description: &str) -> ItemPayload {
    ItemPayload {
        name: name.to_string(),
        category: category.to_string(),
        description: description.to_string(),
    }
}

fn pref_payload(user_id: u64, item_id: u64, rating: u64) -> UserPreferencePayload {
    UserPreferencePayload { user_id, item_id, rating }
}

#[test]
fn scenario_user_deleted_from_only_system() {
    let mut s = RecommendationService::new();
    let u = s.add_user(user_payload("a", "a@x.com", "p"), 100).unwrap();
    assert_eq!(u.id, 1);
    let sys = s.add_recommendation_system();
    assert_eq!(sys.id, 1);
    let sys = s.add_user_to_recommendation_system(1, 1).unwrap();
    assert_eq!(sys.users.len(), 1);
    assert_eq!(sys.users[0], u);
    assert_eq!(sys.users[0].name, "a");
    assert_eq!(sys.users[0].email, "a@x.com");
    assert_eq!(sys.users[0].password, "p");
    assert_eq!(s.delete_user(1), Ok(()));
    assert_eq!(s.get_users_in_recommendation_system(1), Err(Error::EmptyResult));
}

#[test]
fn ids_increase_across_deletes() {
    let mut s = RecommendationService::new();
    let a = s.add_user(user_payload("a", "a@x", "p"), 1).unwrap();
    let b = s.add_user(user_payload("b", "b@x", "p"), 2).unwrap();
    assert_eq!(s.delete_user(b.id), Ok(()));
    let c = s.add_user(user_payload("c", "c@x", "p"), 3).unwrap();
    assert_eq!(s.delete_user(a.id), Ok(()));
    assert_eq!(s.delete_user(c.id), Ok(()));
    let d = s.add_user(user_payload("d", "d@x", "p"), 4).unwrap();
    assert_eq!((a.id, b.id, c.id, d.id), (1, 2, 3, 4));
}

#[test]
fn ids_are_per_kind() {
    let mut s = RecommendationService::new();
    let u = s.add_user(user_payload("a", "a@x", "p"), 1).unwrap();
    let i = s.add_item(item_payload("book", "media", "a book"), 1).unwrap();
    let i2 = s.add_item(item_payload("film", "media", "a film"), 1).unwrap();
    let p = s.add_user_preference(pref_payload(1, 1, 5), 1).unwrap();
    let r = s.add_recommendation_system();
    assert_eq!((u.id, i.id, i2.id, p.id, r.id), (1, 1, 2, 1, 1));
}

#[test]
fn invalid_payload_does_not_use_an_id() {
    let mut s = RecommendationService::new();
    assert_eq!(s.add_user(user_payload("", "a@x", "p"), 1), Err(Error::InvalidPayload));
    let u = s.add_user(user_payload("a", "a@x", "p"), 1).unwrap();
    assert_eq!(u.id, 1);
}

#[test]
fn user_round_trip() {
    let mut s = RecommendationService::new();
    let u = s.add_user(user_payload("ann", "ann@x.com", "pw"), 42).unwrap();
    assert_eq!(u.created_at, 42);
    assert_eq!(u.updated_at, None);
    assert_eq!(s.get_user_by_id(u.id), Ok(u));
}

#[test]
fn item_round_trip() {
    let mut s = RecommendationService::new();
    let i = s.add_item(item_payload("book", "media", "a book"), 7).unwrap();
    assert_eq!(i.name, "book");
    assert_eq!(i.category, "media");
    assert_eq!(i.description, "a book");
    assert_eq!(i.created_at, 7);
    assert_eq!(s.get_item_by_id(i.id), Ok(i));
}

#[test]
fn preference_round_trip() {
    let mut s = RecommendationService::new();
    let p = s.add_user_preference(pref_payload(3, 9, 4), 11).unwrap();
    assert_eq!((p.user_id, p.item_id, p.rating, p.created_at), (3, 9, 4, 11));
    assert_eq!(p.updated_at, None);
    assert_eq!(s.get_user_preference_by_id(p.id), Ok(p));
}

#[test]
fn system_round_trip() {
    let mut s = RecommendationService::new();
    let r = s.add_recommendation_system();
    assert!(r.users.is_empty() && r.items.is_empty() && r.user_preferences.is_empty());
    assert_eq!(s.get_recommendation_system_by_id(r.id), Ok(r));
}

#[test]
fn update_user_keeps_created_at() {
    let mut s = RecommendationService::new();
    let u = s.add_user(user_payload("a", "a@x", "p"), 10).unwrap();
    let v = s.update_user(u.id, user_payload("b", "b@x", "q"), 20).unwrap();
    assert_eq!(v.id, u.id);
    assert_eq!(v.created_at, 10);
    assert_eq!(v.updated_at, Some(20));
    assert_eq!((v.name.as_str(), v.email.as_str(), v.password.as_str()), ("b", "b@x", "q"));
    assert_eq!(s.get_user_by_id(u.id), Ok(v));
}

#[test]
fn update_item_and_preference_keep_created_at() {
    let mut s = RecommendationService::new();
    let i = s.add_item(item_payload("a", "b", "c"), 5).unwrap();
    let i2 = s.update_item(i.id, item_payload("x", "y", "z"), 6).unwrap();
    assert_eq!((i2.created_at, i2.updated_at), (5, Some(6)));
    assert_eq!(i2.name, "x");
    let p = s.add_user_preference(pref_payload(1, 2, 3), 5).unwrap();
    let p2 = s.update_user_preference(p.id, pref_payload(4, 5, 6), 9).unwrap();
    assert_eq!((p2.user_id, p2.item_id, p2.rating), (4, 5, 6));
    assert_eq!((p2.created_at, p2.updated_at), (5, Some(9)));
}

#[test]
fn cascade_keeps_other_members() {
    let mut s = RecommendationService::new();
    let a = s.add_user(user_payload("a", "a@x", "p"), 1).unwrap();
    let b = s.add_user(user_payload("b", "b@x", "p"), 1).unwrap();
    let r = s.add_recommendation_system();
    s.add_user_to_recommendation_system(r.id, a.id).unwrap();
    s.add_user_to_recommendation_system(r.id, b.id).unwrap();
    s.add_user_to_recommendation_system(r.id, a.id).unwrap();
    assert_eq!(s.delete_user(a.id), Ok(()));
    assert_eq!(s.get_users_in_recommendation_system(r.id), Ok(vec![b]));
}

#[test]
fn cascade_reaches_every_system() {
    let mut s = RecommendationService::new();
    let i = s.add_item(item_payload("a", "b", "c"), 1).unwrap();
    let j = s.add_item(item_payload("d", "e", "f"), 1).unwrap();
    let r1 = s.add_recommendation_system();
    let r2 = s.add_recommendation_system();
    s.add_item_to_recommendation_system(r1.id, i.id).unwrap();
    s.add_item_to_recommendation_system(r2.id, i.id).unwrap();
    s.add_item_to_recommendation_system(r2.id, j.id).unwrap();
    assert_eq!(s.delete_item(i.id), Ok(()));
    assert_eq!(s.get_items_in_recommendation_system(r1.id), Err(Error::EmptyResult));
    assert_eq!(s.get_items_in_recommendation_system(r2.id), Ok(vec![j]));
}

#[test]
fn cascade_on_preference_delete() {
    let mut s = RecommendationService::new();
    let p = s.add_user_preference(pref_payload(1, 1, 5), 1).unwrap();
    let r = s.add_recommendation_system();
    s.add_user_preference_to_recommendation_system(r.id, p.id).unwrap();
    assert_eq!(s.get_user_preferences_in_recommendation_system(r.id), Ok(vec![p.clone()]));
    assert_eq!(s.delete_user_preference(p.id), Ok(()));
    assert_eq!(
        s.get_user_preferences_in_recommendation_system(r.id),
        Err(Error::EmptyResult)
    );
    assert_eq!(
        s.get_user_preference_by_id(p.id),
        Err(Error::NotFound { kind: Kind::UserPreference, id: p.id })
    );
}

#[test]
fn embedded_copy_is_a_snapshot() {
    let mut s = RecommendationService::new();
    let u = s.add_user(user_payload("a", "a@x", "p"), 1).unwrap();
    let r = s.add_recommendation_system();
    s.add_user_to_recommendation_system(r.id, u.id).unwrap();
    s.update_user(u.id, user_payload("z", "z@x", "q"), 2).unwrap();
    let listed = s.get_users_in_recommendation_system(r.id).unwrap();
    assert_eq!(listed, vec![u]);
    assert_eq!(listed[0].name, "a");
    assert_eq!(listed[0].updated_at, None);
}

#[test]
fn fresh_store_lists_nothing() {
    let s = RecommendationService::new();
    assert_eq!(s.get_users(), Err(Error::EmptyResult));
    assert_eq!(s.get_items(), Err(Error::EmptyResult));
    assert_eq!(s.get_user_preferences(), Err(Error::EmptyResult));
    assert_eq!(s.get_recommendation_systems(), Err(Error::EmptyResult));
}

#[test]
fn store_emptied_by_deletes_lists_nothing() {
    let mut s = RecommendationService::new();
    let u = s.add_user(user_payload("a", "a@x", "p"), 1).unwrap();
    assert_eq!(s.get_users(), Ok(vec![u.clone()]));
    s.delete_user(u.id).unwrap();
    assert_eq!(s.get_users(), Err(Error::EmptyResult));
}

#[test]
fn listing_is_in_id_order() {
    let mut s = RecommendationService::new();
    let a = s.add_item(item_payload("a", "c", "d"), 1).unwrap();
    let b = s.add_item(item_payload("b", "c", "d"), 1).unwrap();
    let c = s.add_item(item_payload("c", "c", "d"), 1).unwrap();
    s.update_item(a.id, item_payload("a2", "c", "d"), 2).unwrap();
    let ids: Vec<u64> = s.get_items().unwrap().iter().map(|i| i.id).collect();
    assert_eq!(ids, vec![a.id, b.id, c.id]);
    s.delete_item(b.id).unwrap();
    let ids: Vec<u64> = s.get_items().unwrap().iter().map(|i| i.id).collect();
    assert_eq!(ids, vec![1, 3]);
    let systems: Vec<u64> = {
        s.add_recommendation_system();
        s.add_recommendation_system();
        s.get_recommendation_systems().unwrap().iter().map(|r| r.id).collect()
    };
    assert_eq!(systems, vec![1, 2]);
}

#[test]
fn empty_fields_are_rejected() {
    let mut s = RecommendationService::new();
    assert_eq!(s.add_user(user_payload("a", "", "p"), 1), Err(Error::InvalidPayload));
    assert_eq!(s.add_user(user_payload("a", "e", ""), 1), Err(Error::InvalidPayload));
    assert_eq!(s.add_item(item_payload("", "c", "d"), 1), Err(Error::InvalidPayload));
    assert_eq!(s.add_item(item_payload("n", "", "d"), 1), Err(Error::InvalidPayload));
    assert_eq!(s.add_item(item_payload("n", "c", ""), 1), Err(Error::InvalidPayload));
    assert_eq!(s.add_user_preference(pref_payload(1, 1, 0), 1), Err(Error::InvalidPayload));
    let u = s.add_user(user_payload("a", "e", "p"), 1).unwrap();
    assert_eq!(s.update_user(u.id, user_payload("", "e", "p"), 2), Err(Error::InvalidPayload));
    assert_eq!(s.get_user_by_id(u.id), Ok(u));
    let p = s.add_user_preference(pref_payload(0, 0, 1), 1).unwrap();
    assert_eq!(s.update_user_preference(p.id, pref_payload(1, 1, 0), 2), Err(Error::InvalidPayload));
    let i = s.add_item(item_payload("n", "c", "d"), 1).unwrap();
    assert_eq!(s.update_item(i.id, item_payload("n", "c", ""), 2), Err(Error::InvalidPayload));
}

#[test]
fn invalid_payload_wins_over_missing_id() {
    let mut s = RecommendationService::new();
    assert_eq!(s.update_user(5, user_payload("", "e", "p"), 1), Err(Error::InvalidPayload));
}

fn nf<T>(kind: Kind, id: u64) -> Result<T, Error> {
    Err(Error::NotFound { kind, id })
}

#[test]
fn missing_ids_are_not_found() {
    let mut s = RecommendationService::new();
    assert_eq!(s.get_user_by_id(3), nf(Kind::User, 3));
    assert_eq!(s.update_user(3, user_payload("a", "b", "c"), 1), nf(Kind::User, 3));
    assert_eq!(s.delete_user(3), nf(Kind::User, 3));
    assert_eq!(s.get_item_by_id(4), nf(Kind::Item, 4));
    assert_eq!(s.update_item(4, item_payload("a", "b", "c"), 1), nf(Kind::Item, 4));
    assert_eq!(s.delete_item(4), nf(Kind::Item, 4));
    assert_eq!(s.get_user_preference_by_id(5), nf(Kind::UserPreference, 5));
    assert_eq!(s.update_user_preference(5, pref_payload(1, 1, 1), 1), nf(Kind::UserPreference, 5));
    assert_eq!(s.delete_user_preference(5), nf(Kind::UserPreference, 5));
    let rs = Kind::RecommendationSystem;
    assert_eq!(s.get_recommendation_system_by_id(6), nf(rs, 6));
    assert_eq!(s.update_recommendation_system(6), nf(rs, 6));
    assert_eq!(s.delete_recommendation_system(6), nf(rs, 6));
    assert_eq!(s.get_users_in_recommendation_system(6), nf(rs, 6));
    assert_eq!(s.get_items_in_recommendation_system(6), nf(rs, 6));
    assert_eq!(s.get_user_preferences_in_recommendation_system(6), nf(rs, 6));
}

#[test]
fn association_needs_both_records() {
    let mut s = RecommendationService::new();
    let u = s.add_user(user_payload("a", "b", "c"), 1).unwrap();
    assert_eq!(
        s.add_user_to_recommendation_system(1, u.id),
        Err(Error::NotFound { kind: Kind::RecommendationSystem, id: 1 })
    );
    let r = s.add_recommendation_system();
    assert_eq!(
        s.add_user_to_recommendation_system(r.id, 9),
        Err(Error::NotFound { kind: Kind::User, id: 9 })
    );
    assert_eq!(
        s.add_item_to_recommendation_system(r.id, 9),
        Err(Error::NotFound { kind: Kind::Item, id: 9 })
    );
    assert_eq!(
        s.add_user_preference_to_recommendation_system(r.id, 9),
        Err(Error::NotFound { kind: Kind::UserPreference, id: 9 })
    );
    assert_eq!(s.get_users_in_recommendation_system(r.id), Err(Error::EmptyResult));
}

#[test]
fn duplicate_association_appends_twice() {
    let mut s = RecommendationService::new();
    let i = s.add_item(item_payload("a", "b", "c"), 1).unwrap();
    let r = s.add_recommendation_system();
    s.add_item_to_recommendation_system(r.id, i.id).unwrap();
    let r = s.add_item_to_recommendation_system(r.id, i.id).unwrap();
    assert_eq!(r.items, vec![i.clone(), i]);
}

#[test]
fn system_touch_and_delete_leave_members() {
    let mut s = RecommendationService::new();
    let u = s.add_user(user_payload("a", "b", "c"), 1).unwrap();
    let r = s.add_recommendation_system();
    let r = s.add_user_to_recommendation_system(r.id, u.id).unwrap();
    assert_eq!(s.update_recommendation_system(r.id), Ok(r.clone()));
    assert_eq!(s.get_recommendation_system_by_id(r.id), Ok(r.clone()));
    assert_eq!(s.delete_recommendation_system(r.id), Ok(r.clone()));
    assert_eq!(s.get_user_by_id(u.id), Ok(u));
    assert_eq!(s.get_recommendation_systems(), Err(Error::EmptyResult));
    let r2 = s.add_recommendation_system();
    assert_eq!(r2.id, 2);
}

#[test]
fn remove_from_systems_without_deleting() {
    let mut s = RecommendationService::new();
    let u = s.add_user(user_payload("a", "b", "c"), 1).unwrap();
    let r = s.add_recommendation_system();
    s.add_user_to_recommendation_system(r.id, u.id).unwrap();
    s.remove_user_from_recommendation_system(u.id);
    assert_eq!(s.get_users_in_recommendation_system(r.id), Err(Error::EmptyResult));
    assert_eq!(s.get_user_by_id(u.id), Ok(u));
}

#[test]
fn remove_item_and_preference_from_systems() {
    let mut s = RecommendationService::new();
    let i = s.add_item(item_payload("a", "b", "c"), 1).unwrap();
    let p = s.add_user_preference(pref_payload(1, 1, 2), 1).unwrap();
    let r = s.add_recommendation_system();
    s.add_item_to_recommendation_system(r.id, i.id).unwrap();
    s.add_user_preference_to_recommendation_system(r.id, p.id).unwrap();
    s.remove_item_from_recommendation_system(i.id);
    assert_eq!(s.get_items_in_recommendation_system(r.id), Err(Error::EmptyResult));
    assert_eq!(s.get_user_preferences_in_recommendation_system(r.id), Ok(vec![p.clone()]));
    s.remove_user_preference_from_recommendation_system(p.id);
    assert_eq!(s.get_user_preferences_in_recommendation_system(r.id), Err(Error::EmptyResult));
}

#[test]
fn last_issued_tracks_each_kind() {
    let mut s = RecommendationService::new();
    assert_eq!(s.last_issued(Kind::User), 0);
    s.add_user(user_payload("a", "b", "c"), 1).unwrap();
    s.add_user(user_payload("a", "b", "c"), 1).unwrap();
    s.add_recommendation_system();
    assert_eq!(s.last_issued(Kind::User), 2);
    assert_eq!(s.last_issued(Kind::Item), 0);
    assert_eq!(s.last_issued(Kind::UserPreference), 0);
    assert_eq!(s.last_issued(Kind::RecommendationSystem), 1);
}
