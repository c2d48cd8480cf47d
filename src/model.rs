//! Record types, request payloads and the error type.
use vstd::prelude::*;
use crate::store::Record;

verus! {

/// A registered user.
#[derive(Debug, PartialEq, Eq)]
pub struct User {
    pub id: u64,
    pub name: String,
    pub email: String,
    pub password: String,
    pub created_at: u64,
    pub updated_at: Option<u64>,
}

/// A catalogue item.
#[derive(Debug, PartialEq, Eq)]
pub struct Item {
    pub id: u64,
    pub name: String,
    pub category: String,
    pub description: String,
    pub created_at: u64,
    pub updated_at: Option<u64>,
}

/// A user's rating of an item. `user_id` and `item_id` are not checked
/// against the user and item stores.
#[derive(Debug, PartialEq, Eq)]
pub struct UserPreference {
    pub id: u64,
    pub user_id: u64,
    pub item_id: u64,
    pub rating: u64,
    pub created_at: u64,
    pub updated_at: Option<u64>,
}

/// A named grouping of users, items and preferences.
///
/// The lists hold copies of the records taken when they were associated:
/// later updates of a canonical record do not reach them. Only the deletion
/// of a canonical record is propagated, by removing its copies.
#[derive(Debug, PartialEq, Eq)]
pub struct RecommendationSystem {
    pub id: u64,
    pub users: Vec<User>,
    pub items: Vec<Item>,
    pub user_preferences: Vec<UserPreference>,
}

/// The fields a caller supplies to create or update a user.
#[derive(Clone, Debug, PartialEq, Eq)]
pub struct UserPayload {
    pub name: String,
    pub email: String,
    pub password: String,
}

/// The fields a caller supplies to create or update an item.
#[derive(Clone, Debug, PartialEq, Eq)]
pub struct ItemPayload {
    pub name: String,
    pub category: String,
    pub description: String,
}

/// The fields a caller supplies to create or update a user preference.
#[derive(Clone, Debug, PartialEq, Eq)]
pub struct UserPreferencePayload {
    pub user_id: u64,
    pub item_id: u64,
    pub rating: u64,
}

/// The kinds of record the store keeps.
#[derive(Clone, Copy, Debug, PartialEq, Eq, Structural)]
pub enum Kind {
    User,
    Item,
    UserPreference,
    RecommendationSystem,
}

/// Why an operation failed.
#[derive(Clone, Copy, Debug, PartialEq, Eq, Structural)]
pub enum Error {
    /// No record of this kind has the given id.
    NotFound { kind: Kind, id: u64 },
    /// A required string field is empty, or a rating is zero.
    InvalidPayload,
    /// A listing found no records.
    EmptyResult,
}

impl Clone for User {
    fn clone(&self) -> (r: Self)
        ensures
            r == *self,
    {
        User {
            id: self.id,
            name: self.name.clone(),
            email: self.email.clone(),
            password: self.password.clone(),
            created_at: self.created_at,
            updated_at: self.updated_at,
        }
    }
}

impl Clone for Item {
    fn clone(&self) -> (r: Self)
        ensures
            r == *self,
    {
        Item {
            id: self.id,
            name: self.name.clone(),
            category: self.category.clone(),
            description: self.description.clone(),
            created_at: self.created_at,
            updated_at: self.updated_at,
        }
    }
}

impl Clone for UserPreference {
    fn clone(&self) -> (r: Self)
        ensures
            r == *self,
    {
        UserPreference {
            id: self.id,
            user_id: self.user_id,
            item_id: self.item_id,
            rating: self.rating,
            created_at: self.created_at,
            updated_at: self.updated_at,
        }
    }
}

impl View for User {
    type V = User;

    open spec fn view(&self) -> User {
        *self
    }
}

impl View for Item {
    type V = Item;

    open spec fn view(&self) -> Item {
        *self
    }
}

impl View for UserPreference {
    type V = UserPreference;

    open spec fn view(&self) -> UserPreference {
        *self
    }
}

impl Record for User {
    fn duplicate(&self) -> (r: Self) {
        self.clone()
    }
}

impl Record for Item {
    fn duplicate(&self) -> (r: Self) {
        self.clone()
    }
}

impl Record for UserPreference {
    fn duplicate(&self) -> (r: Self) {
        self.clone()
    }
}

impl Record for RecommendationSystem {
    fn duplicate(&self) -> (r: Self) {
        self.clone()
    }
}

/// What a recommendation system holds, with its lists as sequences.
pub ghost struct SystemView {
    pub id: u64,
    pub users: Seq<User>,
    pub items: Seq<Item>,
    pub user_preferences: Seq<UserPreference>,
}

impl View for RecommendationSystem {
    type V = SystemView;

    open spec fn view(&self) -> SystemView {
        SystemView {
            id: self.id,
            users: self.users@,
            items: self.items@,
            user_preferences: self.user_preferences@,
        }
    }
}

impl Clone for RecommendationSystem {
    fn clone(&self) -> (r: Self)
        ensures
            r@ == self@,
    {
        let users = self.users.clone();
        let items = self.items.clone();
        let user_preferences = self.user_preferences.clone();
        assert(users@ =~= self.users@);
        assert(items@ =~= self.items@);
        assert(user_preferences@ =~= self.user_preferences@);
        RecommendationSystem { id: self.id, users, items, user_preferences }
    }
}

} // verus!
