//! A persistent record store for users, items, user preferences and
//! recommendation systems (named groupings of the other three).
//!
//! Records of each kind live in an ordered store keyed by a 64-bit id that a
//! per-kind allocator hands out. A recommendation system embeds *copies* of
//! the records associated with it; deleting a canonical user, item or
//! preference removes its copies from every recommendation system.
pub mod cascade;
pub mod ids;
pub mod laws;
pub mod model;
pub mod service;
pub mod store;

pub use cascade::{Member, scrub};
pub use ids::IdAllocator;
pub use model::{
    Error, Item, ItemPayload, Kind, RecommendationSystem, User, UserPayload, UserPreference,
    UserPreferencePayload,
};
pub use service::RecommendationService;
pub use store::{EntityStore, Record};
