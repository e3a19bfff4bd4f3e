pub mod hashmap_user_store;

pub use hashmap_user_store::HashmapUserStore;
pub use hashmap_user_store::UserStoreError;
