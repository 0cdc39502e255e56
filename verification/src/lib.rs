//! A key-value container paired with a compact presence index.
//!
//! [`BitSetCollection`] keeps a hierarchical bit set beside any container that
//! implements [`Collection`]. Membership queries and key enumeration are
//! answered from the bit set alone; the container is asked for values only,
//! and only under keys that the bit set reports.

pub mod adapter;
pub mod bits;
pub mod btree_map;
pub mod collection;
pub mod hash_map;
pub mod key;
pub mod laws;
pub mod presence;
pub mod sequence;

pub use adapter::BitSetBTreeMap;
pub use adapter::BitSetCollection;
pub use adapter::BitSetHashMap;
pub use adapter::BitSetMutSlice;
pub use adapter::BitSetSlice;
pub use adapter::BitSetVec;
pub use adapter::BitSetVecDeque;
pub use bits::index_capacity;
pub use btree_map::OrdKey;
pub use collection::Collection;
pub use hash_map::HashKey;
pub use key::Key;
pub use key::KeyRangeError;
pub use presence::PresenceIndex;
