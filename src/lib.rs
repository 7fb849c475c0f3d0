//! Deterministic Falcon-1024 key generation, a pair of favourite-number
//! collections with different concurrency disciplines, user records and a
//! few checked arithmetic helpers, each with a machine-checked contract.

pub mod arith;
pub mod numbers;
pub mod favorites;
pub mod falcon;
pub mod greeting;
pub mod signing;
pub mod user;

pub use arith::{add, div, equal, no_op, sub, PlaygroundError};
pub use falcon::{keygen_result, FalconError, FalconKeyPair, KeygenBuffers};
pub use favorites::{FavoriteNumbers, WasmFavoriteNumbers};
pub use greeting::greeting;
pub use signing::genkey;
pub use user::{
    user_object_from_record, wasm_user_object_from_record, UserObject, UserRecord, WasmUserObject,
};
