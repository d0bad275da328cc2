mod hashers;
pub mod operator;
pub mod tape;
pub mod value;

pub use hashers::{hash_fiveminutecodingadventure, BuildFxHasher, FxHasher, HashNode};
pub use operator::Operator;
pub use value::Value;
