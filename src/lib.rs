pub mod block;
pub mod bytes;
pub mod cityhash;
pub mod codec;
pub mod error;
pub mod lemmas;
pub mod u128_low_high;
pub mod values;
