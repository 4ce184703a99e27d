//! Bit-exact emulation of the world-generation random number generators and a
//! seed-search engine that tests candidate world seeds against observed
//! structural signatures.

pub mod rng;
pub mod search;

pub use rng::ChunkRandom;
pub use rng::JavaRandom;
pub use rng::LegacyRandom;
pub use rng::Xoro;
pub use search::TreeSignature;
pub use search::check_seed;
