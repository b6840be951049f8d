pub mod hashing;
pub mod identicon;
