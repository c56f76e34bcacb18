pub mod arith;
pub mod bignum;
pub mod hashing;
pub mod protocol;
pub mod randomness;
