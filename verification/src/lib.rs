//! Deterministic password-of-the-day generation for ARRIS/Commscope cable
//! modems.
//!
//! A shared-secret seed (4 to 8 printable characters) and a calendar date are
//! turned into a fixed-length printable password: the seed is expanded into
//! 64 bits of key material, the date is packed into a 64-bit plaintext block,
//! the block is encrypted by a legacy 16-round Feistel cipher, and the
//! ciphertext bytes are mapped onto a fixed 32-character alphabet.

pub mod bits;
pub mod cipher;
pub mod dates;
pub mod engine;
pub mod password;
pub mod seed;
pub mod tables;
pub mod text;
