//! The custody and accounting core of a token escrow and a token vault.
//!
//! Both keep tokens in holding accounts that no user can spend from: each
//! holding account belongs to an address derived from a seed tuple, and only
//! who presents the same seeds acts for that address. The escrow locks the
//! maker's tokens until a taker swaps them for the tokens that the maker
//! wants or the maker takes them back. The vault keeps the deposits of many
//! users and lets each withdraw up to what the user's record has available.
//!
//! * [`address`]: account addresses.
//! * [`authority`]: derived addresses and the proof of acting for one.
//! * [`table`]: records under distinct keys.
//! * [`token`]: token accounts and the transfer between two of them.
//! * [`escrow`]: offers made, taken and refunded.
//! * [`vault`]: deposits and withdrawals.
//! * [`instruction`]: the vault's instructions and their wire form.
//! * [`processor`]: the vault's instructions carried out from their bytes.

pub mod address;
pub mod authority;
pub mod escrow;
pub mod instruction;
pub mod processor;
pub mod table;
pub mod token;
pub mod vault;
