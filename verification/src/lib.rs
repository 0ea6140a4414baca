//! Token list records for a multi-chain wallet: the `TokenData` record and its
//! binary wire format, together with the decisions taken while building,
//! cleaning and resizing a token list.

mod token_data;
pub mod wire;
mod bincode_calls;
mod codec;
pub mod token_info;
pub mod chain;
pub mod cleanup;
pub mod pools;
pub mod icons;
pub mod entry;
pub use codec::{decode_token_list, encode_token_list, records};

pub use token_data::{TokenData, TokenRecord};
