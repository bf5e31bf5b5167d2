//! The layers that wrap an application.

pub mod abci;
pub mod chain_commitment;
pub mod nonce;
pub mod payable;
pub mod sdk_compat;
pub mod signer;

pub use abci::{ABCICall, BeginBlockCtx, EndBlockCtx, InitChainCtx};
pub use nonce::{NonceCall, NoncePlugin};
pub use payable::Paid;
pub use sdk_compat::SdkCompatPlugin;
pub use signer::Signer;
