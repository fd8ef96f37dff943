//! Store-and-forward messaging: the relay's bookkeeping, the simulator that
//! exercises it, the rules of the local store and the decisions of the web
//! client, each stated as a contract and proved.
pub mod basics;
pub mod codec;
pub mod keyed;
pub mod protocol;
pub mod relay;
pub mod relay_transport;
pub mod simulation;
pub mod sorting;
pub mod storage;
pub mod sums;
pub mod text;
pub mod web_client;
