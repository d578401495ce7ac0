pub mod archive;
pub mod cleanup;
pub mod cmd;
pub mod cui;
pub mod error;
pub mod inventory;
pub mod laws;
pub mod order;
pub mod shim;
pub mod status;
pub mod sync;
pub mod text;
pub mod version;
