//! A heterogeneous tensor compute engine: element types and layouts,
//! kernel naming and launch metadata, a tensor façade that either executes
//! or records each operation, and the session logic of the plugin protocol.

pub mod dtype;
pub mod device;
pub mod layout;
pub mod error;
pub mod metadata;
pub mod ops;
pub mod kernel;
pub mod elem;
pub mod be_cpu;
pub mod tensor;
pub mod bitwise;
pub mod linalg;
pub mod diag;
pub mod be_cuda;
pub mod be_metal;
pub mod rpc;
pub mod notify;
pub mod clean;
pub mod tensor_data;
pub mod laws;
