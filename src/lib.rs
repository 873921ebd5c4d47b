//! Finding and fetching NVIDIA driver packages: the candidate download links
//! of a driver descriptor and the decisions around validating them, the GPU
//! catalog and its search filter, the state machine of the interactive GPU
//! picker, and the text work behind detecting the installed GPU.

pub mod driver;
pub mod hwid;
pub mod selector;
pub mod setup;
pub mod text;
pub mod xml;
