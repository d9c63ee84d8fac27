//! Cross-compilation environment synthesis for MSVC targets: the artifact
//! cache's bookkeeping, the environment overlay handed to the build driver,
//! and the CMake toolchain descriptor that mirrors it.

pub mod text;
pub mod triple;
pub mod options;
pub mod layout;
pub mod environment;
pub mod descriptor;
pub mod cache;
pub mod tools;
