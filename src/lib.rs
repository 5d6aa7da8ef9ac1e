//! Evaluation support for native-build configuration scripts: a translator
//! from the legacy build-description language into the embedded scripting
//! dialect, and the build-semantics layer (dependency lookup, toolchain
//! probe programs, configuration data, generated-header rendering).

pub mod text;
pub mod probe;
pub mod host;
pub mod syntax;
pub mod translate;
pub mod config;
pub mod configure;
pub mod dependency;
pub mod project;
pub mod legacy;

