//! Reading and writing the `docker-compose.yml` version 2 format.
//!
//! The format allows several spellings of one value: a bare string or a
//! full mapping, `name` or `name:alias`. This crate reads each of them into
//! one typed value, and writes values back in the most compact spelling
//! that loses nothing.

pub mod aliased_name;
pub mod build_context;
pub mod env_file;
pub mod error;
pub mod node;
pub mod raw_or;
pub mod string_or_struct;
pub mod text;
pub mod var_map;

pub use aliased_name::AliasedName;
pub use build_context::Build;
pub use env_file::{EnvFile, EnvFileError};
pub use error::{Error, InvalidValueError};
pub use node::Node;
pub use raw_or::{value, RawOr};
pub use string_or_struct::{
    deserialize_opt_string_or_struct, deserialize_string_or_struct,
    serialize_opt_string_or_struct, serialize_string_or_struct, FromMapping, FromScalar,
    SerializeStringOrStruct,
};
pub use var_map::VarMap;
