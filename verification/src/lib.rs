//! Decoding of magnet URIs into resource descriptors.
//!
//! A magnet URI carries its whole content in its query string. Each key names
//! a field of a resource, optionally followed by the number of the resource it
//! belongs to (`dn.1`), and each value is the field's content. [`MagnetUri`]
//! holds the decoded key/value pairs of one URI, [`Parameter`] classifies a
//! key, and [`MagnetUri::resources`] folds the pairs into [`Resource`]s.

pub mod accumulator;
pub mod decimal;
pub mod description;
pub mod error;
pub mod magnet;
pub mod parameter;
pub mod resource;
pub mod text;
pub mod uri;

pub use error::Error;
pub use magnet::MagnetUri;
pub use parameter::{Parameter, ParameterType};
pub use resource::Resource;
