//! Provider resolution and response decoding for oEmbed consumers.
//!
//! The crate answers three questions, each by a function that is verified
//! against a mathematical statement of its result.
//!
//! * Given a URL, which endpoint of which provider can describe it? A
//!   [`Registry`] holds the providers, [`find_provider`] picks the first
//!   endpoint with a matching scheme, and [`matches_scheme`] is the wildcard
//!   matcher underneath.
//! * What is to be asked of that endpoint? [`request_url`] adds the
//!   parameters of a [`ConsumerRequest`] to the endpoint's URL.
//! * What did the provider answer? [`read_response`] tells a failure of the
//!   transport from a body that cannot be read, and [`Response::decode`]
//!   reads the body: one of four kinds of content, the members common to
//!   all kinds, and whatever else the provider sent.
//!
//! The request itself is not sent here. JSON text is read and written by
//! `serde_json` and URLs are put together by `reqwest`'s `Url`; what the
//! crate assumes of them is said where they are called.

pub mod decode;
pub mod encode;
pub mod error;
pub mod json;
pub mod object;
pub mod provider;
pub mod registry;
pub mod request;
pub mod response;
pub mod scheme;
pub mod text;

pub use error::{DecodeError, Error, TransportError};
pub use json::{Json, JsonView};
pub use provider::{find_provider, Endpoint, Provider, Registry};
pub use registry::RegistryLoadError;
pub use request::{read_response, request_url, ConsumerRequest};
pub use response::{Photo, Response, ResponseView, Rich, Type, TypeView, Video};
pub use scheme::matches_scheme;
pub use text::chars_of;
