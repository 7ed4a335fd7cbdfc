//! A typed model of OPML documents and a codec between that model and XML text.
//!
//! `decode` reads a document from text and `encode` writes one; a document
//! that is written and read again is the same document. The model is in
//! `model`, the failures of decoding in `error`.
//!
//! The dialect is the one of the OPML tools: the fields of an outline node
//! are attributes of its `outline` element, the fields of the head are child
//! elements of `head`, and `version` is an attribute of `opml`. Names are
//! written and read in the exact casing of the format.
//!
//! Between text and model stands an element tree, `tree`. `parse` and
//! `render` carry it from and to text with the XML parser and writer of
//! `quick_xml`, which `xml` wraps; `decode` and `encode` map it to and from
//! the model. The lists that one attribute or element carries are read and
//! written in `lists`, numbers and booleans in `scalar`. `laws` holds what
//! is proved of reading and writing together.
//!
//! Everything is proved but what `xml` states of `quick_xml`, and what
//! `text::push_char` states of `String::push`.

pub mod codec;
pub mod decode;
pub mod encode;
pub mod error;
pub mod laws;
pub mod lists;
pub mod model;
pub mod parse;
pub mod render;
pub mod scalar;
pub mod text;
pub mod tree;
pub mod xml;

pub use codec::{decode, decode_within, encode, DEFAULT_MAX_DEPTH};
pub use error::DecodeError;
pub use lists::{format_int_list, format_string_list, parse_int_list, parse_string_list};
pub use model::{Body, Head, Opml, Outline};
pub use tree::{Attribute, Element};
