//! A strict, strongly typed model of Lexicon schema documents, with a decoder
//! from JSON values whose behaviour is stated in contracts and proved.
//!
//! A document is handed over as a [`Json`] value and decoded with
//! [`Decode::decode`]. Decoding either gives the whole document or one
//! [`DecodeError`]: it never gives a part of a document.
//!
//! The schema language is a closed one. Every position of a document allows
//! its own choice of nodes, and each choice is a type of its own: [`Def`] for
//! a definition, [`FieldSchema`] for a field of an object, [`ItemsSchema`]
//! for an item of an array, [`ParamSchema`] for a parameter, and so on. A
//! node is decoded from an object of which every key is known to the node and
//! none occurs twice; where a position allows several nodes, the string under
//! the key `type` selects one, and a string outside the vocabulary of the
//! position selects none.
//!
//! What decoding gives is defined on the mathematical values of the types, by
//! [`Decode::decoding`]; the executable decoder is proved to compute it. The
//! laws that hold of decoding are proved beside the definitions they speak
//! of: that a key which a node does not allow rejects the document at any
//! depth ([`Decode::lemma_stray_key_rejected`]), that the tag alone decides
//! the variant, that the path of a fault leads to a place in the document
//! ([`Decode::lemma_fault_placed`]).

pub mod collect;
pub mod decimal;
pub mod decode;
pub mod document;
pub mod endpoint;
pub mod fault;
pub mod field;
pub mod json;
pub mod leaf;
pub mod least;
pub mod member;
pub mod name_map;
pub mod node;
pub mod params;
pub mod scalar;
pub mod tag;
pub mod text;

pub use decode::Decode;
pub use document::{Def, Lexicon, Record, RecordSchema};
pub use endpoint::{
    Error, Input, InputSchema, Message, MessageSchema, Output, OutputSchema, Procedure, Query,
    Subscription,
};
pub use fault::{Cause, DecodeError, Step};
pub use field::{Array, FieldSchema, ItemsSchema, Object};
pub use json::{Json, Shape};
pub use leaf::{Blob, Boolean, Bytes, CidLink, Integer, Ref, StringFormat, StringTy, Token, Union};
pub use name_map::NameMap;
pub use node::Node;
pub use params::{ParamArray, ParamItemsSchema, ParamSchema, Params};
