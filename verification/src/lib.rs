//! Decoding of script token streams into typed Miniscript trees, and the
//! rules that say which trees each script context accepts.
//!
//! [`decode::parse`] reads a fragment off the end of a token stream. It is
//! held, step by step, to the machine of [`machine`], of which [`sound`],
//! [`local`], [`typing`], [`joins`] and [`laws`] prove what a caller relies
//! on: the tokens that were read are those that encode the tree, the same
//! tokens decode to the same tree wherever they stand, every fragment of
//! the tree is typed and legal in the context, and a threshold has one join
//! after each child but the first.

/// The script contexts and their rules.
pub mod context;
/// The decoder.
pub mod decode;
/// The encoder.
pub mod encode;
/// The errors of decoding.
pub mod error;
/// Leaf fragments that a user of the library defines.
pub mod extension;
/// Cost annotations of fragments.
pub mod extra_props;
/// The laws on the joins of a threshold.
pub mod joins;
/// Public keys in their serialized form.
pub mod key;
/// Laws of the contexts, the costs and the decoder.
pub mod laws;
/// Tokens and the stream that the decoder reads.
pub mod lex;
/// Resource ceilings.
pub mod limits;
/// The law that decoding round-trips.
pub mod local;
/// The decoder as a machine on sequences.
pub mod machine;
/// Fragments and typed trees.
pub mod miniscript;
mod private;
/// The law that decoding is sound.
pub mod sound;
/// Numbers as text.
pub mod text;
/// Type inference.
pub mod typeck;
/// The law that decoded trees are well typed.
pub mod typing;
/// Correctness and malleability types.
pub mod types;
/// The script signature of a witness.
pub mod util;

pub use crate::context::BareCtx;
pub use crate::context::ContextKind;
pub use crate::context::Legacy;
pub use crate::context::NoChecks;
pub use crate::context::ScriptContext;
pub use crate::context::ScriptContextError;
pub use crate::context::Segwitv0;
pub use crate::context::SigType;
pub use crate::context::Tap;
pub use crate::decode::parse;
pub use crate::error::Error;
pub use crate::extension::Extension;
pub use crate::extension::NoExt;
pub use crate::key::MiniscriptKey;
pub use crate::key::PublicKey;
pub use crate::key::XOnlyPublicKey;
pub use crate::lex::Token;
pub use crate::lex::TokenIter;
pub use crate::miniscript::Miniscript;
pub use crate::miniscript::Terminal;
