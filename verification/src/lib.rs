//! A call bridge for embedding a JavaScript engine: host code loads script
//! source, calls named functions with JSON-encoded arguments, and receives
//! exactly one result per call, optionally under a wall-clock timeout.
//!
//! This crate is the verified core of the bridge.  It models the JSON
//! values exchanged with the engine, renders them as the JSON text the
//! invocation sources embed, normalises the engine's single numeric type,
//! keys every call's result through a single-use slot store, keeps the
//! session's bookkeeping (namespaces, timeout, slot counter), and
//! validates declared typed interfaces.  The engine itself is an outside
//! collaborator: the embedder executes the sources built here, drives the
//! event loop, and feeds delivered results and failures back into the
//! bridge's verified decisions.

mod api;
mod call_args;
mod codec;
mod js_error;
mod json;
mod render;
mod script;
mod slot;
mod util;

pub use api::ApiError;
pub use api::ApiMethod;
pub use api::ApiOutcome;
pub use api::CallDescriptor;
pub use api::MethodDecl;
pub use api::ParamDecl;
pub use api::ReceiverDecl;
pub use api::ReturnShape;
pub use api::descriptor_for;
pub use api::generate_api;
pub use api::handle_return;
pub use api::parse_return_type;
pub use api::validate_method;
pub use call_args::CallArgs;
pub use call_args::Sealed;
pub use codec::Shape;
pub use codec::decode_result;
pub use codec::matches_shape;
pub use js_error::CallError;
pub use js_error::EncodeError;
pub use js_error::JsResult;
pub use js_error::LoadError;
pub use json::FloatRepr;
pub use json::JsValue;
pub use json::JsonNumber;
pub use render::encode_args;
pub use script::Script;
pub use script::unwrap_namespace_result;
pub use slot::SlotStore;
pub use util::eval_expression_source;
pub use util::eval_fn_name;
pub use util::eval_statement_source;
