//! Generator of C guest bindings for component-model interfaces.
//!
//! An [`ir::Interface`] describes named and anonymous types and the functions
//! that use them. The generator ([`gen::C`]) lowers every type to a C
//! declaration, synthesises destructors for the types that own memory,
//! prints the public signature and the canonical-ABI trampoline of every
//! function, and turns the instruction stream of an ABI walker into C
//! statements ([`bindgen::FunctionBindgen`]).
//!
//! A run goes like this: [`ir::Interface::check`] tests the interface;
//! `preprocess_one` notes the direction; a `type_*` call prints the
//! definition of each named type; `import` or `export` begins a function,
//! `emit` takes its instructions one by one, and `finish_function` ends it;
//! `finish_one` puts header and implementation together.
//!
//! Every contract speaks of values: a buffer is its text and depth
//! ([`text::Buf`]), what was printed is a list of pieces ([`text::render`]),
//! and the generator is a [`gen::GenState`]. The module [`laws`] holds what
//! is proved of the generator as a whole.
pub mod abi;
pub mod anon;
pub mod api_error;
pub mod bindgen;
pub mod drain;
pub mod dtor;
pub mod emit;
pub mod emit_call;
pub mod emit_expr;
pub mod emit_iface;
pub mod emit_lift;
pub mod emit_option;
pub mod emit_variant;
pub mod finish;
pub mod func;
pub mod gen;
pub mod ir;
pub mod laws;
pub mod names;
pub mod pool;
pub mod repr;
pub mod ret;
pub mod shape;
pub mod sig;
pub mod text;
pub mod topo;
pub mod typedef;
pub mod validate;
