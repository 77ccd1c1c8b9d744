//! Host/guest bridge of an edge-function runtime: the marshaling protocol that
//! carries lengths beside pointers, the native bindings installed in the guest,
//! the fetch bridge's data model and error taxonomy, and the trampoline that
//! settles a handler's result.

// Marshaling
pub mod stack;
pub mod transfer;

// Guest bindings
pub mod codec;
pub mod console;
pub mod text;
pub mod url_record;

// Fetch bridge
pub mod byte_list;
pub mod fetch;
pub mod header_map;
pub mod http;

// Invocation
pub mod script;
pub mod trampoline;
