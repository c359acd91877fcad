//! A verified core for a stack-discipline bridge between host code and an
//! embedded interpreter.
//!
//! The interpreter's observable state (operand stack, table heap, loaded
//! libraries) is modelled explicitly by [`state::Vm`]; the bridge logic —
//! scoped push guards, the `Push`/`PushOne` and `LuaRead` marshalling
//! protocols, error classification and the top-level context — is verified
//! against that model.  The execution engine itself (compiling and running
//! chunks) stays outside: the context takes it as a parameter and the
//! contracts state what holds for every outcome it can produce.

pub mod callback;
pub mod error;
pub mod handle;
pub mod laws;
pub mod lua;
pub mod push;
pub mod read;
pub mod state;
pub mod tables;
pub mod util;
pub mod uuid;
pub mod value;

pub use callback::dispatch_callback;
pub use error::LuaError;
pub use error::lua_typename;
pub use error::type_name_of;
pub use handle::AbsoluteIndex;
pub use handle::AsLua;
pub use handle::PushGuard;
pub use lua::ChunkInput;
pub use lua::ChunkOutcome;
pub use lua::Lua;
pub use push::Push;
pub use push::PushOne;
pub use push::TuplePushError;
pub use push::Void;
pub use push::push_no_err;
pub use read::LuaRead;
pub use read::LuaReadOne;
pub use tables::LuaTable;
pub use util::DisplayAsHexBytes;
pub use util::IntoClones;
pub use util::NumOrStr;
pub use util::str_eq;
pub use uuid::DecodeError;
pub use uuid::MP_UUID;
pub use uuid::ParseError;
pub use uuid::TtUuid;
pub use uuid::Uuid;
pub use value::FloatBits;
pub use value::LuaType;
pub use value::LuaValue;
pub use value::Nil;
