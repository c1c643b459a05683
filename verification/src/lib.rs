pub mod action;
pub mod dfs;
pub mod email;
pub mod errors;
pub mod id;
pub mod object_store;
pub mod object_store_filtered;
pub mod preorder;
pub mod run;
pub mod session;
pub mod statedata;
pub mod statedata_filtered;
pub mod step;
pub mod string_template;
pub mod test_object;
pub mod text;
pub mod uri;
pub mod value;
pub mod var;
pub mod vec_map;

pub use errors::Error;
pub use id::SessionId;
pub use session::{AdvanceBlockedOn, Session};
