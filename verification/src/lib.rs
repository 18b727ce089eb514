pub mod context;
pub mod error;
pub mod eval;
pub mod extn;
pub mod interpreter;
pub mod io;
pub mod load;
pub mod path;
pub mod regexp;
pub mod value;
pub mod vfs;
