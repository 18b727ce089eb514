//! Classes of the Ruby core that the interpreter backs with native code.

pub mod io;
