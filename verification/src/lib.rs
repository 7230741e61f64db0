pub mod accum;
pub mod error;
pub mod funcs;
pub mod sketch;
pub mod token;
pub mod value;
