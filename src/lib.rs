//! Reading of netrc credential files: a tokenizer, a record builder and a
//! selector that picks the login of the first matching host record.
use vstd::prelude::*;

pub mod cli;
pub mod error;
pub mod laws;
pub mod lexer;
pub mod netrc;
pub mod select;
pub mod text;

pub use crate::error::Error;
pub use crate::netrc::{fmt_netrc_machine, Host, Machine, Macro, Netrc};
pub use crate::select::{select_login, NoMatch};

verus! {

} // verus!
