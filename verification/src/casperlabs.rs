//! The CasperLabs back end: a resolved contract becomes the text of a
//! contract module for the CasperLabs runtime.

pub mod blocks;
pub mod diagnostics;
pub mod expressions;
pub mod functions;
pub mod laws;
pub mod module;
pub mod names;
pub mod nesting;
pub mod types;

use vstd::prelude::*;

use crate::resolver::Contract;

verus! {

/// A contract on its way to becoming CasperLabs source text.
pub struct CasperlabsContract<'a> {
    pub contract: &'a Contract,
    pub visited: u32,
}

impl<'a> CasperlabsContract<'a> {
    /// A renderer for the contract.
    pub fn new(contract: &'a Contract) -> (out: Self)
        ensures
            out.contract == contract,
            out.visited == 0,
    {
        CasperlabsContract { contract, visited: 0u32 }
    }
}

} // verus!
