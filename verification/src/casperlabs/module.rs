//! The module as a whole: the prelude, the contract's functions inside the
//! contract module, and the helpers that the emitted statements call.

use vstd::prelude::*;
use vstd::string::*;

use crate::casperlabs::functions::{contract_valid, functions_text};
use crate::casperlabs::CasperlabsContract;
use crate::resolver::Contract;
use crate::text::{enclose2, option_view};

verus! {

/// The crate attributes that open the output.
pub const PRAGMAS: &'static str = "
            #![no_main]
            #![allow(unused_imports)]
            #![allow(unused_parens)]
            #![allow(non_snake_case)]

            ";

/// The imports that the emitted code relies on.
pub const IMPORTS: &'static str = "
            extern crate alloc;

            use core::convert::TryInto;
            use alloc::{collections::{BTreeSet, BTreeMap}, string::String};

            use casperlabs_contract_macro::{casperlabs_constructor, casperlabs_contract, casperlabs_method};
            use casperlabs_contract::{
                contract_api::{runtime, storage},
                unwrap_or_revert::UnwrapOrRevert,
            };
            use casperlabs_types::{
                runtime_args, CLValue, CLTyped, CLType, Group, Parameter, RuntimeArgs, URef, U256, ApiError,
                bytesrepr::{ToBytes, FromBytes}, account::AccountHash,
                contracts::{EntryPoint, EntryPointAccess, EntryPointType, EntryPoints},
            };
        ";

/// What stands between the imports and the name of the contract module.
pub const MODULE_OPEN: &'static str = "

            #[casperlabs_contract]
            mod ";

/// What stands between the name of the contract module and its functions.
pub const MODULE_BODY_OPEN: &'static str = " {
            ";

/// The end of the contract module, and after it the helpers that the emitted
/// statements call: reading and writing a storage key, the key of a mapping
/// entry, assertions, and handing back a result.
pub const FOOTER: &'static str = "
            }

            fn get_key<T: FromBytes + CLTyped + Default>(name: &str) -> T {
                match runtime::get_key(name) {
                    None => Default::default(),
                    Some(value) => {
                        let key = value.try_into().unwrap_or_revert();
                        storage::read(key).unwrap_or_revert().unwrap_or_revert()
                    }
                }
            }

            fn set_key<T: ToBytes + CLTyped>(name: &str, value: T) {
                match runtime::get_key(name) {
                    Some(key) => {
                        let key_ref = key.try_into().unwrap_or_revert();
                        storage::write(key_ref, value);
                    }
                    None => {
                        let key = storage::new_uref(value).into();
                        runtime::put_key(name, key);
                    }
                }
            }

            fn new_key(a: &str, b: AccountHash) -> String {
                format!(\"{}_{}\", a, b)
            }

            fn assert(condition: bool) {
                if !condition {
                    runtime::revert(ApiError::User(1u16));
                }
            }

            fn revert() {
                assert(false);
            }

            fn require(condition: bool) {
                assert(condition);
            }

            fn ret<T: CLTyped + ToBytes>(value: T) {
                runtime::ret(CLValue::from_t(value).unwrap_or_revert());
            }
        ";

/// The text up to the first function of a contract module of the given name.
pub open spec fn header_text(name: Seq<char>) -> Seq<char> {
    PRAGMAS@ + IMPORTS@ + MODULE_OPEN@ + name + MODULE_BODY_OPEN@
}

/// The whole output: header, functions and footer, each on a new line.
pub open spec fn module_text(contract: &Contract) -> Seq<char> {
    header_text(contract.name@) + "\n"@ + functions_text(contract) + "\n"@ + FOOTER@
}

impl<'a> CasperlabsContract<'a> {
    /// Writes the contract as a CasperLabs contract module.
    pub fn render(&self) -> (out: String)
        requires
            contract_valid(self.contract),
        ensures
            out@ == module_text(self.contract),
    {
        let header = self.render_header();
        let functions = self.render_functions();
        let footer = self.render_footer();
        enclose2(header.as_str(), "\n", functions.as_str(), "\n", footer.as_str())
    }

    /// Writes what precedes the functions.
    pub fn render_header(&self) -> (out: String)
        ensures
            out@ == header_text(self.contract.name@),
    {
        let imports = self.render_imports();
        enclose2(
            PRAGMAS,
            imports.as_str(),
            MODULE_OPEN,
            self.contract.name.as_str(),
            MODULE_BODY_OPEN,
        )
    }

    /// Writes the imports.
    pub fn render_imports(&self) -> (out: String)
        ensures
            out@ == IMPORTS@,
    {
        String::from_str(IMPORTS)
    }

    /// Writes what follows the functions.
    pub fn render_footer(&self) -> (out: String)
        ensures
            out@ == FOOTER@,
    {
        String::from_str(FOOTER)
    }

    /// Writes the contract as a CasperLabs contract module, if it can be
    /// written.
    pub fn try_render(&self) -> (out: Option<String>)
        ensures
            option_view(out) == if contract_valid(self.contract) {
                Some(module_text(self.contract))
            } else {
                None
            },
    {
        if self.can_render() {
            Some(self.render())
        } else {
            None
        }
    }
}

} // verus!
