//! Names in the output: local variables, and the keys under which the
//! contract's state variables are stored.

use vstd::prelude::*;
use vstd::string::*;

use crate::casperlabs::laws::local_names_have_no_dot;
use crate::casperlabs::CasperlabsContract;
use crate::resolver::cfg::ControlFlowGraph;
use crate::resolver::Contract;
use crate::text::{enclose, option_view, quoted, remove_char, same_text, without};

verus! {

/// The state variable that stands for the caller of the contract.
pub const MSG_SENDER: &'static str = "msg_sender";

/// The call that gives the caller of the contract.
pub const GET_CALLER: &'static str = "runtime::get_caller()";

/// The name of the local variable at a position, with its dots left out: the
/// target takes no dot in an identifier.
pub open spec fn local_var_text(cfg: &ControlFlowGraph, id: int) -> Seq<char> {
    without(cfg.vars[id].id.name@, '.')
}

/// How the state variable at a position is named in the output, if there
/// is one: the caller's call for `msg_sender`, else the name as a string
/// literal, which is its storage key.
pub open spec fn variable_name_text(contract: &Contract, id: int) -> Option<Seq<char>> {
    if 0 <= id < contract.variables.len() {
        let name = contract.variables[id].name@;
        if name == MSG_SENDER@ {
            Some(GET_CALLER@)
        } else {
            Some(quoted(name))
        }
    } else {
        None
    }
}

impl<'a> CasperlabsContract<'a> {
    /// The name of the state variable at a position, if there is one.
    pub fn variable_name(&self, id: usize) -> (out: Option<String>)
        ensures
            option_view(out) == variable_name_text(self.contract, id as int),
    {
        if id < self.contract.variables.len() {
            let variable = &self.contract.variables[id];
            if same_text(variable.name.as_str(), MSG_SENDER) {
                Some(String::from_str(GET_CALLER))
            } else {
                Some(enclose("\"", variable.name.as_str(), "\""))
            }
        } else {
            None
        }
    }

    /// The identifier of the local variable at a position: its name, with no
    /// dot left in it.
    pub fn render_local_var(&self, id: usize, cfg: &ControlFlowGraph) -> (out: String)
        requires
            id < cfg.vars.len(),
        ensures
            out@ == local_var_text(cfg, id as int),
            !out@.contains('.'),
    {
        proof {
            local_names_have_no_dot(cfg, id as int);
        }
        remove_char(cfg.vars[id].id.name.as_str(), '.')
    }
}

} // verus!
