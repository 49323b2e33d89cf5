//! The functions of the contract: which of them are written, and how.

use vstd::prelude::*;
use vstd::string::*;

use crate::casperlabs::blocks::{block_text, cfg_is_valid, cfg_valid};
use crate::casperlabs::types::type_text;
use crate::casperlabs::CasperlabsContract;
use crate::resolver::cfg::ControlFlowGraph;
use crate::resolver::{Contract, FunctionDecl, Parameter};
use crate::text::{enclose, join, join_text, same_text, views};

verus! {

/// Whether a signature is that of a function which the runtime or the
/// emitted helpers provide, so that the contract's own is not written.
pub open spec fn is_blacklisted(signature: Seq<char>) -> bool {
    ||| signature == "print(string)"@
    ||| signature == "revert(string)"@
    ||| signature == "assert(bool)"@
    ||| signature == "revert()"@
    ||| signature == "require(bool,string)"@
    ||| signature == "require(bool)"@
    ||| signature == "selfdestruct(address)"@
    ||| signature == "keccak256(bytes)"@
    ||| signature == "ripemd160(bytes)"@
    ||| signature == "sha256(bytes)"@
    ||| signature == "blake2_128(bytes)"@
    ||| signature == "blake2_256(bytes)"@
}

/// Whether a signature is on the list of functions that are not written.
pub fn is_blacklisted_fn(name: &str) -> (listed: bool)
    ensures
        listed == is_blacklisted(name@),
{
    same_text(name, "print(string)") || same_text(name, "revert(string)") || same_text(
        name,
        "assert(bool)",
    ) || same_text(name, "revert()") || same_text(name, "require(bool,string)") || same_text(
        name,
        "require(bool)",
    ) || same_text(name, "selfdestruct(address)") || same_text(name, "keccak256(bytes)")
        || same_text(name, "ripemd160(bytes)") || same_text(name, "sha256(bytes)") || same_text(
        name,
        "blake2_128(bytes)",
    ) || same_text(name, "blake2_256(bytes)")
}

/// The functions that are written: those of the list whose signature is not
/// blacklisted, in their order.
pub open spec fn emitted(functions: Seq<FunctionDecl>) -> Seq<FunctionDecl> {
    functions.filter(|f: FunctionDecl| !is_blacklisted(f.signature@))
}

/// The annotation that registers a function with the runtime: one for a
/// public constructor, one for any other public function, none for a
/// private function.
pub open spec fn annotation_text(function: &FunctionDecl) -> Seq<char> {
    if function.is_public {
        if function.is_constructor {
            "#[casperlabs_constructor]"@
        } else {
            "#[casperlabs_method]"@
        }
    } else {
        Seq::empty()
    }
}

/// The name under which a function is written.
pub open spec fn function_name_text(function: &FunctionDecl) -> Seq<char> {
    if function.is_constructor {
        "constructor"@
    } else {
        function.name@
    }
}

/// The parameters, each as its name and its type.
pub open spec fn parameter_texts(params: Seq<Parameter>) -> Seq<Seq<char>> {
    Seq::new(params.len(), |k: int| params[k].name@ + ": "@ + type_text(&params[k].ty))
}

/// Whether a function can be written: its graph has an entry block and
/// can be written.
pub open spec fn function_valid(contract: &Contract, function: &FunctionDecl) -> bool {
    &&& function.cfg.bb.len() > 0
    &&& cfg_valid(contract, &function.cfg)
}

/// Whether the contract can be written: each function that is not
/// blacklisted can.
pub open spec fn contract_valid(contract: &Contract) -> bool {
    forall|k: int|
        0 <= k < contract.functions.len() && !is_blacklisted(
            (#[trigger] contract.functions[k]).signature@,
        ) ==> function_valid(contract, &contract.functions[k])
}

/// The body of a function: its entry block, reached over no other block.
pub open spec fn cfg_text(contract: &Contract, cfg: &ControlFlowGraph) -> Seq<char> {
    block_text(contract, 0, cfg, Seq::empty())
}

/// A function as it is written: annotation, name, parameters and body.
pub open spec fn function_text(contract: &Contract, function: &FunctionDecl) -> Seq<char> {
    "\n            "@ + annotation_text(function) + "\n            fn "@ + function_name_text(
        function,
    ) + "("@ + join(parameter_texts(function.params@), ", "@) + ") { "@ + cfg_text(
        contract,
        &function.cfg,
    ) + "\n            }"@
}

/// The functions that are written, each on a new line.
pub open spec fn functions_text(contract: &Contract) -> Seq<char> {
    let written = emitted(contract.functions@);
    join(Seq::new(written.len(), |k: int| function_text(contract, &written[k])), "\n"@)
}

impl<'a> CasperlabsContract<'a> {
    /// The functions that are written: all but the blacklisted ones.
    pub fn functions(&self) -> (out: Vec<&FunctionDecl>)
        ensures
            out.len() == emitted(self.contract.functions@).len(),
            forall|k: int| 0 <= k < out.len() ==> *out[k] == emitted(self.contract.functions@)[k],
            forall|k: int|
                0 <= k < out.len() ==> !is_blacklisted((#[trigger] out[k]).signature@)
                    && self.contract.functions@.contains(*out[k]),
    {
        let mut out: Vec<&FunctionDecl> = Vec::new();
        let mut i: usize = 0;
        let ghost all = self.contract.functions@;
        proof {
            reveal_with_fuel(Seq::filter, 1);
            assert(emitted(all.take(0)).len() == 0);
        }
        while i < self.contract.functions.len()
            invariant
                i <= self.contract.functions.len(),
                all == self.contract.functions@,
                out.len() == emitted(all.take(i as int)).len(),
                forall|k: int| 0 <= k < out.len() ==> *out[k] == emitted(all.take(i as int))[k],
                forall|k: int|
                    0 <= k < out.len() ==> !is_blacklisted((#[trigger] out[k]).signature@)
                        && all.contains(*out[k]),
            decreases self.contract.functions.len() - i,
        {
            let function = &self.contract.functions[i];
            proof {
                reveal_with_fuel(Seq::filter, 1);
                assert(all.take(i + 1).drop_last() =~= all.take(i as int));
                assert(all.take(i + 1).last() == all[i as int]);
            }
            if !is_blacklisted_fn(function.signature.as_str()) {
                out.push(function);
            }
            i = i + 1;
        }
        proof {
            assert(all.take(all.len() as int) =~= all);
        }
        out
    }

    /// Writes the functions of the contract.
    pub fn render_functions(&self) -> (out: String)
        requires
            contract_valid(self.contract),
        ensures
            out@ == functions_text(self.contract),
    {
        let mut result: Vec<String> = Vec::new();
        let functions = self.functions();
        let ghost written = emitted(self.contract.functions@);
        let mut i: usize = 0;
        while i < functions.len()
            invariant
                i <= functions.len(),
                contract_valid(self.contract),
                written == emitted(self.contract.functions@),
                functions.len() == written.len(),
                forall|k: int| 0 <= k < functions.len() ==> *functions[k] == written[k],
                forall|k: int|
                    0 <= k < functions.len() ==> !is_blacklisted(
                        (#[trigger] functions[k]).signature@,
                    ) && self.contract.functions@.contains(*functions[k]),
                result.len() == i,
                forall|k: int|
                    0 <= k < i ==> (#[trigger] result[k])@ == function_text(
                        self.contract,
                        &written[k],
                    ),
            decreases functions.len() - i,
        {
            let function = functions[i];
            proof {
                let at = choose|at: int|
                    0 <= at < self.contract.functions.len() && self.contract.functions[at]
                        == *function;
                assert(function_valid(self.contract, &self.contract.functions[at]));
            }
            result.push(self.render_function(function));
            i = i + 1;
        }
        proof {
            assert(views(result@) =~= Seq::new(
                written.len(),
                |k: int| function_text(self.contract, &written[k]),
            ));
        }
        join_text(&result, "\n")
    }

    /// Writes one function.
    pub fn render_function(&self, function: &FunctionDecl) -> (out: String)
        requires
            function_valid(self.contract, function),
        ensures
            out@ == function_text(self.contract, function),
    {
        let attr = self.render_function_macro_name(function);
        let name = self.render_function_name(function);
        let args = self.render_function_args(function);
        let body = self.render_function_body(function);
        let mut out = enclose("\n            ", attr.as_str(), "\n            fn ");
        out.append(name.as_str());
        out.append("(");
        out.append(args.as_str());
        out.append(") { ");
        out.append(body.as_str());
        out.append("\n            }");
        out
    }

    /// Writes the annotation of a function.
    pub fn render_function_macro_name(&self, function: &FunctionDecl) -> (out: String)
        ensures
            out@ == annotation_text(function),
    {
        if function.is_public {
            if function.is_constructor {
                String::from_str("#[casperlabs_constructor]")
            } else {
                String::from_str("#[casperlabs_method]")
            }
        } else {
            String::new()
        }
    }

    /// Writes the name of a function.
    pub fn render_function_name(&self, function: &FunctionDecl) -> (out: String)
        ensures
            out@ == function_name_text(function),
    {
        if function.is_constructor {
            String::from_str("constructor")
        } else {
            function.name.clone()
        }
    }

    /// Writes the parameters of a function.
    pub fn render_function_args(&self, function: &FunctionDecl) -> (out: String)
        ensures
            out@ == join(parameter_texts(function.params@), ", "@),
    {
        let mut result: Vec<String> = Vec::new();
        let mut i: usize = 0;
        while i < function.params.len()
            invariant
                i <= function.params.len(),
                result.len() == i,
                forall|k: int|
                    0 <= k < i ==> (#[trigger] result[k])@ == parameter_texts(
                        function.params@,
                    )[k],
            decreases function.params.len() - i,
        {
            let param = &function.params[i];
            let ty = self.render_type(&param.ty);
            result.push(enclose(param.name.as_str(), ": ", ty.as_str()));
            i = i + 1;
        }
        proof {
            assert(views(result@) =~= parameter_texts(function.params@));
        }
        join_text(&result, ", ")
    }

    /// Writes the body of a function.
    pub fn render_function_body(&self, function: &FunctionDecl) -> (out: String)
        requires
            function_valid(self.contract, function),
        ensures
            out@ == cfg_text(self.contract, &function.cfg),
    {
        self.render_function_cfg(&function.cfg)
    }

    /// Writes a graph from its entry block.
    pub fn render_function_cfg(&self, cfg: &ControlFlowGraph) -> (out: String)
        requires
            cfg.bb.len() > 0,
            cfg_valid(self.contract, cfg),
        ensures
            out@ == cfg_text(self.contract, cfg),
    {
        self.render_block(0, cfg, Vec::new())
    }

    /// Whether a function can be written.
    pub fn function_is_valid(&self, function: &FunctionDecl) -> (valid: bool)
        ensures
            valid == function_valid(self.contract, function),
    {
        function.cfg.bb.len() > 0 && cfg_is_valid(self.contract, &function.cfg)
    }

    /// Whether the contract can be written.
    pub fn can_render(&self) -> (valid: bool)
        ensures
            valid == contract_valid(self.contract),
    {
        let mut i: usize = 0;
        while i < self.contract.functions.len()
            invariant
                i <= self.contract.functions.len(),
                forall|k: int|
                    0 <= k < i && !is_blacklisted(
                        (#[trigger] self.contract.functions[k]).signature@,
                    ) ==> function_valid(self.contract, &self.contract.functions[k]),
            decreases self.contract.functions.len() - i,
        {
            let function = &self.contract.functions[i];
            if !is_blacklisted_fn(function.signature.as_str()) && !self.function_is_valid(
                function,
            ) {
                return false;
            }
            i = i + 1;
        }
        true
    }
}

} // verus!
