//! Expressions of the contract language as expressions of the target.

use vstd::prelude::*;
use vstd::string::*;

use crate::casperlabs::names::{local_var_text, variable_name_text, GET_CALLER};
use crate::casperlabs::types::type_text;
use crate::casperlabs::CasperlabsContract;
use crate::number::as_index;
use crate::resolver::cfg::ControlFlowGraph;
use crate::resolver::expression::Expression;
use crate::resolver::Contract;
use crate::text::{
    bracketed_groups, byte_numerals, byte_texts, decimal_text, enclose, enclose2,
    enclose3, group_texts, join, join_text, quoted, same_text, signed_decimal, views,
};

verus! {

/// What stands in the output for an expression that has no counterpart.
pub const UNKNOWN_EXPRESSION: &'static str = "unknown_expresson";

/// A byte string as a vector of its bytes.
pub open spec fn bytes_literal_text(bytes: Seq<u8>) -> Seq<char> {
    "vec!["@ + join(byte_numerals(bytes), ", "@) + "]"@
}

/// The elements of an array literal, grouped dimension by dimension: for each
/// dimension in turn, the list so far is cut into bracketed groups of that
/// many.
pub open spec fn array_layout(items: Seq<Seq<char>>, dims: Seq<u32>) -> Seq<Seq<char>> {
    dims.fold_left(items, |list: Seq<Seq<char>>, dim: u32| bracketed_groups(list, dim as nat))
}

/// An array literal: its grouped elements, joined by commas.
pub open spec fn array_literal_text(items: Seq<Seq<char>>, dims: Seq<u32>) -> Seq<char> {
    join(array_layout(items, dims), ","@)
}

/// Two operands between parentheses with an operator between them.
pub open spec fn infix(left: Seq<char>, operator: Seq<char>, right: Seq<char>) -> Seq<char> {
    "("@ + left + operator + right + ")"@
}

/// Two byte sequences combined byte by byte; the operation is written over a
/// pair `e` of bytes.
pub open spec fn bytewise(left: Seq<char>, right: Seq<char>, operation: Seq<char>) -> Seq<char> {
    "("@ + left + ".iter().zip("@ + right + ".iter()).map(|e| "@ + operation
        + ").collect::<Vec<u8>>())"@
}

/// Whether an expression can be written: every variable it names exists,
/// every array dimension is positive, and a hash names a storage slot by one
/// value or by two.
pub open spec fn expression_valid(e: &Expression, cfg: &ControlFlowGraph) -> bool
    decreases e, 0nat,
{
    match e {
        Expression::FunctionArg(pos) => *pos < cfg.vars.len(),
        Expression::Variable(pos) => *pos < cfg.vars.len(),
        Expression::ArrayLiteral(_, dims, exprs) => {
            &&& forall|k: int| 0 <= k < dims.len() ==> dims[k] > 0
            &&& forall|k: int| 0 <= k < exprs.len() ==> expression_valid(&exprs[k], cfg)
        },
        Expression::Add(l, r) => expression_valid(l, cfg) && expression_valid(r, cfg),
        Expression::Subtract(l, r) => expression_valid(l, cfg) && expression_valid(r, cfg),
        Expression::Multiply(l, r) => expression_valid(l, cfg) && expression_valid(r, cfg),
        Expression::UDivide(l, r) => expression_valid(l, cfg) && expression_valid(r, cfg),
        Expression::SDivide(l, r) => expression_valid(l, cfg) && expression_valid(r, cfg),
        Expression::UModulo(l, r) => expression_valid(l, cfg) && expression_valid(r, cfg),
        Expression::SModulo(l, r) => expression_valid(l, cfg) && expression_valid(r, cfg),
        Expression::Power(l, r) => expression_valid(l, cfg) && expression_valid(r, cfg),
        Expression::BitwiseOr(l, r) => expression_valid(l, cfg) && expression_valid(r, cfg),
        Expression::BitwiseAnd(l, r) => expression_valid(l, cfg) && expression_valid(r, cfg),
        Expression::BitwiseXor(l, r) => expression_valid(l, cfg) && expression_valid(r, cfg),
        Expression::UMore(l, r) => expression_valid(l, cfg) && expression_valid(r, cfg),
        Expression::ULess(l, r) => expression_valid(l, cfg) && expression_valid(r, cfg),
        Expression::UMoreEqual(l, r) => expression_valid(l, cfg) && expression_valid(r, cfg),
        Expression::ULessEqual(l, r) => expression_valid(l, cfg) && expression_valid(r, cfg),
        Expression::SMore(l, r) => expression_valid(l, cfg) && expression_valid(r, cfg),
        Expression::SLess(l, r) => expression_valid(l, cfg) && expression_valid(r, cfg),
        Expression::SMoreEqual(l, r) => expression_valid(l, cfg) && expression_valid(r, cfg),
        Expression::SLessEqual(l, r) => expression_valid(l, cfg) && expression_valid(r, cfg),
        Expression::Equal(l, r) => expression_valid(l, cfg) && expression_valid(r, cfg),
        Expression::NotEqual(l, r) => expression_valid(l, cfg) && expression_valid(r, cfg),
        Expression::ArraySubscript(a, i) => expression_valid(a, cfg) && expression_valid(i, cfg),
        Expression::Ternary(c, l, r) => {
            &&& expression_valid(c, cfg)
            &&& expression_valid(l, cfg)
            &&& expression_valid(r, cfg)
        },
        Expression::Not(inner) => expression_valid(inner, cfg),
        Expression::UnaryMinus(inner) => expression_valid(inner, cfg),
        Expression::ZeroExt(_, inner) => expression_valid(inner, cfg),
        Expression::StorageLoad(_, key) => storage_key_valid(key, cfg),
        Expression::Keccak256(pairs) => {
            ||| pairs.len() == 1 && storage_key_valid(&pairs[0].0, cfg)
            ||| pairs.len() == 2 && storage_key_valid(&pairs[0].0, cfg) && expression_valid(
                &pairs[1].0,
                cfg,
            )
        },
        _ => true,
    }
}

/// Whether an expression can be written as a storage key: a number must be a
/// position, anything else must be an expression that can be written.
pub open spec fn storage_key_valid(e: &Expression, cfg: &ControlFlowGraph) -> bool
    decreases e, 1nat,
{
    match e {
        Expression::NumberLiteral(_, n) => as_index(n@) is Some,
        _ => expression_valid(e, cfg),
    }
}

/// The storage key of the state variable that a number names: the
/// variable's name in the output where there is such a variable, else the
/// number itself between quotes.
pub open spec fn storage_slot_text(contract: &Contract, position: int) -> Seq<char> {
    match variable_name_text(contract, position) {
        Some(name) => name,
        None => quoted(signed_decimal(position)),
    }
}

/// An expression in the target's syntax.
pub open spec fn expression_text(
    contract: &Contract,
    e: &Expression,
    cfg: &ControlFlowGraph,
) -> Seq<char>
    decreases e, 0nat,
{
    match e {
        Expression::FunctionArg(pos) => local_var_text(cfg, *pos as int),
        Expression::Variable(pos) => local_var_text(cfg, *pos as int),
        Expression::BoolLiteral(false) => "false"@,
        Expression::BoolLiteral(true) => "true"@,
        Expression::BytesLiteral(bytes) => bytes_literal_text(bytes@),
        Expression::NumberLiteral(_, n) => signed_decimal(n@),
        Expression::ArrayLiteral(_, dims, exprs) => array_literal_text(
            expression_texts(contract, exprs, cfg),
            dims@,
        ),
        Expression::Add(l, r) => infix(
            expression_text(contract, l, cfg),
            " + "@,
            expression_text(contract, r, cfg),
        ),
        Expression::Subtract(l, r) => infix(
            expression_text(contract, l, cfg),
            " - "@,
            expression_text(contract, r, cfg),
        ),
        Expression::Multiply(l, r) => infix(
            expression_text(contract, l, cfg),
            " * "@,
            expression_text(contract, r, cfg),
        ),
        Expression::UDivide(l, r) => infix(
            expression_text(contract, l, cfg),
            " / "@,
            expression_text(contract, r, cfg),
        ),
        Expression::SDivide(l, r) => infix(
            expression_text(contract, l, cfg),
            " / "@,
            expression_text(contract, r, cfg),
        ),
        Expression::UModulo(l, r) => infix(
            expression_text(contract, l, cfg),
            " % "@,
            expression_text(contract, r, cfg),
        ),
        Expression::SModulo(l, r) => infix(
            expression_text(contract, l, cfg),
            " % "@,
            expression_text(contract, r, cfg),
        ),
        Expression::Power(l, r) => expression_text(contract, l, cfg) + ".pow("@
            + expression_text(contract, r, cfg) + ")"@,
        Expression::BitwiseOr(l, r) => bytewise(
            expression_text(contract, l, cfg),
            expression_text(contract, r, cfg),
            "e.0 | e.1"@,
        ),
        Expression::BitwiseAnd(l, r) => bytewise(
            expression_text(contract, l, cfg),
            expression_text(contract, r, cfg),
            "e.0 & e.1"@,
        ),
        Expression::BitwiseXor(l, r) => bytewise(
            expression_text(contract, l, cfg),
            expression_text(contract, r, cfg),
            "e.0 ^ e.1"@,
        ),
        Expression::UMore(l, r) => infix(
            expression_text(contract, l, cfg),
            " > "@,
            expression_text(contract, r, cfg),
        ),
        Expression::SMore(l, r) => infix(
            expression_text(contract, l, cfg),
            " > "@,
            expression_text(contract, r, cfg),
        ),
        Expression::ULess(l, r) => infix(
            expression_text(contract, l, cfg),
            " < "@,
            expression_text(contract, r, cfg),
        ),
        Expression::SLess(l, r) => infix(
            expression_text(contract, l, cfg),
            " < "@,
            expression_text(contract, r, cfg),
        ),
        Expression::UMoreEqual(l, r) => infix(
            expression_text(contract, l, cfg),
            " >= "@,
            expression_text(contract, r, cfg),
        ),
        Expression::SMoreEqual(l, r) => infix(
            expression_text(contract, l, cfg),
            " >= "@,
            expression_text(contract, r, cfg),
        ),
        Expression::ULessEqual(l, r) => infix(
            expression_text(contract, l, cfg),
            " <= "@,
            expression_text(contract, r, cfg),
        ),
        Expression::SLessEqual(l, r) => infix(
            expression_text(contract, l, cfg),
            " <= "@,
            expression_text(contract, r, cfg),
        ),
        Expression::Equal(l, r) => infix(
            expression_text(contract, l, cfg),
            " == "@,
            expression_text(contract, r, cfg),
        ),
        Expression::NotEqual(l, r) => infix(
            expression_text(contract, l, cfg),
            " != "@,
            expression_text(contract, r, cfg),
        ),
        Expression::ArraySubscript(a, i) => expression_text(contract, a, cfg) + "["@
            + expression_text(contract, i, cfg) + " as usize]"@,
        Expression::Ternary(c, l, r) => "if "@ + expression_text(contract, c, cfg) + " { "@
            + expression_text(contract, l, cfg) + " } else { "@ + expression_text(contract, r, cfg)
            + " }"@,
        Expression::Not(inner) => "!("@ + expression_text(contract, inner, cfg) + ")"@,
        Expression::UnaryMinus(inner) => "-("@ + expression_text(contract, inner, cfg) + ")"@,
        Expression::ZeroExt(_, inner) => expression_text(contract, inner, cfg),
        Expression::StorageLoad(ty, key) => {
            let name = storage_key_text(contract, key, cfg);
            if name == GET_CALLER@ {
                name
            } else {
                "get_key::<"@ + type_text(ty) + ">("@ + name + ")"@
            }
        },
        Expression::Keccak256(pairs) => {
            if pairs.len() == 2 {
                "&new_key("@ + storage_key_text(contract, &pairs[0].0, cfg) + ", "@
                    + expression_text(contract, &pairs[1].0, cfg) + ")"@
            } else if pairs.len() == 1 {
                storage_key_text(contract, &pairs[0].0, cfg)
            } else {
                Seq::empty()
            }
        },
        _ => UNKNOWN_EXPRESSION@,
    }
}

/// The expressions of a list, each in the target's syntax.
pub open spec fn expression_texts(
    contract: &Contract,
    exprs: &Vec<Expression>,
    cfg: &ControlFlowGraph,
) -> Seq<Seq<char>>
    decreases exprs, 0nat,
{
    Seq::new(
        exprs.len() as nat,
        |k: int|
            if 0 <= k < exprs.len() {
                expression_text(contract, &exprs[k], cfg)
            } else {
                Seq::empty()
            },
    )
}

/// An expression as a storage key. A number names a state variable by its
/// position; a sum or a product is turned into a string when the emitted
/// code runs; anything else is written as it is.
pub open spec fn storage_key_text(
    contract: &Contract,
    e: &Expression,
    cfg: &ControlFlowGraph,
) -> Seq<char>
    decreases e, 1nat,
{
    match e {
        Expression::NumberLiteral(_, n) => storage_slot_text(contract, n@),
        Expression::Add(_, _) => "&format!(\"{}\", "@ + expression_text(contract, e, cfg) + ")"@,
        Expression::Multiply(_, _) => "&format!(\"{}\", "@ + expression_text(contract, e, cfg)
            + ")"@,
        _ => expression_text(contract, e, cfg),
    }
}

impl<'a> CasperlabsContract<'a> {
    /// Writes an expression in the target's syntax.
    pub fn render_expression(
        &self,
        expression: &Expression,
        cfg: &ControlFlowGraph,
    ) -> (out: String)
        requires
            expression_valid(expression, cfg),
        ensures
            out@ == expression_text(self.contract, expression, cfg),
        decreases expression, 0nat,
    {
        match expression {
            Expression::FunctionArg(pos) => self.render_local_var(*pos, cfg),
            Expression::BoolLiteral(false) => String::from_str("false"),
            Expression::BoolLiteral(true) => String::from_str("true"),
            Expression::BytesLiteral(s) => {
                let numerals = byte_texts(s);
                let list = join_text(&numerals, ", ");
                enclose("vec![", list.as_str(), "]")
            },
            Expression::NumberLiteral(_, n) => n.to_decimal(),
            Expression::ArrayLiteral(_, dims, exprs) => self.render_static_array(dims, exprs, cfg),
            Expression::Add(l, r) => {
                let left = self.render_expression(l, cfg);
                let right = self.render_expression(r, cfg);
                enclose2("(", left.as_str(), " + ", right.as_str(), ")")
            },
            Expression::Subtract(l, r) => {
                let left = self.render_expression(l, cfg);
                let right = self.render_expression(r, cfg);
                enclose2("(", left.as_str(), " - ", right.as_str(), ")")
            },
            Expression::BitwiseOr(l, r) => {
                let left = self.render_expression(l, cfg);
                let right = self.render_expression(r, cfg);
                enclose3(
                    "(",
                    left.as_str(),
                    ".iter().zip(",
                    right.as_str(),
                    ".iter()).map(|e| ",
                    "e.0 | e.1",
                    ").collect::<Vec<u8>>())",
                )
            },
            Expression::BitwiseAnd(l, r) => {
                let left = self.render_expression(l, cfg);
                let right = self.render_expression(r, cfg);
                enclose3(
                    "(",
                    left.as_str(),
                    ".iter().zip(",
                    right.as_str(),
                    ".iter()).map(|e| ",
                    "e.0 & e.1",
                    ").collect::<Vec<u8>>())",
                )
            },
            Expression::BitwiseXor(l, r) => {
                let left = self.render_expression(l, cfg);
                let right = self.render_expression(r, cfg);
                enclose3(
                    "(",
                    left.as_str(),
                    ".iter().zip(",
                    right.as_str(),
                    ".iter()).map(|e| ",
                    "e.0 ^ e.1",
                    ").collect::<Vec<u8>>())",
                )
            },
            Expression::Multiply(l, r) => {
                let left = self.render_expression(l, cfg);
                let right = self.render_expression(r, cfg);
                enclose2("(", left.as_str(), " * ", right.as_str(), ")")
            },
            Expression::UDivide(l, r) | Expression::SDivide(l, r) => {
                let left = self.render_expression(l, cfg);
                let right = self.render_expression(r, cfg);
                enclose2("(", left.as_str(), " / ", right.as_str(), ")")
            },
            Expression::UModulo(l, r) | Expression::SModulo(l, r) => {
                let left = self.render_expression(l, cfg);
                let right = self.render_expression(r, cfg);
                enclose2("(", left.as_str(), " % ", right.as_str(), ")")
            },
            Expression::Power(l, r) => {
                let left = self.render_expression(l, cfg);
                let right = self.render_expression(r, cfg);
                let mut out = left;
                out.append(".pow(");
                out.append(right.as_str());
                out.append(")");
                out
            },
            Expression::Variable(res) => self.render_local_var(*res, cfg),
            Expression::StorageLoad(ty, expr) => {
                let name = self.render_var_name_or_default(expr, cfg);
                if same_text(name.as_str(), GET_CALLER) {
                    name
                } else {
                    let ty = self.render_type(ty);
                    enclose2("get_key::<", ty.as_str(), ">(", name.as_str(), ")")
                }
            },
            Expression::ZeroExt(_, expr) => self.render_expression(expr, cfg),
            Expression::SMore(l, r) | Expression::UMore(l, r) => {
                let left = self.render_expression(l, cfg);
                let right = self.render_expression(r, cfg);
                enclose2("(", left.as_str(), " > ", right.as_str(), ")")
            },
            Expression::SLess(l, r) | Expression::ULess(l, r) => {
                let left = self.render_expression(l, cfg);
                let right = self.render_expression(r, cfg);
                enclose2("(", left.as_str(), " < ", right.as_str(), ")")
            },
            Expression::SMoreEqual(l, r) | Expression::UMoreEqual(l, r) => {
                let left = self.render_expression(l, cfg);
                let right = self.render_expression(r, cfg);
                enclose2("(", left.as_str(), " >= ", right.as_str(), ")")
            },
            Expression::SLessEqual(l, r) | Expression::ULessEqual(l, r) => {
                let left = self.render_expression(l, cfg);
                let right = self.render_expression(r, cfg);
                enclose2("(", left.as_str(), " <= ", right.as_str(), ")")
            },
            Expression::Equal(l, r) => {
                let left = self.render_expression(l, cfg);
                let right = self.render_expression(r, cfg);
                enclose2("(", left.as_str(), " == ", right.as_str(), ")")
            },
            Expression::NotEqual(l, r) => {
                let left = self.render_expression(l, cfg);
                let right = self.render_expression(r, cfg);
                enclose2("(", left.as_str(), " != ", right.as_str(), ")")
            },
            Expression::ArraySubscript(a, i) => {
                let array = self.render_expression(a, cfg);
                let index = self.render_expression(i, cfg);
                let mut out = array;
                out.append("[");
                out.append(index.as_str());
                out.append(" as usize]");
                out
            },
            Expression::Ternary(c, l, r) => {
                let cond = self.render_expression(c, cfg);
                let left = self.render_expression(l, cfg);
                let right = self.render_expression(r, cfg);
                enclose3(
                    "if ",
                    cond.as_str(),
                    " { ",
                    left.as_str(),
                    " } else { ",
                    right.as_str(),
                    " }",
                )
            },
            Expression::Not(expr) => {
                let inner = self.render_expression(expr, cfg);
                enclose("!(", inner.as_str(), ")")
            },
            Expression::UnaryMinus(expr) => {
                let inner = self.render_expression(expr, cfg);
                enclose("-(", inner.as_str(), ")")
            },
            Expression::Keccak256(exprs) => {
                if exprs.len() == 2 {
                    let first = self.render_var_name_or_default(&exprs[0].0, cfg);
                    let second = self.render_expression(&exprs[1].0, cfg);
                    enclose2("&new_key(", first.as_str(), ", ", second.as_str(), ")")
                } else {
                    self.render_var_name_or_default(&exprs[0].0, cfg)
                }
            },
            _ => String::from_str(UNKNOWN_EXPRESSION),
        }
    }

    /// Writes an array literal: the elements, grouped dimension by dimension.
    pub fn render_static_array(
        &self,
        dims: &Vec<u32>,
        exprs: &Vec<Expression>,
        cfg: &ControlFlowGraph,
    ) -> (out: String)
        requires
            forall|k: int| 0 <= k < dims.len() ==> dims[k] > 0,
            forall|k: int| 0 <= k < exprs.len() ==> expression_valid(&exprs[k], cfg),
        ensures
            out@ == array_literal_text(expression_texts(self.contract, exprs, cfg), dims@),
        decreases exprs, 0nat,
    {
        let mut result: Vec<String> = Vec::new();
        let mut i: usize = 0;
        while i < exprs.len()
            invariant
                i <= exprs.len(),
                result.len() == i,
                forall|k: int| 0 <= k < exprs.len() ==> expression_valid(&exprs[k], cfg),
                forall|k: int|
                    0 <= k < i ==> (#[trigger] result[k])@ == expression_text(
                        self.contract,
                        &exprs[k],
                        cfg,
                    ),
            decreases exprs.len() - i,
        {
            result.push(self.render_expression(&exprs[i], cfg));
            i = i + 1;
        }
        let ghost items = expression_texts(self.contract, exprs, cfg);
        proof {
            assert(views(result@) =~= items);
            assert(dims@.take(0).fold_left(
                items,
                |list: Seq<Seq<char>>, dim: u32| bracketed_groups(list, dim as nat),
            ) == items);
        }
        let mut j: usize = 0;
        while j < dims.len()
            invariant
                j <= dims.len(),
                forall|k: int| 0 <= k < dims.len() ==> dims[k] > 0,
                views(result@) == array_layout(items, dims@.take(j as int)),
            decreases dims.len() - j,
        {
            proof {
                assert(dims@.take(j + 1).drop_last() =~= dims@.take(j as int));
            }
            result = group_texts(&result, dims[j] as usize);
            j = j + 1;
        }
        proof {
            assert(dims@.take(dims.len() as int) =~= dims@);
        }
        join_text(&result, ",")
    }

    /// Writes an expression as a storage key.
    pub fn render_var_name_or_default(
        &self,
        expression: &Expression,
        cfg: &ControlFlowGraph,
    ) -> (out: String)
        requires
            storage_key_valid(expression, cfg),
        ensures
            out@ == storage_key_text(self.contract, expression, cfg),
        decreases expression, 1nat,
    {
        match expression {
            Expression::NumberLiteral(_, n) => {
                let position: usize = n.to_index().unwrap();
                match self.variable_name(position) {
                    Some(name) => name,
                    None => {
                        let numeral = decimal_text(position as u64);
                        enclose("\"", numeral.as_str(), "\"")
                    },
                }
            },
            Expression::Add(_, _) | Expression::Multiply(_, _) => {
                let inner = self.render_expression(expression, cfg);
                enclose("&format!(\"{}\", ", inner.as_str(), ")")
            },
            _ => self.render_expression(expression, cfg),
        }
    }
}

/// Whether an expression can be written.
#[verifier::loop_isolation(false)]
pub fn expression_is_valid(e: &Expression, cfg: &ControlFlowGraph) -> (valid: bool)
    ensures
        valid == expression_valid(e, cfg),
    decreases e, 0nat,
{
    match e {
        Expression::FunctionArg(pos) | Expression::Variable(pos) => *pos < cfg.vars.len(),
        Expression::ArrayLiteral(_, dims, exprs) => {
            let mut j: usize = 0;
            while j < dims.len()
                invariant
                    j <= dims.len(),
                    forall|k: int| 0 <= k < j ==> dims[k] > 0,
                decreases dims.len() - j,
            {
                if dims[j] == 0 {
                    return false;
                }
                j = j + 1;
            }
            let mut i: usize = 0;
            while i < exprs.len()
                invariant
                    i <= exprs.len(),
                    forall|k: int| 0 <= k < dims.len() ==> dims[k] > 0,
                    forall|k: int| 0 <= k < i ==> expression_valid(&exprs[k], cfg),
                decreases exprs.len() - i,
            {
                if !expression_is_valid(&exprs[i], cfg) {
                    return false;
                }
                i = i + 1;
            }
            true
        },
        Expression::Add(l, r)
        | Expression::Subtract(l, r)
        | Expression::Multiply(l, r)
        | Expression::UDivide(l, r)
        | Expression::SDivide(l, r)
        | Expression::UModulo(l, r)
        | Expression::SModulo(l, r)
        | Expression::Power(l, r)
        | Expression::BitwiseOr(l, r)
        | Expression::BitwiseAnd(l, r)
        | Expression::BitwiseXor(l, r)
        | Expression::UMore(l, r)
        | Expression::ULess(l, r)
        | Expression::UMoreEqual(l, r)
        | Expression::ULessEqual(l, r)
        | Expression::SMore(l, r)
        | Expression::SLess(l, r)
        | Expression::SMoreEqual(l, r)
        | Expression::SLessEqual(l, r)
        | Expression::Equal(l, r)
        | Expression::NotEqual(l, r)
        | Expression::ArraySubscript(l, r) => expression_is_valid(l, cfg) && expression_is_valid(
            r,
            cfg,
        ),
        Expression::Ternary(c, l, r) => expression_is_valid(c, cfg) && expression_is_valid(l, cfg)
            && expression_is_valid(r, cfg),
        Expression::Not(inner) | Expression::UnaryMinus(inner) => expression_is_valid(inner, cfg),
        Expression::ZeroExt(_, inner) => expression_is_valid(inner, cfg),
        Expression::StorageLoad(_, key) => storage_key_is_valid(key, cfg),
        Expression::Keccak256(pairs) => {
            if pairs.len() == 1 {
                storage_key_is_valid(&pairs[0].0, cfg)
            } else if pairs.len() == 2 {
                storage_key_is_valid(&pairs[0].0, cfg) && expression_is_valid(&pairs[1].0, cfg)
            } else {
                false
            }
        },
        _ => true,
    }
}

/// Whether an expression can be written as a storage key.
pub fn storage_key_is_valid(e: &Expression, cfg: &ControlFlowGraph) -> (valid: bool)
    ensures
        valid == storage_key_valid(e, cfg),
    decreases e, 1nat,
{
    match e {
        Expression::NumberLiteral(_, n) => n.to_index().is_some(),
        _ => expression_is_valid(e, cfg),
    }
}

} // verus!
