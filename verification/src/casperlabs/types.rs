//! How the types of the contract language are written in the target.

use vstd::prelude::*;
use vstd::string::*;

use crate::casperlabs::CasperlabsContract;
use crate::number::Number;
use crate::resolver::Type;
use crate::text::{enclose, enclose2, signed_decimal};

verus! {

/// What stands in the output for a type that has no counterpart.
pub const UNKNOWN_TYPE: &'static str = "unknown_type";

/// One more dimension around an array type: a fixed length gives `[T; n]`,
/// a dynamic one `Vec<T>`.
pub open spec fn dimension_text(inner: Seq<char>, dim: Option<Number>) -> Seq<char> {
    match dim {
        Some(n) => "["@ + inner + "; "@ + signed_decimal(n@) + "]"@,
        None => "Vec<"@ + inner + ">"@,
    }
}

/// The element type with each dimension wrapped around it in turn, the first
/// dimension innermost.
pub open spec fn array_type_text(element: Seq<char>, dims: Seq<Option<Number>>) -> Seq<char> {
    dims.fold_left(element, |inner: Seq<char>, dim: Option<Number>| dimension_text(inner, dim))
}

/// The target's name for a type. References are transparent; a type without a
/// counterpart is written as a placeholder.
pub open spec fn type_text(ty: &Type) -> Seq<char>
    decreases ty,
{
    match ty {
        Type::Bool => "bool"@,
        Type::String => "String"@,
        Type::Uint(8) => "u8"@,
        Type::Uint(16) => "u16"@,
        Type::Uint(32) => "u32"@,
        Type::Uint(64) => "u64"@,
        Type::Uint(128) => "u128"@,
        Type::Uint(256) => "U256"@,
        Type::Int(8) => "i8"@,
        Type::Int(16) => "i16"@,
        Type::Int(32) => "i32"@,
        Type::Int(64) => "i64"@,
        Type::Int(128) => "i128"@,
        Type::Address(false) => "AccountHash"@,
        Type::Bytes(_) => "Vec<u8>"@,
        Type::Array(element, dims) => array_type_text(type_text(element), dims@),
        Type::Ref(inner) => type_text(inner),
        Type::StorageRef(inner) => type_text(inner),
        _ => UNKNOWN_TYPE@,
    }
}

impl<'a> CasperlabsContract<'a> {
    /// Writes a type in the target's syntax.
    pub fn render_type(&self, ty: &Type) -> (out: String)
        ensures
            out@ == type_text(ty),
        decreases ty, 0nat,
    {
        match ty {
            Type::Bool => String::from_str("bool"),
            Type::String => String::from_str("String"),
            Type::Uint(8) => String::from_str("u8"),
            Type::Uint(16) => String::from_str("u16"),
            Type::Uint(32) => String::from_str("u32"),
            Type::Uint(64) => String::from_str("u64"),
            Type::Uint(128) => String::from_str("u128"),
            Type::Uint(256) => String::from_str("U256"),
            Type::Int(8) => String::from_str("i8"),
            Type::Int(16) => String::from_str("i16"),
            Type::Int(32) => String::from_str("i32"),
            Type::Int(64) => String::from_str("i64"),
            Type::Int(128) => String::from_str("i128"),
            Type::Address(false) => String::from_str("AccountHash"),
            Type::Bytes(_) => String::from_str("Vec<u8>"),
            Type::Array(inner_ty, dims) => self.render_array_type(inner_ty, dims),
            Type::Ref(ty) => self.render_type(ty),
            Type::StorageRef(ty) => self.render_type(ty),
            _ => String::from_str(UNKNOWN_TYPE),
        }
    }

    /// Writes an array type: the element type with its dimensions around it.
    pub fn render_array_type(&self, inner_ty: &Type, dims: &Vec<Option<Number>>) -> (out: String)
        ensures
            out@ == array_type_text(type_text(inner_ty), dims@),
        decreases inner_ty, 1nat,
    {
        let mut result = self.render_type(inner_ty);
        let mut i: usize = 0;
        while i < dims.len()
            invariant
                i <= dims.len(),
                result@ == array_type_text(type_text(inner_ty), dims@.take(i as int)),
            decreases dims.len() - i,
        {
            proof {
                assert(dims@.take(i + 1).drop_last() =~= dims@.take(i as int));
            }
            match &dims[i] {
                Some(dim) => {
                    let length = dim.to_decimal();
                    result = enclose2("[", result.as_str(), "; ", length.as_str(), "]");
                },
                None => {
                    result = enclose("Vec<", result.as_str(), ">");
                },
            }
            i = i + 1;
        }
        proof {
            assert(dims@.take(dims.len() as int) =~= dims@);
        }
        result
    }
}

} // verus!
