use solang_casperlabs::casperlabs::expressions::{expression_is_valid, storage_key_is_valid};
use solang_casperlabs::casperlabs::CasperlabsContract;
use solang_casperlabs::number::Number;
use solang_casperlabs::resolver::cfg::{ControlFlowGraph, Identifier, Variable};
use solang_casperlabs::resolver::expression::Expression;
use solang_casperlabs::resolver::{Contract, ContractVariable, Type};

fn contract() -> Contract {
    let variable = |name: &str| ContractVariable { name: name.to_string(), ty: Type::Uint(256) };
    Contract {
        name: "Token".to_string(),
        functions: vec![],
        variables: vec![variable("total"), variable("msg_sender"), variable("balances")],
    }
}

fn cfg() -> ControlFlowGraph {
    let var = |name: &str| Variable { id: Identifier { name: name.to_string() }, ty: Type::Bool };
    ControlFlowGraph { vars: vec![var("a"), var("b"), var("or.temp.2")], bb: vec![] }
}

fn e(expression: &Expression) -> String {
    let contract = contract();
    CasperlabsContract::new(&contract).render_expression(expression, &cfg())
}

fn key(expression: &Expression) -> String {
    let contract = contract();
    CasperlabsContract::new(&contract).render_var_name_or_default(expression, &cfg())
}

fn a() -> Box<Expression> {
    Box::new(Expression::FunctionArg(0))
}

fn b() -> Box<Expression> {
    Box::new(Expression::Variable(1))
}

fn num(n: u8) -> Expression {
    Expression::NumberLiteral(256, Number { bytes: vec![0, n] })
}

#[test]
fn literals() {
    assert_eq!(e(&Expression::BoolLiteral(true)), "true");
    assert_eq!(e(&Expression::BoolLiteral(false)), "false");
    assert_eq!(e(&num(42)), "42");
    assert_eq!(e(&Expression::NumberLiteral(8, Number { bytes: vec![0xFE] })), "-2");
    assert_eq!(e(&Expression::BytesLiteral(vec![1, 2, 255])), "vec![1, 2, 255]");
    assert_eq!(e(&Expression::BytesLiteral(vec![7])), "vec![7]");
    assert_eq!(e(&Expression::BytesLiteral(vec![])), "vec![]");
}

#[test]
fn variables_and_arguments_are_local_names_without_dots() {
    assert_eq!(e(&Expression::FunctionArg(0)), "a");
    assert_eq!(e(&Expression::Variable(1)), "b");
    assert_eq!(e(&Expression::Variable(2)), "ortemp2");
    assert_eq!(e(&Expression::FunctionArg(2)), "ortemp2");
    let contract = contract();
    assert_eq!(CasperlabsContract::new(&contract).render_local_var(2, &cfg()), "ortemp2");
}

#[test]
fn arithmetic() {
    assert_eq!(e(&Expression::Add(a(), b())), "(a + b)");
    assert_eq!(e(&Expression::Subtract(a(), b())), "(a - b)");
    assert_eq!(e(&Expression::Multiply(a(), b())), "(a * b)");
    assert_eq!(e(&Expression::UDivide(a(), b())), "(a / b)");
    assert_eq!(e(&Expression::SDivide(a(), b())), "(a / b)");
    assert_eq!(e(&Expression::UModulo(a(), b())), "(a % b)");
    assert_eq!(e(&Expression::SModulo(a(), b())), "(a % b)");
    assert_eq!(e(&Expression::Power(a(), b())), "a.pow(b)");
    assert_eq!(e(&Expression::UnaryMinus(a())), "-(a)");
}

#[test]
fn operands_are_written_left_before_right() {
    let nested = Expression::Subtract(
        Box::new(Expression::Add(a(), Box::new(num(1)))),
        Box::new(Expression::Multiply(b(), Box::new(num(2)))),
    );
    assert_eq!(e(&nested), "((a + 1) - (b * 2))");
}

#[test]
fn bitwise_operations_zip_byte_sequences() {
    assert_eq!(
        e(&Expression::BitwiseOr(a(), b())),
        "(a.iter().zip(b.iter()).map(|e| e.0 | e.1).collect::<Vec<u8>>())"
    );
    assert_eq!(
        e(&Expression::BitwiseAnd(a(), b())),
        "(a.iter().zip(b.iter()).map(|e| e.0 & e.1).collect::<Vec<u8>>())"
    );
    assert_eq!(
        e(&Expression::BitwiseXor(a(), b())),
        "(a.iter().zip(b.iter()).map(|e| e.0 ^ e.1).collect::<Vec<u8>>())"
    );
}

#[test]
fn comparisons_share_their_text_between_signed_and_unsigned() {
    assert_eq!(e(&Expression::UMore(a(), b())), "(a > b)");
    assert_eq!(e(&Expression::SMore(a(), b())), "(a > b)");
    assert_eq!(e(&Expression::ULess(a(), b())), "(a < b)");
    assert_eq!(e(&Expression::SLess(a(), b())), "(a < b)");
    assert_eq!(e(&Expression::UMoreEqual(a(), b())), "(a >= b)");
    assert_eq!(e(&Expression::SMoreEqual(a(), b())), "(a >= b)");
    assert_eq!(e(&Expression::ULessEqual(a(), b())), "(a <= b)");
    assert_eq!(e(&Expression::SLessEqual(a(), b())), "(a <= b)");
    assert_eq!(e(&Expression::Equal(a(), b())), "(a == b)");
    assert_eq!(e(&Expression::NotEqual(a(), b())), "(a != b)");
}

#[test]
fn logical_and_data_shapes() {
    assert_eq!(e(&Expression::Not(a())), "!(a)");
    assert_eq!(e(&Expression::Ternary(a(), b(), Box::new(num(3)))), "if a { b } else { 3 }");
    assert_eq!(e(&Expression::ZeroExt(Type::Uint(256), a())), "a");
    assert_eq!(e(&Expression::ArraySubscript(a(), Box::new(num(0)))), "a[0 as usize]");
}

#[test]
fn expressions_without_counterpart_are_placeholders() {
    assert_eq!(e(&Expression::Poison), "unknown_expresson");
    assert_eq!(e(&Expression::Unreachable), "unknown_expresson");
    assert_eq!(e(&Expression::ReturnData), "unknown_expresson");
    assert_eq!(e(&Expression::ShiftLeft(a(), b())), "unknown_expresson");
    assert_eq!(e(&Expression::Or(a(), b())), "unknown_expresson");
    assert_eq!(e(&Expression::Complement(a())), "unknown_expresson");
    assert_eq!(e(&Expression::Load(Box::new(Expression::Variable(99)))), "unknown_expresson");
    assert_eq!(e(&Expression::AllocDynamicArray(Type::Bool, a(), None)), "unknown_expresson");
    assert_eq!(e(&Expression::Not(Box::new(Expression::Poison))), "!(unknown_expresson)");
}

#[test]
fn dynamic_array_allocation_is_a_placeholder_with_or_without_initial_bytes() {
    assert_eq!(
        e(&Expression::AllocDynamicArray(Type::Bool, a(), Some(vec![1]))),
        "unknown_expresson"
    );
    assert_eq!(
        e(&Expression::AllocDynamicArray(Type::Bool, a(), Some(vec![]))),
        "unknown_expresson"
    );
    assert_eq!(e(&Expression::AllocDynamicArray(Type::Bool, a(), None)), "unknown_expresson");
}

#[test]
fn array_literal_is_grouped_by_each_dimension_in_turn() {
    let items = |n: u8| (1..=n).map(num).collect::<Vec<Expression>>();
    let literal = |dims: Vec<u32>, n: u8| Expression::ArrayLiteral(Type::Uint(8), dims, items(n));
    assert_eq!(e(&literal(vec![3], 3)), "[1, 2, 3]");
    assert_eq!(e(&literal(vec![], 3)), "1,2,3");
    assert_eq!(e(&literal(vec![2], 4)), "[1, 2],[3, 4]");
    assert_eq!(e(&literal(vec![2, 2], 4)), "[[1, 2], [3, 4]]");
    assert_eq!(e(&literal(vec![3, 2], 6)), "[[1, 2, 3], [4, 5, 6]]");
    assert_eq!(e(&literal(vec![2, 3], 6)), "[[1, 2], [3, 4], [5, 6]]");
    assert_eq!(e(&literal(vec![2], 3)), "[1, 2],[3]");
    assert_eq!(e(&literal(vec![2], 0)), "");
    let contract = contract();
    assert_eq!(
        CasperlabsContract::new(&contract).render_static_array(&vec![2], &items(2), &cfg()),
        "[1, 2]"
    );
}

#[test]
fn storage_key_of_a_number_is_the_variable_at_that_position() {
    assert_eq!(key(&num(0)), "\"total\"");
    assert_eq!(key(&num(2)), "\"balances\"");
    assert_eq!(key(&num(1)), "runtime::get_caller()");
    assert_eq!(key(&num(3)), "\"3\"");
    assert_eq!(key(&num(200)), "\"200\"");
}

#[test]
fn variable_name_by_position() {
    let contract = contract();
    let casper = CasperlabsContract::new(&contract);
    assert_eq!(casper.variable_name(0), Some("\"total\"".to_string()));
    assert_eq!(casper.variable_name(1), Some("runtime::get_caller()".to_string()));
    assert_eq!(casper.variable_name(2), Some("\"balances\"".to_string()));
    assert_eq!(casper.variable_name(3), None);
}

#[test]
fn storage_key_of_arithmetic_is_made_a_string() {
    assert_eq!(key(&Expression::Add(a(), Box::new(num(1)))), "&format!(\"{}\", (a + 1))");
    assert_eq!(key(&Expression::Multiply(a(), b())), "&format!(\"{}\", (a * b))");
    assert_eq!(key(&Expression::Subtract(a(), b())), "(a - b)");
    assert_eq!(key(&Expression::Variable(1)), "b");
}

#[test]
fn storage_load_reads_the_key() {
    let load = |k: Expression| Expression::StorageLoad(Type::Uint(64), Box::new(k));
    assert_eq!(e(&load(num(0))), "get_key::<u64>(\"total\")");
    assert_eq!(e(&load(num(2))), "get_key::<u64>(\"balances\")");
    assert_eq!(e(&load(num(1))), "runtime::get_caller()");
    assert_eq!(e(&load(num(9))), "get_key::<u64>(\"9\")");
    assert_eq!(e(&load(Expression::Variable(0))), "get_key::<u64>(a)");
    assert_eq!(
        e(&load(Expression::Add(a(), Box::new(num(1))))),
        "get_key::<u64>(&format!(\"{}\", (a + 1)))"
    );
    assert_eq!(
        e(&Expression::StorageLoad(Type::Enum(1), Box::new(num(0)))),
        "get_key::<unknown_type>(\"total\")"
    );
}

#[test]
fn hash_of_two_values_is_a_mapping_slot_and_of_one_the_slot_itself() {
    let pair = |x: Expression| (x, Type::Uint(256));
    assert_eq!(
        e(&Expression::Keccak256(vec![pair(num(2)), pair(Expression::FunctionArg(0))])),
        "&new_key(\"balances\", a)"
    );
    assert_eq!(
        e(&Expression::Keccak256(vec![pair(num(2)), pair(Expression::Add(a(), b()))])),
        "&new_key(\"balances\", (a + b))"
    );
    assert_eq!(e(&Expression::Keccak256(vec![pair(num(0))])), "\"total\"");
    assert_eq!(e(&Expression::Keccak256(vec![pair(Expression::Variable(1))])), "b");
}

#[test]
fn validity_of_expressions() {
    let cfg = cfg();
    let pair = |x: Expression| (x, Type::Uint(256));
    assert!(expression_is_valid(&Expression::Variable(2), &cfg));
    assert!(!expression_is_valid(&Expression::Variable(3), &cfg));
    assert!(!expression_is_valid(&Expression::FunctionArg(3), &cfg));
    assert!(!expression_is_valid(&Expression::Add(a(), Box::new(Expression::Variable(7))), &cfg));
    assert!(!expression_is_valid(&Expression::Not(Box::new(Expression::Variable(7))), &cfg));
    assert!(expression_is_valid(&Expression::Load(Box::new(Expression::Variable(7))), &cfg));
    assert!(!expression_is_valid(&Expression::Keccak256(vec![]), &cfg));
    assert!(expression_is_valid(&Expression::Keccak256(vec![pair(num(1))]), &cfg));
    assert!(expression_is_valid(&Expression::Keccak256(vec![pair(num(1)), pair(num(2))]), &cfg));
    assert!(!expression_is_valid(
        &Expression::Keccak256(vec![pair(num(1)), pair(num(2)), pair(num(3))]),
        &cfg
    ));
    assert!(!expression_is_valid(
        &Expression::ArrayLiteral(Type::Bool, vec![2, 0], vec![num(1)]),
        &cfg
    ));
    assert!(expression_is_valid(
        &Expression::ArrayLiteral(Type::Bool, vec![2, 1], vec![num(1)]),
        &cfg
    ));
    assert!(!expression_is_valid(
        &Expression::ArrayLiteral(Type::Bool, vec![2], vec![num(1), Expression::Variable(9)]),
        &cfg
    ));
    let negative = Expression::NumberLiteral(8, Number { bytes: vec![0xFF] });
    assert!(expression_is_valid(&negative, &cfg));
    assert!(!storage_key_is_valid(&negative, &cfg));
    assert!(storage_key_is_valid(&num(200), &cfg));
    assert!(!expression_is_valid(&Expression::StorageLoad(Type::Bool, Box::new(negative)), &cfg));
    assert!(!storage_key_is_valid(&Expression::Variable(3), &cfg));
}
