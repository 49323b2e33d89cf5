use solang_casperlabs::casperlabs::diagnostics::{
    cfg_unhandled_name, expression_is_known, function_is_known, instr_is_known, type_is_known,
    unhandled_instr_name,
};
use solang_casperlabs::casperlabs::CasperlabsContract;
use solang_casperlabs::number::Number;
use solang_casperlabs::resolver::cfg::{
    BasicBlock, ControlFlowGraph, HashTy, Identifier, Instr, Variable,
};
use solang_casperlabs::resolver::expression::Expression;
use solang_casperlabs::resolver::{Contract, FunctionDecl, Parameter, Type};

fn num(n: u8) -> Expression {
    Expression::NumberLiteral(64, Number { bytes: vec![0, n] })
}

fn boxed(e: Expression) -> Box<Expression> {
    Box::new(e)
}

fn block(name: &str, instr: Vec<Instr>) -> BasicBlock {
    BasicBlock { name: name.to_string(), instr }
}

fn graph(bb: Vec<BasicBlock>) -> ControlFlowGraph {
    ControlFlowGraph {
        vars: vec![
            Variable { id: Identifier { name: "a".to_string() }, ty: Type::Bool },
            Variable { id: Identifier { name: "s".to_string() }, ty: Type::Struct(0) },
        ],
        bb,
    }
}

fn function(signature: &str, params: Vec<Parameter>, cfg: ControlFlowGraph) -> FunctionDecl {
    FunctionDecl {
        name: "f".to_string(),
        signature: signature.to_string(),
        params,
        is_constructor: false,
        is_public: true,
        cfg,
    }
}

fn contract(functions: Vec<FunctionDecl>) -> Contract {
    Contract { name: "C".to_string(), functions, variables: vec![] }
}

fn unhandled() -> Vec<(Instr, &'static str)> {
    vec![
        (Instr::ClearStorage { ty: Type::Bool, storage: num(0) }, "ClearStorage"),
        (
            Instr::SetStorageBytes { local: 0, storage: boxed(num(0)), offset: boxed(num(0)) },
            "SetStorageBytes",
        ),
        (Instr::Constant { res: 0, constant: 0 }, "Constant"),
        (Instr::Print { expr: num(0) }, "Print"),
        (
            Instr::Constructor {
                success: None,
                res: 0,
                contract_no: 0,
                constructor_no: 0,
                args: vec![],
                value: None,
                gas: num(0),
                salt: None,
            },
            "Constructor",
        ),
        (
            Instr::ExternalCall {
                success: None,
                address: num(0),
                contract_no: None,
                function_no: 0,
                args: vec![],
                value: num(0),
                gas: num(0),
            },
            "ExternalCall",
        ),
        (
            Instr::AbiDecode { res: vec![], selector: None, exception: None, tys: vec![], data: num(0) },
            "AbiDecode",
        ),
        (Instr::SelfDestruct { recipient: num(0) }, "SelfDestruct"),
        (Instr::Hash { res: 0, hash: HashTy::Sha256, expr: num(0) }, "Hash"),
    ]
}

#[test]
fn each_instruction_without_counterpart_has_its_name() {
    let all = unhandled();
    assert_eq!(all.len(), 9);
    for (instr, name) in &all {
        assert_eq!(unhandled_instr_name(instr), Some(name.to_string()));
    }
}

#[test]
fn instructions_with_counterpart_have_no_such_name() {
    let handled = vec![
        Instr::Eval { expr: num(0) },
        Instr::Return { value: vec![] },
        Instr::SetStorage { ty: Type::Bool, local: 0, storage: num(0) },
        Instr::SetLocal { res: 0, expr: num(0) },
        Instr::Call { res: vec![], func: 0, args: vec![] },
        Instr::Branch { bb: 0 },
        Instr::BranchCond { cond: num(0), true_: 0, false_: 0 },
        Instr::Store { dest: num(0), pos: 0 },
        Instr::AssertFailure { expr: None },
        Instr::Unreachable,
    ];
    for instr in &handled {
        assert_eq!(unhandled_instr_name(instr), None);
    }
}

#[test]
fn first_unhandled_goes_by_blocks_then_instructions() {
    let print = || Instr::Print { expr: num(0) };
    let hash = || Instr::Hash { res: 0, hash: HashTy::Keccak256, expr: num(0) };
    let fine = || Instr::SetLocal { res: 0, expr: num(0) };
    assert_eq!(cfg_unhandled_name(&graph(vec![])), None);
    assert_eq!(cfg_unhandled_name(&graph(vec![block("entry", vec![fine(), fine()])])), None);
    assert_eq!(
        cfg_unhandled_name(&graph(vec![block("entry", vec![fine(), hash(), print()])])),
        Some("Hash".to_string())
    );
    assert_eq!(
        cfg_unhandled_name(&graph(vec![
            block("entry", vec![fine()]),
            block("a", vec![]),
            block("b", vec![fine(), print()]),
            block("c", vec![hash()]),
        ])),
        Some("Print".to_string())
    );
}

#[test]
fn first_unhandled_skips_functions_that_are_not_written() {
    let with = |signature: &str, instr: Instr| {
        function(signature, vec![], graph(vec![block("entry", vec![instr])]))
    };
    let print = || Instr::Print { expr: num(0) };
    let hash = || Instr::Hash { res: 0, hash: HashTy::Keccak256, expr: num(0) };
    let fine = || Instr::SetLocal { res: 0, expr: num(0) };
    let c = contract(vec![with("a()", fine()), with("print(string)", print()), with("b()", fine())]);
    let casper = CasperlabsContract::new(&c);
    assert_eq!(casper.first_unhandled(), None);
    assert!(casper.can_render());
    let c = contract(vec![
        with("a()", fine()),
        with("print(string)", print()),
        with("b()", hash()),
        with("c()", print()),
    ]);
    let casper = CasperlabsContract::new(&c);
    assert_eq!(casper.first_unhandled(), Some("Hash".to_string()));
    assert!(!casper.can_render());
    assert_eq!(casper.try_render(), None);
    assert_eq!(CasperlabsContract::new(&contract(vec![])).first_unhandled(), None);
}

#[test]
fn known_and_unknown_types() {
    for ty in [
        Type::Bool,
        Type::String,
        Type::Uint(8),
        Type::Uint(256),
        Type::Int(128),
        Type::Address(false),
        Type::Bytes(3),
        Type::Ref(Box::new(Type::Uint(64))),
        Type::StorageRef(Box::new(Type::Bool)),
        Type::Array(Box::new(Type::Int(8)), vec![None]),
    ] {
        assert!(type_is_known(&ty), "{:?}", ty);
    }
    for ty in [
        Type::Uint(7),
        Type::Int(256),
        Type::Address(true),
        Type::DynamicBytes,
        Type::Enum(0),
        Type::Struct(0),
        Type::Contract(0),
        Type::Undef,
        Type::Mapping(Box::new(Type::Bool), Box::new(Type::Bool)),
        Type::Ref(Box::new(Type::Undef)),
        Type::Array(Box::new(Type::StorageRef(Box::new(Type::Enum(1)))), vec![None]),
    ] {
        assert!(!type_is_known(&ty), "{:?}", ty);
    }
}

#[test]
fn unknown_type_is_where_the_placeholder_is_written() {
    let c = contract(vec![]);
    let casper = CasperlabsContract::new(&c);
    for ty in [
        Type::Bool,
        Type::Uint(7),
        Type::Undef,
        Type::Array(Box::new(Type::Enum(1)), vec![None]),
        Type::Array(Box::new(Type::Uint(8)), vec![None]),
        Type::Ref(Box::new(Type::Int(64))),
        Type::Ref(Box::new(Type::Int(65))),
    ] {
        assert_eq!(type_is_known(&ty), !casper.render_type(&ty).contains("unknown_type"));
    }
}

#[test]
fn known_and_unknown_expressions() {
    let a = || boxed(Expression::FunctionArg(0));
    assert!(expression_is_known(&num(1)));
    assert!(expression_is_known(&Expression::Variable(99)));
    assert!(expression_is_known(&Expression::Add(a(), boxed(num(1)))));
    assert!(expression_is_known(&Expression::Ternary(a(), a(), a())));
    assert!(expression_is_known(&Expression::StorageLoad(Type::Bool, boxed(num(0)))));
    assert!(expression_is_known(&Expression::ZeroExt(Type::Undef, a())));
    assert!(expression_is_known(&Expression::ArrayLiteral(Type::Undef, vec![1], vec![num(1)])));
    assert!(expression_is_known(&Expression::Keccak256(vec![])));
    assert!(!expression_is_known(&Expression::Poison));
    assert!(!expression_is_known(&Expression::Or(a(), a())));
    assert!(!expression_is_known(&Expression::AllocDynamicArray(Type::Bool, a(), Some(vec![]))));
    assert!(!expression_is_known(&Expression::AllocDynamicArray(Type::Bool, a(), None)));
    assert!(!expression_is_known(&Expression::Add(a(), boxed(Expression::Poison))));
    assert!(!expression_is_known(&Expression::Not(boxed(Expression::Complement(a())))));
    assert!(!expression_is_known(&Expression::Ternary(a(), a(), boxed(Expression::ReturnData))));
    assert!(!expression_is_known(&Expression::StorageLoad(Type::Undef, boxed(num(0)))));
    assert!(!expression_is_known(&Expression::StorageLoad(Type::Bool, boxed(Expression::Poison))));
    assert!(!expression_is_known(&Expression::ArrayLiteral(
        Type::Bool,
        vec![1],
        vec![num(1), Expression::Poison]
    )));
    assert!(!expression_is_known(&Expression::Keccak256(vec![
        (num(0), Type::Bool),
        (Expression::Poison, Type::Bool)
    ])));
    assert!(!expression_is_known(&Expression::Keccak256(vec![(Expression::Poison, Type::Bool)])));
}

#[test]
fn known_and_unknown_instructions() {
    let cfg = graph(vec![]);
    assert!(instr_is_known(&Instr::SetLocal { res: 0, expr: num(1) }, &cfg));
    assert!(!instr_is_known(&Instr::SetLocal { res: 1, expr: num(1) }, &cfg));
    assert!(!instr_is_known(&Instr::SetLocal { res: 0, expr: Expression::Poison }, &cfg));
    assert!(instr_is_known(&Instr::Eval { expr: Expression::Poison }, &cfg));
    assert!(instr_is_known(&Instr::Return { value: vec![] }, &cfg));
    assert!(instr_is_known(&Instr::Return { value: vec![num(1), Expression::Poison] }, &cfg));
    assert!(!instr_is_known(&Instr::Return { value: vec![Expression::Poison] }, &cfg));
    assert!(!instr_is_known(
        &Instr::Call { res: vec![], func: 0, args: vec![num(1), Expression::Poison] },
        &cfg
    ));
    assert!(!instr_is_known(
        &Instr::BranchCond { cond: Expression::Poison, true_: 0, false_: 0 },
        &cfg
    ));
    assert!(!instr_is_known(&Instr::Store { dest: Expression::Poison, pos: 0 }, &cfg));
    assert!(!instr_is_known(
        &Instr::SetStorage { ty: Type::Bool, local: 0, storage: Expression::Poison },
        &cfg
    ));
    assert!(instr_is_known(&Instr::Print { expr: Expression::Poison }, &cfg));
}

#[test]
fn contract_with_a_placeholder_is_written_and_reported() {
    let plain = function(
        "plain(bool)",
        vec![Parameter { name: "a".to_string(), ty: Type::Bool }],
        graph(vec![block("entry", vec![Instr::SetLocal { res: 0, expr: num(1) }])]),
    );
    let odd_type = function(
        "odd(uint24)",
        vec![Parameter { name: "x".to_string(), ty: Type::Uint(24) }],
        graph(vec![block("entry", vec![])]),
    );
    let odd_expression = function(
        "shift()",
        vec![],
        graph(vec![
            block("entry", vec![]),
            block(
                "later",
                vec![Instr::Return {
                    value: vec![Expression::ShiftLeft(boxed(num(1)), boxed(num(2)))],
                }],
            ),
        ]),
    );
    assert!(function_is_known(&plain));
    assert!(!function_is_known(&odd_type));
    assert!(!function_is_known(&odd_expression));

    let c = contract(vec![plain]);
    let casper = CasperlabsContract::new(&c);
    assert!(casper.names_only_known());
    assert!(!casper.render_functions().contains("unknown_"));

    let c = contract(vec![odd_type]);
    let casper = CasperlabsContract::new(&c);
    assert!(!casper.names_only_known());
    assert!(casper.can_render());
    assert!(casper.render_functions().contains("fn f(x: unknown_type)"));

    let mut hidden = function("assert(bool)", vec![], graph(vec![block("entry", vec![])]));
    hidden.params.push(Parameter { name: "x".to_string(), ty: Type::Undef });
    let c = contract(vec![hidden]);
    assert!(CasperlabsContract::new(&c).names_only_known());
    assert!(CasperlabsContract::new(&contract(vec![])).names_only_known());
}
