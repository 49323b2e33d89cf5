use solang_casperlabs::casperlabs::CasperlabsContract;
use solang_casperlabs::number::Number;
use solang_casperlabs::resolver::cfg::{BasicBlock, ControlFlowGraph, Identifier, Instr, Variable};
use solang_casperlabs::resolver::expression::Expression;
use solang_casperlabs::resolver::{Contract, ContractVariable, FunctionDecl, Parameter, Type};

fn var(name: &str, ty: Type) -> Variable {
    Variable { id: Identifier { name: name.to_string() }, ty }
}

fn block(name: &str, instr: Vec<Instr>) -> BasicBlock {
    BasicBlock { name: name.to_string(), instr }
}

fn number(bytes: Vec<u8>) -> Number {
    Number { bytes }
}

fn empty_contract() -> Contract {
    Contract { name: "Contract".to_string(), functions: vec![], variables: vec![] }
}

fn squeeze(text: &str) -> String {
    text.split_whitespace().collect::<Vec<&str>>().join(" ")
}

fn body(contract: &Contract, cfg: &ControlFlowGraph) -> String {
    CasperlabsContract::new(contract).render_function_cfg(cfg)
}

#[test]
fn not_negates_its_argument() {
    let cfg = ControlFlowGraph {
        vars: vec![var("a", Type::Bool), var("r", Type::Bool)],
        bb: vec![block(
            "entry",
            vec![Instr::SetLocal {
                res: 1,
                expr: Expression::Not(Box::new(Expression::FunctionArg(0))),
            }],
        )],
    };
    assert_eq!(body(&empty_contract(), &cfg), "let r: bool = !(a);");
}

#[test]
fn or_becomes_if_else_with_default_true() {
    let cfg = ControlFlowGraph {
        vars: vec![
            var("a", Type::Bool),
            var("b", Type::Bool),
            var("or.temp.2", Type::Bool),
            var("r", Type::Bool),
        ],
        bb: vec![
            block(
                "entry",
                vec![
                    Instr::SetLocal { res: 2, expr: Expression::BoolLiteral(true) },
                    Instr::BranchCond { cond: Expression::FunctionArg(0), true_: 1, false_: 2 },
                ],
            ),
            block("then", vec![Instr::SetLocal { res: 3, expr: Expression::Variable(2) }]),
            block(
                "else",
                vec![
                    Instr::SetLocal { res: 2, expr: Expression::Variable(1) },
                    Instr::SetLocal { res: 3, expr: Expression::Variable(2) },
                ],
            ),
            block("endif", vec![]),
        ],
    };
    let text = body(&empty_contract(), &cfg);
    assert_eq!(
        squeeze(&text),
        "let ortemp2: bool = true;if a { let r: bool = ortemp2; } else { let ortemp2: bool = b;let r: bool = ortemp2; }"
    );
    assert_eq!(
        text,
        "let ortemp2: bool = true;if a { let r: bool = ortemp2; } else { let ortemp2: bool = b;let r: bool = ortemp2; }"
    );
}

#[test]
fn and_becomes_if_else_with_default_false() {
    let cfg = ControlFlowGraph {
        vars: vec![
            var("a", Type::Bool),
            var("b", Type::Bool),
            var("and.temp.2", Type::Bool),
            var("r", Type::Bool),
        ],
        bb: vec![
            block(
                "entry",
                vec![
                    Instr::SetLocal { res: 2, expr: Expression::BoolLiteral(false) },
                    Instr::BranchCond { cond: Expression::FunctionArg(0), true_: 1, false_: 2 },
                ],
            ),
            block(
                "then",
                vec![
                    Instr::SetLocal { res: 2, expr: Expression::Variable(1) },
                    Instr::SetLocal { res: 3, expr: Expression::Variable(2) },
                ],
            ),
            block("else", vec![Instr::SetLocal { res: 3, expr: Expression::Variable(2) }]),
            block("endif", vec![]),
        ],
    };
    assert_eq!(
        body(&empty_contract(), &cfg),
        "let andtemp2: bool = false;if a { let andtemp2: bool = b;let r: bool = andtemp2; } else { let r: bool = andtemp2; }"
    );
}

#[test]
fn if_without_else_has_no_else_clause() {
    let cfg = ControlFlowGraph {
        vars: vec![var("a", Type::Bool)],
        bb: vec![
            block(
                "entry",
                vec![Instr::BranchCond { cond: Expression::FunctionArg(0), true_: 1, false_: 2 }],
            ),
            block(
                "then",
                vec![
                    Instr::SetLocal { res: 0, expr: Expression::BoolLiteral(false) },
                    Instr::Branch { bb: 2 },
                ],
            ),
            block("endif", vec![]),
        ],
    };
    let text = body(&empty_contract(), &cfg);
    assert_eq!(text, "if a { let a: bool = false; } ");
    assert!(!text.contains("else"));
}

#[test]
fn if_else_writes_both_branches() {
    let cfg = ControlFlowGraph {
        vars: vec![var("a", Type::Bool), var("r", Type::Bool)],
        bb: vec![
            block(
                "entry",
                vec![Instr::BranchCond { cond: Expression::FunctionArg(0), true_: 1, false_: 2 }],
            ),
            block(
                "then",
                vec![
                    Instr::SetLocal { res: 1, expr: Expression::BoolLiteral(false) },
                    Instr::Branch { bb: 3 },
                ],
            ),
            block(
                "else",
                vec![
                    Instr::SetLocal { res: 1, expr: Expression::BoolLiteral(true) },
                    Instr::Branch { bb: 3 },
                ],
            ),
            block("endif", vec![]),
        ],
    };
    assert_eq!(
        body(&empty_contract(), &cfg),
        "if a { let r: bool = false; } else { let r: bool = true; }"
    );
}

#[test]
fn mapping_load_reads_the_slot_of_the_key() {
    let contract = Contract {
        name: "Token".to_string(),
        functions: vec![],
        variables: vec![
            ContractVariable { name: "total".to_string(), ty: Type::Uint(256) },
            ContractVariable {
                name: "balances".to_string(),
                ty: Type::Mapping(Box::new(Type::Address(false)), Box::new(Type::Uint(256))),
            },
        ],
    };
    let cfg = ControlFlowGraph {
        vars: vec![var("owner", Type::Address(false)), var("x", Type::Uint(256))],
        bb: vec![block(
            "entry",
            vec![Instr::SetLocal {
                res: 1,
                expr: Expression::StorageLoad(
                    Type::Uint(256),
                    Box::new(Expression::Keccak256(vec![
                        (Expression::NumberLiteral(256, number(vec![1])), Type::Uint(256)),
                        (Expression::FunctionArg(0), Type::Address(false)),
                    ])),
                ),
            }],
        )],
    };
    assert_eq!(body(&contract, &cfg), "let x: U256 = get_key::<U256>(&new_key(\"balances\", owner));");
}

#[test]
fn whole_module_keeps_declared_order_and_skips_blacklisted() {
    let unit = |name: &str, signature: &str, is_constructor: bool, is_public: bool| FunctionDecl {
        name: name.to_string(),
        signature: signature.to_string(),
        params: vec![Parameter { name: "a".to_string(), ty: Type::Bool }],
        is_constructor,
        is_public,
        cfg: ControlFlowGraph { vars: vec![var("a", Type::Bool)], bb: vec![block("entry", vec![])] },
    };
    let contract = Contract {
        name: "Flags".to_string(),
        functions: vec![
            unit("first", "first(bool)", false, true),
            unit("assert", "assert(bool)", false, false),
            unit("second", "second(bool)", false, false),
            unit("Flags", "Flags(bool)", true, true),
        ],
        variables: vec![],
    };
    let casper = CasperlabsContract::new(&contract);
    let names: Vec<String> = casper.functions().iter().map(|f| f.name.clone()).collect();
    assert_eq!(names, vec!["first".to_string(), "second".to_string(), "Flags".to_string()]);
    let text = casper.render();
    let first = text.find("fn first(a: bool)").unwrap();
    let second = text.find("fn second(a: bool)").unwrap();
    let constructor = text.find("fn constructor(a: bool)").unwrap();
    assert!(first < second && second < constructor);
    assert!(!text.contains("fn assert(a: bool)"));
    assert!(text.contains("#[casperlabs_method]\n            fn first(a: bool) { \n            }"));
    assert!(text.contains("#[casperlabs_constructor]\n            fn constructor(a: bool)"));
    assert!(text.contains("\n            \n            fn second(a: bool)"));
    assert!(text.contains("mod Flags {"));
    assert!(text.starts_with("\n            #![no_main]\n"));
    assert_eq!(text, casper.render());
}
