use rust_cc::ast::{
    BinaryOp, Declaration, Expression, Function, Number, Program, Statement, Type, UnaryOp,
};
use rust_cc::checker::check_program;
use rust_cc::interpreter::run_program;
use rust_cc::lexer::lex;
use rust_cc::parser::{parse, parse_expr, parse_expr_str, parse_str};

fn ty(base: &str, modifiers: &[&str], pointer_levels: usize) -> Type {
    Type {
        base_name: base.to_string(),
        modifiers: modifiers.iter().map(|m| m.to_string()).collect(),
        length: None,
        pointer_levels,
    }
}

fn num(i: i64) -> Box<Expression> {
    Box::new(Expression::Number(Number::Int(i)))
}

fn var(name: &str) -> Box<Expression> {
    Box::new(Expression::Variable(name.to_string()))
}

#[test]
fn empty_program() {
    let program = parse(vec![]).unwrap();
    assert_eq!(program, Program { globals: vec![], functions: vec![] });
}

#[test]
fn constant_declaration() {
    let program = parse_str("const int a;").unwrap();
    assert_eq!(
        program,
        Program {
            globals: vec![Declaration {
                name: "a".to_string(),
                _type: Type {
                    base_name: "int".to_string(),
                    modifiers: vec!["const".to_string()],
                    length: None,
                    pointer_levels: 0,
                },
            }],
            functions: vec![],
        }
    );
}

#[test]
fn pointer_pointer() {
    let program = parse_str("unsigned short **pointer;").unwrap();
    assert_eq!(
        program,
        Program {
            globals: vec![Declaration {
                name: "pointer".to_string(),
                _type: Type {
                    base_name: "short".to_string(),
                    modifiers: vec!["unsigned".to_string()],
                    length: None,
                    pointer_levels: 2,
                },
            }],
            functions: vec![],
        }
    );
}

#[test]
fn void_function() {
    let program = parse_str(
        r##"
                         void hello() {}
                         "##,
    )
    .unwrap();

    assert_eq!(
        program,
        Program {
            globals: vec![],
            functions: vec![Function {
                name: "hello".to_string(),
                return_type: Type {
                    base_name: "void".to_string(),
                    modifiers: vec![],
                    length: None,
                    pointer_levels: 0,
                },
                arguments: vec![],
                statements: vec![],
            }],
        }
    );
}

#[test]
fn empty_function_call() {
    let expr = parse_expr_str("hello()").unwrap();
    assert_eq!(expr, Expression::FunctionCall { name: "hello".to_string(), args: vec![] });
}

#[test]
fn function_call_with_parameters() {
    let expr = parse_expr_str(r##"concatenate_these_strings("alpha", "beta", "charlie", "delta")"##)
        .unwrap();
    assert_eq!(
        expr,
        Expression::FunctionCall {
            name: "concatenate_these_strings".to_string(),
            args: vec![
                Expression::String("alpha".to_string()),
                Expression::String("beta".to_string()),
                Expression::String("charlie".to_string()),
                Expression::String("delta".to_string()),
            ],
        }
    );
}

#[test]
fn operator_precedence() {
    let expr = parse_expr_str("1 - 2 * 3 + 4").unwrap();
    assert_eq!(
        expr,
        Expression::BinaryOp(
            num(1),
            BinaryOp::Subtract,
            Box::new(Expression::BinaryOp(
                Box::new(Expression::BinaryOp(num(2), BinaryOp::Multiply, num(3))),
                BinaryOp::Add,
                num(4),
            )),
        )
    );
}

#[test]
fn function_definition() {
    let program = parse_str(
        r##"
                         inline const void get_num_cores(int *a) {
                            -10;
                         }
                         "##,
    )
    .unwrap();

    assert_eq!(
        program,
        Program {
            globals: vec![],
            functions: vec![Function {
                name: "get_num_cores".to_string(),
                return_type: Type {
                    base_name: "void".to_string(),
                    modifiers: vec!["inline".to_string(), "const".to_string()],
                    length: None,
                    pointer_levels: 0,
                },
                arguments: vec![Declaration {
                    name: "a".to_string(),
                    _type: Type {
                        base_name: "int".to_string(),
                        modifiers: vec![],
                        length: None,
                        pointer_levels: 1,
                    },
                }],
                statements: vec![Statement::Expression(Expression::UnaryOp(
                    UnaryOp::Negate,
                    num(10),
                ))],
            }],
        }
    );
}

#[test]
fn parse_of_lexed_tokens() {
    let program = parse(lex("const int a;").unwrap()).unwrap();
    assert_eq!(program.globals.len(), 1);
    assert_eq!(program.globals[0]._type, ty("int", &["const"], 0));
    let expr = parse_expr(lex("1 - 2 * 3 + 4").unwrap()).unwrap();
    assert_eq!(expr, parse_expr_str("1 - 2 * 3 + 4").unwrap());
}

#[test]
fn same_tier_is_right_leaning() {
    assert_eq!(
        parse_expr_str("1 * 2 / 3").unwrap(),
        Expression::BinaryOp(
            num(1),
            BinaryOp::Multiply,
            Box::new(Expression::BinaryOp(num(2), BinaryOp::Divide, num(3))),
        )
    );
    assert_eq!(
        parse_expr_str("a - b - c").unwrap(),
        Expression::BinaryOp(
            var("a"),
            BinaryOp::Subtract,
            Box::new(Expression::BinaryOp(var("b"), BinaryOp::Subtract, var("c"))),
        )
    );
}

#[test]
fn unary_operators() {
    assert_eq!(
        parse_expr_str("*p").unwrap(),
        Expression::UnaryOp(UnaryOp::Dereference, var("p"))
    );
    assert_eq!(
        parse_expr_str("+x * -y").unwrap(),
        Expression::BinaryOp(
            Box::new(Expression::UnaryOp(UnaryOp::DontNegate, var("x"))),
            BinaryOp::Multiply,
            Box::new(Expression::UnaryOp(UnaryOp::Negate, var("y"))),
        )
    );
    assert!(parse_expr_str("/x").is_err());
}

#[test]
fn nested_calls() {
    assert_eq!(
        parse_expr_str("f(g(1), x + 2)").unwrap(),
        Expression::FunctionCall {
            name: "f".to_string(),
            args: vec![
                Expression::FunctionCall {
                    name: "g".to_string(),
                    args: vec![Expression::Number(Number::Int(1))],
                },
                Expression::BinaryOp(var("x"), BinaryOp::Add, num(2)),
            ],
        }
    );
    assert!(parse_expr_str("f(1, 2").is_err());
    assert!(parse_expr_str("f(1 2)").is_err());
}

#[test]
fn expression_errors() {
    assert!(parse_expr_str("").is_err());
    assert!(parse_expr_str("a % b").is_err());
    assert!(parse_expr_str("a = b").is_err());
    assert!(parse_expr_str("1 +").is_err());
    assert!(parse_expr_str("a b").is_err());
}

#[test]
fn declaration_errors() {
    assert!(parse_str("int;").is_err());
    assert!(parse_str("int a").is_err());
    assert!(parse_str("int a = 5;").is_err());
    assert!(parse_str("int * ;").is_err());
    assert!(parse_str("5;").is_err());
    assert!(parse_str(";").is_err());
}

#[test]
fn function_errors() {
    assert!(parse_str("void f() { 1;").is_err());
    assert!(parse_str("void f(").is_err());
    assert!(parse_str("void f(int a;").is_err());
    assert!(parse_str("void f() 1").is_err());
    assert!(parse_str("void f()").is_err());
}

#[test]
fn functions_and_globals() {
    let program =
        parse_str("long x; int add(int a, const char **b) { a + b; f(); } void g() 1;").unwrap();
    assert_eq!(
        program.globals,
        vec![Declaration { name: "x".to_string(), _type: ty("long", &[], 0) }]
    );
    assert_eq!(program.functions.len(), 2);
    let add = &program.functions[0];
    assert_eq!(add.name, "add");
    assert_eq!(add.return_type, ty("int", &[], 0));
    assert_eq!(
        add.arguments,
        vec![
            Declaration { name: "a".to_string(), _type: ty("int", &[], 0) },
            Declaration { name: "b".to_string(), _type: ty("char", &["const"], 2) },
        ]
    );
    assert_eq!(
        add.statements,
        vec![
            Statement::Expression(Expression::BinaryOp(var("a"), BinaryOp::Add, var("b"))),
            Statement::Expression(Expression::FunctionCall { name: "f".to_string(), args: vec![] }),
        ]
    );
    let g = &program.functions[1];
    assert_eq!(g.statements, vec![Statement::Expression(Expression::Number(Number::Int(1)))]);
}

#[test]
fn run_needs_main() {
    let with_main = parse_str("int main() {}").unwrap();
    assert!(check_program(&with_main).is_ok());
    assert!(run_program(&with_main).is_ok());
    let without = parse_str("int mainly() {} int x;").unwrap();
    assert!(check_program(&without).is_ok());
    assert!(run_program(&without).is_err());
}
