use relieve::ast::{Definition, Expression, FunctionDefinition, LiteralValue, Program, Statement};
use relieve::parser::RelieveAstBuilder;
use relieve::tree::{forest_is_well_formed, ParseNode, Rule};
use relieve::types::{resolve_type_name, RelieveType};

fn leaf(rule: Rule, text: &str) -> ParseNode {
    ParseNode { rule, text: text.to_string(), children: Vec::new() }
}

fn node(rule: Rule, text: &str, children: Vec<ParseNode>) -> ParseNode {
    ParseNode { rule, text: text.to_string(), children }
}

fn literal(rule: Rule, text: &str) -> ParseNode {
    node(Rule::Expression, text, vec![node(Rule::Literal, text, vec![leaf(rule, text)])])
}

fn ident_expr(name: &str) -> ParseNode {
    node(Rule::Expression, name, vec![leaf(Rule::Identifier, name)])
}

fn call(name: &str, args: Vec<ParseNode>) -> ParseNode {
    let mut children = vec![leaf(Rule::Identifier, name)];
    if !args.is_empty() {
        children.push(node(Rule::ArgumentList, "", args));
    }
    node(Rule::FunctionCall, name, children)
}

fn call_statement(c: ParseNode) -> ParseNode {
    node(Rule::Statement, "", vec![node(Rule::Expression, "", vec![c])])
}

fn declaration(name: &str, ty: &str, init: ParseNode) -> ParseNode {
    node(
        Rule::Statement,
        "",
        vec![node(
            Rule::VariableDeclaration,
            "",
            vec![leaf(Rule::Identifier, name), leaf(Rule::TypeName, ty), init],
        )],
    )
}

fn parameter(ty: &str, name: &str) -> ParseNode {
    node(Rule::Parameter, "", vec![leaf(Rule::TypeName, ty), leaf(Rule::Identifier, name)])
}

fn function(name: &str, params: Option<Vec<ParseNode>>, ret: &str, body: Vec<ParseNode>) -> ParseNode {
    let mut children = vec![leaf(Rule::Identifier, name)];
    if let Some(ps) = params {
        children.push(node(Rule::ParameterList, "", ps));
    }
    children.push(leaf(Rule::TypeName, ret));
    children.push(node(Rule::Block, "", body));
    node(Rule::FunctionDefinition, "", children)
}

fn program(defs: Vec<ParseNode>) -> Vec<ParseNode> {
    let mut nodes = defs;
    nodes.push(leaf(Rule::Eoi, ""));
    nodes
}

fn build(nodes: &Vec<ParseNode>) -> Result<Program, String> {
    assert!(forest_is_well_formed(nodes));
    RelieveAstBuilder::new().parse_program(nodes)
}

fn only_function(p: &Program) -> &FunctionDefinition {
    assert_eq!(p.definitions.len(), 1);
    match &p.definitions[0] {
        Definition::Function(f) => f,
        #[allow(unreachable_patterns)]
        _ => panic!("not a function"),
    }
}

fn initializer_of(init: ParseNode) -> Result<Expression, String> {
    let nodes = program(vec![function("main", None, "Res", vec![declaration("v", "Int", init)])]);
    let p = build(&nodes)?;
    let f = only_function(&p);
    match &f.body.statements[0] {
        Statement::VariableDeclaration { initializer, .. } => Ok(match initializer {
            Expression::Literal(LiteralValue::String(s)) => Expression::Literal(LiteralValue::String(s.clone())),
            Expression::Literal(LiteralValue::Integer(i)) => Expression::Literal(LiteralValue::Integer(*i)),
            Expression::Literal(LiteralValue::Boolean(b)) => Expression::Literal(LiteralValue::Boolean(*b)),
            Expression::Identifier(s) => Expression::Identifier(s.clone()),
            Expression::FunctionCall(_) => panic!("unexpected call"),
        }),
        _ => panic!("not a declaration"),
    }
}

#[test]
fn single_function_matches_source() {
    let nodes = program(vec![function(
        "add",
        Some(vec![parameter("Int", "a"), parameter("Bool", "flag")]),
        "String",
        vec![call_statement(call("print", vec![ident_expr("a")]))],
    )]);
    let p = build(&nodes).unwrap();
    let f = only_function(&p);
    assert_eq!(f.name, "add");
    assert_eq!(f.parameters.len(), 2);
    assert_eq!(f.parameters[0].name, "a");
    assert_eq!(f.parameters[0].param_type, RelieveType::Integer);
    assert_eq!(f.parameters[1].name, "flag");
    assert_eq!(f.parameters[1].param_type, RelieveType::Boolean);
    assert_eq!(f.return_type, RelieveType::String);
    assert_eq!(f.body.statements.len(), 1);
}

#[test]
fn function_without_parameter_list() {
    let nodes = program(vec![function("main", None, "Res", vec![])]);
    let p = build(&nodes).unwrap();
    let f = only_function(&p);
    assert_eq!(f.name, "main");
    assert!(f.parameters.is_empty());
    assert_eq!(f.return_type, RelieveType::Unit);
    assert!(f.body.statements.is_empty());
}

#[test]
fn empty_parameter_list() {
    let nodes = program(vec![function("main", Some(vec![]), "Int", vec![])]);
    let p = build(&nodes).unwrap();
    let f = only_function(&p);
    assert!(f.parameters.is_empty());
    assert_eq!(f.return_type, RelieveType::Integer);
}

#[test]
fn end_of_input_alone_is_an_empty_program() {
    let p = build(&program(vec![])).unwrap();
    assert!(p.definitions.is_empty());
    let p = build(&Vec::new()).unwrap();
    assert!(p.definitions.is_empty());
}

#[test]
fn definitions_keep_source_order() {
    let nodes = program(vec![
        function("first", None, "Res", vec![]),
        function("second", None, "Int", vec![]),
    ]);
    let p = build(&nodes).unwrap();
    assert_eq!(p.definitions.len(), 2);
    let names: Vec<String> = p
        .definitions
        .iter()
        .map(|d| match d {
            Definition::Function(f) => f.name.clone(),
            #[allow(unreachable_patterns)]
            _ => String::new(),
        })
        .collect();
    assert_eq!(names, vec!["first".to_string(), "second".to_string()]);
}

#[test]
fn type_names_resolve() {
    assert_eq!(resolve_type_name("Int"), Ok(RelieveType::Integer));
    assert_eq!(resolve_type_name("String"), Ok(RelieveType::String));
    assert_eq!(resolve_type_name("Bool"), Ok(RelieveType::Boolean));
    assert_eq!(resolve_type_name("Res"), Ok(RelieveType::Unit));
    let b = RelieveAstBuilder::new();
    assert_eq!(b.parse_type_name("Int"), Ok(RelieveType::Integer));
    assert_eq!(b.parse_type_name("Res"), Ok(RelieveType::Unit));
}

#[test]
fn other_type_names_are_unknown() {
    assert_eq!(resolve_type_name("int"), Err("Unknown type: int".to_string()));
    assert_eq!(resolve_type_name("Float"), Err("Unknown type: Float".to_string()));
    assert_eq!(resolve_type_name(""), Err("Unknown type: ".to_string()));
    assert_eq!(resolve_type_name("Int "), Err("Unknown type: Int ".to_string()));
    assert_eq!(RelieveAstBuilder::new().parse_type_name("Unit"), Err("Unknown type: Unit".to_string()));
}

#[test]
fn unknown_return_type_is_an_error() {
    let nodes = program(vec![function("main", None, "Void", vec![])]);
    assert_eq!(build(&nodes).unwrap_err(), "Unknown type: Void");
}

#[test]
fn unknown_parameter_type_is_an_error() {
    let nodes = program(vec![function("main", Some(vec![parameter("Text", "s")]), "Res", vec![])]);
    assert_eq!(build(&nodes).unwrap_err(), "Unknown type: Text");
}

#[test]
fn string_literal_strips_quotes() {
    match initializer_of(literal(Rule::StringLiteral, "\"hello\"")).unwrap() {
        Expression::Literal(LiteralValue::String(s)) => assert_eq!(s, "hello"),
        _ => panic!("not a string"),
    }
}

#[test]
fn string_literal_keeps_escapes() {
    match initializer_of(literal(Rule::StringLiteral, "\"a\\nb\"")).unwrap() {
        Expression::Literal(LiteralValue::String(s)) => assert_eq!(s, "a\\nb"),
        _ => panic!("not a string"),
    }
    match initializer_of(literal(Rule::StringLiteral, "\"\"")).unwrap() {
        Expression::Literal(LiteralValue::String(s)) => assert_eq!(s, ""),
        _ => panic!("not a string"),
    }
}

#[test]
fn integer_literal_builds() {
    match initializer_of(literal(Rule::IntegerLiteral, "42")).unwrap() {
        Expression::Literal(LiteralValue::Integer(i)) => assert_eq!(i, 42),
        _ => panic!("not an integer"),
    }
    match initializer_of(literal(Rule::IntegerLiteral, "-9223372036854775808")).unwrap() {
        Expression::Literal(LiteralValue::Integer(i)) => assert_eq!(i, i64::MIN),
        _ => panic!("not an integer"),
    }
}

#[test]
fn integer_literal_overflow_is_an_error() {
    let e = initializer_of(literal(Rule::IntegerLiteral, "99999999999999999999")).unwrap_err();
    assert_eq!(e, "Invalid integer literal: 99999999999999999999");
    let e = initializer_of(literal(Rule::IntegerLiteral, "9223372036854775808")).unwrap_err();
    assert_eq!(e, "Invalid integer literal: 9223372036854775808");
}

#[test]
fn boolean_literal_true_and_fallback() {
    match initializer_of(literal(Rule::BooleanLiteral, "true")).unwrap() {
        Expression::Literal(LiteralValue::Boolean(b)) => assert!(b),
        _ => panic!("not a boolean"),
    }
    match initializer_of(literal(Rule::BooleanLiteral, "false")).unwrap() {
        Expression::Literal(LiteralValue::Boolean(b)) => assert!(!b),
        _ => panic!("not a boolean"),
    }
    match initializer_of(literal(Rule::BooleanLiteral, "TRUE")).unwrap() {
        Expression::Literal(LiteralValue::Boolean(b)) => assert!(!b),
        _ => panic!("not a boolean"),
    }
}

#[test]
fn unsupported_literal_is_an_error() {
    let e = initializer_of(literal(Rule::Identifier, "x")).unwrap_err();
    assert_eq!(e, "Unsupported literal: identifier");
}

#[test]
fn identifier_initializer() {
    match initializer_of(ident_expr("other")).unwrap() {
        Expression::Identifier(s) => assert_eq!(s, "other"),
        _ => panic!("not an identifier"),
    }
}

#[test]
fn unsupported_expression_is_an_error() {
    let e = initializer_of(node(Rule::Expression, "", vec![leaf(Rule::Block, "{}")])).unwrap_err();
    assert_eq!(e, "Unsupported expression: block");
}

#[test]
fn declaration_records_type_and_immutability() {
    let nodes = program(vec![function("main", None, "Res", vec![declaration("v", "Bool", literal(Rule::BooleanLiteral, "true"))])]);
    let p = build(&nodes).unwrap();
    let f = only_function(&p);
    match &f.body.statements[0] {
        Statement::VariableDeclaration { name, is_mutable, type_hint, .. } => {
            assert_eq!(name, "v");
            assert!(!is_mutable);
            assert_eq!(*type_hint, Some(RelieveType::Boolean));
        }
        _ => panic!("not a declaration"),
    }
}

#[test]
fn declaration_with_unknown_type_is_an_error() {
    let nodes = program(vec![function("main", None, "Res", vec![declaration("v", "Float", literal(Rule::IntegerLiteral, "1"))])]);
    assert_eq!(build(&nodes).unwrap_err(), "Unknown type: Float");
}

#[test]
fn nested_call_arguments() {
    let inner = node(Rule::Expression, "", vec![call("len", vec![literal(Rule::StringLiteral, "\"ab\"")])]);
    let nodes = program(vec![function(
        "main",
        None,
        "Res",
        vec![call_statement(call("print", vec![inner, literal(Rule::IntegerLiteral, "7"), ident_expr("x")]))],
    )]);
    let p = build(&nodes).unwrap();
    let f = only_function(&p);
    match &f.body.statements[0] {
        Statement::FunctionCall(c) => {
            assert_eq!(c.name, "print");
            assert_eq!(c.arguments.len(), 3);
            match &c.arguments[0] {
                Expression::FunctionCall(i) => {
                    assert_eq!(i.name, "len");
                    assert_eq!(i.arguments.len(), 1);
                    assert!(matches!(&i.arguments[0], Expression::Literal(LiteralValue::String(s)) if s == "ab"));
                }
                _ => panic!("not a call"),
            }
            assert!(matches!(c.arguments[1], Expression::Literal(LiteralValue::Integer(7))));
            assert!(matches!(&c.arguments[2], Expression::Identifier(s) if s == "x"));
        }
        _ => panic!("not a call statement"),
    }
}

#[test]
fn error_in_argument_fails_the_build() {
    let nodes = program(vec![function(
        "main",
        None,
        "Res",
        vec![call_statement(call("print", vec![literal(Rule::IntegerLiteral, "1"), literal(Rule::IntegerLiteral, "x1")]))],
    )]);
    assert_eq!(build(&nodes).unwrap_err(), "Invalid integer literal: x1");
}

#[test]
fn bare_identifier_statement_is_rejected() {
    let stmt = node(Rule::Statement, "", vec![ident_expr("x")]);
    let nodes = program(vec![function(
        "main",
        None,
        "Res",
        vec![call_statement(call("print", vec![])), stmt],
    )]);
    assert_eq!(build(&nodes).unwrap_err(), "Unsupported statement expression: identifier");
}

#[test]
fn unsupported_statement_is_rejected() {
    let stmt = node(Rule::Statement, "", vec![leaf(Rule::Identifier, "x")]);
    let nodes = program(vec![function("main", None, "Res", vec![stmt])]);
    assert_eq!(build(&nodes).unwrap_err(), "Unsupported statement: identifier");
}

#[test]
fn first_error_wins() {
    let bad1 = node(Rule::Statement, "", vec![ident_expr("x")]);
    let bad2 = declaration("v", "Nope", literal(Rule::IntegerLiteral, "1"));
    let nodes = program(vec![function("main", None, "Res", vec![bad1, bad2])]);
    assert_eq!(build(&nodes).unwrap_err(), "Unsupported statement expression: identifier");
}

#[test]
fn unexpected_top_level_rule_is_an_error() {
    let nodes = vec![function("main", None, "Res", vec![]), leaf(Rule::Block, "{}"), leaf(Rule::Eoi, "")];
    assert_eq!(build(&nodes).unwrap_err(), "Unexpected rule at top level: block");
}

#[test]
fn malformed_trees_are_detected() {
    let short = vec![node(Rule::FunctionDefinition, "", vec![leaf(Rule::Identifier, "f")])];
    assert!(!forest_is_well_formed(&short));
    let bare_expression = vec![function("main", None, "Res", vec![call_statement(call("f", vec![leaf(Rule::Identifier, "x")]))])];
    assert!(!forest_is_well_formed(&bare_expression));
    let good = program(vec![function("main", None, "Res", vec![])]);
    assert!(forest_is_well_formed(&good));
    assert!(good[0].is_well_formed());
}

#[test]
fn rule_names() {
    assert_eq!(Rule::Eoi.name(), "EOI");
    assert_eq!(Rule::FunctionDefinition.name(), "function_definition");
    assert_eq!(Rule::BooleanLiteral.name(), "boolean_literal");
}

#[test]
fn independent_builds_agree() {
    let a = program(vec![function("a", Some(vec![parameter("Int", "n")]), "Int", vec![declaration("s", "String", literal(Rule::StringLiteral, "\"x\""))])]);
    let b = program(vec![function("b", None, "Bool", vec![call_statement(call("go", vec![literal(Rule::BooleanLiteral, "true")]))])]);
    let first = (format!("{:?}", build(&a)), format!("{:?}", build(&b)));
    let builder_a = RelieveAstBuilder::new();
    let builder_b = RelieveAstBuilder::new();
    let second = (format!("{:?}", builder_b.parse_program(&b)), format!("{:?}", builder_a.parse_program(&a)));
    assert_eq!(first.0, second.1);
    assert_eq!(first.1, second.0);
}
