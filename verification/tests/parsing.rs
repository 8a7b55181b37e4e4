use minilang::lexer::{Lexer, Operator};
use minilang::parser::{ElifArm, Expr, LetValue, ParseNode, Parser};
use minilang::transpile::Transpiler;
use minilang::utils::get_sexp;

fn parse_src(src: &str) -> (Result<Vec<ParseNode>, String>, Vec<minilang::parser::Warning>) {
    let lexer = Lexer::new(src.chars().collect());
    let (tokens, _) = lexer.lex().expect("lexing should succeed");
    let mut parser = Parser::new(tokens);
    let r = parser.parse();
    (r, parser.warnings)
}

fn parse_ok(src: &str) -> Vec<ParseNode> {
    parse_src(src).0.expect("parse should succeed")
}

fn parse_err(src: &str) -> String {
    parse_src(src).0.expect_err("parse should fail")
}

fn num(d: &str) -> Expr {
    Expr::Number(d.to_string())
}

fn ident(n: &str) -> Expr {
    Expr::Identifier(n.to_string())
}

fn bin(op: Operator, l: Expr, r: Expr) -> Expr {
    Expr::Binary(op, Box::new(l), Box::new(r))
}

#[test]
fn parse_precedence_multiplication_binds_tighter() {
    let nodes = parse_ok("let x = 1 + 2 * 3");
    assert_eq!(
        nodes,
        vec![ParseNode::Let {
            name: "x".to_string(),
            value: LetValue::Expr(bin(
                Operator::Plus,
                num("1"),
                bin(Operator::Multiply, num("2"), num("3")),
            )),
        }]
    );
}

#[test]
fn parse_left_associativity_of_subtraction() {
    let nodes = parse_ok("let x = 1 - 2 - 3");
    assert_eq!(
        nodes,
        vec![ParseNode::Let {
            name: "x".to_string(),
            value: LetValue::Expr(bin(
                Operator::Minus,
                bin(Operator::Minus, num("1"), num("2")),
                num("3"),
            )),
        }]
    );
}

#[test]
fn parse_comparison_chain_shape() {
    // + binds tighter than <
    let nodes = parse_ok("let x = 1 + 2 < 3 + 4");
    assert_eq!(
        nodes,
        vec![ParseNode::Let {
            name: "x".to_string(),
            value: LetValue::Expr(bin(
                Operator::LessThan,
                bin(Operator::Plus, num("1"), num("2")),
                bin(Operator::Plus, num("3"), num("4")),
            )),
        }]
    );
}

#[test]
fn parse_unary_minus_absorbs_following_operators() {
    // prefix binds at strength 5, looser than every infix strength
    let nodes = parse_ok("let x = -2 * 3");
    assert_eq!(
        nodes,
        vec![ParseNode::Let {
            name: "x".to_string(),
            value: LetValue::Expr(Expr::Unary(
                Operator::Minus,
                Box::new(bin(Operator::Multiply, num("2"), num("3"))),
            )),
        }]
    );
}

#[test]
fn parse_let_string_literal() {
    let nodes = parse_ok("let s = \"hi\"");
    assert_eq!(
        nodes,
        vec![ParseNode::Let {
            name: "s".to_string(),
            value: LetValue::Str("hi".to_string()),
        }]
    );
}

#[test]
fn parse_self_reference_in_initializer_is_allowed() {
    // the declared name enters the scope before the initializer is parsed
    let (r, warnings) = parse_src("let x = x");
    assert!(r.is_ok());
    assert!(warnings.is_empty());
}

#[test]
fn parse_scope_declaration_does_not_leak_out_of_block() {
    let (r, warnings) = parse_src("if (1 < 2) { let x = 1 } print(x)");
    assert!(r.is_ok());
    assert_eq!(warnings.len(), 1);
    assert_eq!(warnings[0].name, "x".to_string());
}

#[test]
fn parse_scope_declaration_does_not_leak_to_sibling_block() {
    let (r, warnings) = parse_src("if (1) { let a = 1 } if (1) { print(a) }");
    assert!(r.is_ok());
    assert_eq!(warnings.len(), 1);
    assert_eq!(warnings[0].name, "a".to_string());
}

#[test]
fn parse_outer_declaration_is_visible_in_nested_block() {
    let (r, warnings) = parse_src("let a = 1 while (a) { print(a) }");
    assert!(r.is_ok());
    assert!(warnings.is_empty());
}

#[test]
fn parse_if_elif_else_shape() {
    let nodes = parse_ok("if (x) { print(1) } elif (y) { print(2) } else { print(3) }");
    assert_eq!(
        nodes,
        vec![ParseNode::If {
            cond: ident("x"),
            body: vec![ParseNode::Print(num("1"))],
            elifs: vec![ElifArm { cond: ident("y"), body: vec![ParseNode::Print(num("2"))] }],
            else_body: Some(vec![ParseNode::Print(num("3"))]),
        }]
    );
}

#[test]
fn parse_while_missing_closing_brace_fails() {
    assert_eq!(
        parse_err("while (1) { print(1)"),
        "Missing right curly in while loop".to_string()
    );
}

#[test]
fn parse_error_messages_name_their_construct() {
    assert_eq!(parse_err("let 5 = 3"), "Invalid variable declaration");
    assert_eq!(parse_err("let x"), "Invalid variable declaration");
    assert_eq!(parse_err("while 1"), "Missing open parenthesis in while loop");
    assert_eq!(
        parse_err("while (1"),
        "While condition doesn't have a closing parenthesis"
    );
    assert_eq!(parse_err("while (1)"), "Missing left curly in while loop");
    assert_eq!(parse_err("if 1"), "If condition must start with an open parenthesis");
    assert_eq!(parse_err("if (1"), "If condition not closed");
    assert_eq!(parse_err("if (1) print"), "If condition must start with curly braces");
    assert_eq!(parse_err("if (1) { print(1)"), "If block not closed");
    assert_eq!(
        parse_err("if (1) { } elif 1"),
        "Elif condition must start with parenthesis"
    );
    assert_eq!(parse_err("if (1) { } elif (1"), "Elif condition not closed");
    assert_eq!(
        parse_err("if (1) { } elif (1) print"),
        "Elif block must start with curly braces"
    );
    assert_eq!(parse_err("if (1) { } elif (1) { print(1)"), "Elif block not closed");
    assert_eq!(
        parse_err("if (1) { } else print"),
        "Else block must start with curly braces"
    );
    assert_eq!(parse_err("if (1) { } else { print(1)"), "Else block not closed");
    assert_eq!(parse_err("print 1"), "Left parenthesis missing in function call");
    assert_eq!(parse_err("print(1"), "Right parenthesis missing in function call");
    assert_eq!(parse_err("foo"), "Invalid token in statement position");
    assert_eq!(parse_err("}"), "Invalid parse");
    assert_eq!(parse_err("let x = )"), "Invalid start of expression");
    assert_eq!(parse_err("let x = * 2"), "Invalid prefix operator");
}

#[test]
fn parse_statement_separator_has_no_production() {
    // the lexer knows `;`, but the statement grammar never consumes it
    assert_eq!(parse_err("let x = 1 ;"), "Invalid token in statement position");
}

#[test]
fn parse_stray_assignment_operator_ends_the_expression() {
    assert_eq!(parse_err("let x = 1 = 2"), "Invalid token in statement position");
}

#[test]
fn parse_failure_produces_no_ast() {
    let (r, _) = parse_src("while (1) { print(1)");
    assert!(r.is_err());
}

#[test]
fn parse_twice_gives_structurally_identical_ast() {
    let src = "let x = 1 + 2 * 3 if (x > 2) { print(x) } elif (x) { } else { let y = x }";
    let (r1, w1) = parse_src(src);
    let (r2, w2) = parse_src(src);
    assert_eq!(r1, r2);
    assert_eq!(w1, w2);
}

#[test]
fn pipeline_debug_print_is_stable_across_runs() {
    let src = "let x = 5 while (x) { print(x) }\nif (x < 3) { let y = 2 } else { print(x) }";
    let mut dumps: Vec<String> = Vec::new();
    for _ in 0..2 {
        let nodes = parse_ok(src);
        let texts: Vec<String> = nodes.iter().map(|n| get_sexp(n, 0)).collect();
        dumps.push(texts.join("\n"));
    }
    assert_eq!(dumps[0], dumps[1]);
}

#[test]
fn emit_assignment_loop_and_print() {
    let nodes = parse_ok("let x = 5 while (x) { print(x) }");
    let transpiler = Transpiler::new(nodes);
    let out = transpiler.transpile().expect("emission is total");
    assert_eq!(out, "x = 5\nwhile x:\n print(x)");
}

#[test]
fn emit_if_elif_else() {
    let nodes = parse_ok("let x = 1 if (x) { print(1) } elif (x < 2) { print(2) } else { print(3) }");
    let transpiler = Transpiler::new(nodes);
    let out = transpiler.transpile().expect("emission is total");
    assert_eq!(
        out,
        "x = 1\nif x:\n print(1)\nelif x < 2:\n print(2)\nelse:\n print(3)"
    );
}

#[test]
fn emit_nested_blocks_indent_one_space_per_level() {
    let nodes = parse_ok("let x = 1 while (x) { while (x) { print(1) } }");
    let transpiler = Transpiler::new(nodes);
    let out = transpiler.transpile().expect("emission is total");
    assert_eq!(out, "x = 1\nwhile x:\n while x:\n  print(1)");
}

#[test]
fn emit_string_value_is_copied_through() {
    let nodes = parse_ok("let s = \"hi\"");
    let transpiler = Transpiler::new(nodes);
    let out = transpiler.transpile().expect("emission is total");
    assert_eq!(out, "s = hi");
}

#[test]
fn emit_unary_and_binary_operators() {
    let nodes = parse_ok("let x = -2 * 3 let y = x + 1");
    let transpiler = Transpiler::new(nodes);
    let out = transpiler.transpile().expect("emission is total");
    assert_eq!(out, "x = -2 * 3\ny = x + 1");
}

#[test]
fn emit_number_keeps_digit_text() {
    let nodes = parse_ok("let x = 007");
    let transpiler = Transpiler::new(nodes);
    let out = transpiler.transpile().expect("emission is total");
    assert_eq!(out, "x = 007");
}

#[test]
fn sexp_of_simple_let() {
    let nodes = parse_ok("let x = 5");
    assert_eq!(get_sexp(&nodes[0], 0), "(Let \nIdentifier(x)\nNumber(5))");
}

#[test]
fn sexp_of_operator_tree() {
    let nodes = parse_ok("let x = 1 + 2");
    assert_eq!(
        get_sexp(&nodes[0], 0),
        "(Let \nIdentifier(x)\n(Operator(+) \n\tNumber(1)\n\tNumber(2)))"
    );
}

#[test]
fn sexp_of_while_with_condition() {
    let nodes = parse_ok("let x = 1 while (x) { print(x) }");
    assert_eq!(
        get_sexp(&nodes[1], 0),
        "(While\n\t(Identifier(x))\n(Print \n\tIdentifier(x)))"
    );
}

#[test]
fn sexp_of_empty_block_is_a_bare_tag() {
    let nodes = parse_ok("while (1) { }");
    assert_eq!(get_sexp(&nodes[0], 0), "While");
}

#[test]
fn sexp_of_if_with_only_an_empty_else() {
    let nodes = parse_ok("if (1) { } else { }");
    assert_eq!(get_sexp(&nodes[0], 0), "(If\n\t(Number(1))\nElse)");
}

#[test]
fn emit_while_with_empty_body_keeps_its_header() {
    let nodes = parse_ok("while (1) { }");
    let transpiler = Transpiler::new(nodes);
    let out = transpiler.transpile().expect("emission is total");
    assert_eq!(out, "while 1:\n");
}
