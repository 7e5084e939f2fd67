use lox_syntax::ast::{Expression, Node, NodeType, Program, Statement};
use lox_syntax::evaluator::{eval, eval_expression, eval_statement};
use lox_syntax::lexer::Lexer;
use lox_syntax::object::ObjectType;
use lox_syntax::parser::Parser;

fn parse(source: &str) -> (Program, Vec<String>) {
    let mut lexer = Lexer::new(source.to_string());
    lexer.tokenize();
    let mut parser = Parser::new(lexer);
    let program = parser.parse_program();
    (program, parser.errors)
}

fn rendered(source: &str) -> Vec<String> {
    let (program, errors) = parse(source);
    assert!(errors.is_empty());
    program.statements.iter().map(|s| s.string()).collect()
}

fn first_expression(program: &Program) -> &Expression {
    match &program.statements[0] {
        Statement::ExpressionStatement(s) => &s.expression,
    }
}

#[test]
fn grouping_and_product_round_trip() {
    assert_eq!(rendered("(3 + 4) * 2"), vec!["(* (group (+ 3.0 4.0)) 2.0)"]);
}

#[test]
fn subtraction_is_left_associative() {
    let lines = rendered("1 - 2 - 3");
    assert_eq!(lines, vec!["(- (- 1.0 2.0) 3.0)"]);
    assert_ne!(lines, vec!["(- 1.0 (- 2.0 3.0))"]);
}

#[test]
fn product_binds_tighter_than_sum() {
    assert_eq!(rendered("1 + 2 * 3"), vec!["(+ 1.0 (* 2.0 3.0))"]);
    assert_eq!(rendered("1 * 2 + 3"), vec!["(+ (* 1.0 2.0) 3.0)"]);
}

#[test]
fn unmatched_grouping_is_reported_and_parsing_ends() {
    let (program, errors) = parse("(1 + 2");
    assert_eq!(errors, vec!["[line 1] Expect ')'"]);
    assert!(errors[0].contains("Expect ')'"));
    assert_eq!(program.statements.len(), 1);
    assert_eq!(program.statements[0].string(), "nil");
}

#[test]
fn unmatched_grouping_names_the_line_of_the_last_token() {
    let (_, errors) = parse("(1 +\n\n2");
    assert_eq!(errors, vec!["[line 3] Expect ')'"]);
    let (program, errors) = parse("(");
    assert_eq!(errors, vec!["[line 1] Expect ')'"]);
    assert_eq!(program.statements.len(), 1);
}

#[test]
fn nested_unmatched_groupings_report_inner_first() {
    let (program, errors) = parse("((1\n");
    assert_eq!(errors, vec!["[line 1] Expect ')'", "[line 1] Expect ')'"]);
    assert_eq!(program.statements[0].string(), "nil");
}

#[test]
fn literals_render_as_their_text() {
    assert_eq!(rendered("true"), vec!["true"]);
    assert_eq!(rendered("false"), vec!["false"]);
    assert_eq!(rendered("nil"), vec!["nil"]);
    assert_eq!(rendered("12.50"), vec!["12.5"]);
    assert_eq!(rendered("\"hello world\""), vec!["hello world"]);
}

#[test]
fn prefix_operators_bind_tighter_than_binary_ones() {
    assert_eq!(rendered("-1 * 2"), vec!["(* (- 1.0) 2.0)"]);
    assert_eq!(rendered("!true == false"), vec!["(== (! true) false)"]);
    assert_eq!(rendered("- - 3"), vec!["(- (- 3.0))"]);
    assert_eq!(rendered("1 - -2"), vec!["(- 1.0 (- 2.0))"]);
}

#[test]
fn comparison_and_equality_levels() {
    assert_eq!(rendered("1 < 2 == 3 > 4"), vec!["(== (< 1.0 2.0) (> 3.0 4.0))"]);
    assert_eq!(rendered("1 + 2 <= 3 * 4"), vec!["(<= (+ 1.0 2.0) (* 3.0 4.0))"]);
    assert_eq!(rendered("1 != 2 >= 3"), vec!["(!= 1.0 (>= 2.0 3.0))"]);
    assert_eq!(rendered("8 / 4 / 2"), vec!["(/ (/ 8.0 4.0) 2.0)"]);
}

#[test]
fn nested_groupings() {
    assert_eq!(rendered("((1))"), vec!["(group (group 1.0))"]);
    assert_eq!(rendered("(1 + (2 - 3)) * 4"), vec!["(* (group (+ 1.0 (group (- 2.0 3.0)))) 4.0)"]);
    assert_eq!(rendered("(\"a\")"), vec!["(group a)"]);
}

#[test]
fn unknown_prefix_token_becomes_the_placeholder() {
    assert_eq!(rendered("foo"), vec!["nil"]);
    assert_eq!(rendered("* 2"), vec!["nil", "2.0"]);
    assert_eq!(rendered("foo * 2"), vec!["(* nil 2.0)"]);
    assert_eq!(rendered("1 +"), vec!["(+ 1.0 nil)"]);
}

#[test]
fn one_statement_per_expression() {
    assert_eq!(rendered("1 2"), vec!["1.0", "2.0"]);
    assert_eq!(rendered("1 + 2 true"), vec!["(+ 1.0 2.0)", "true"]);
    assert_eq!(rendered(""), Vec::<String>::new());
    assert_eq!(rendered("// only a comment"), Vec::<String>::new());
}

#[test]
fn program_lines_are_the_statement_renderings() {
    let (program, errors) = parse("(3 + 4) * 2 \"s\"");
    assert!(errors.is_empty());
    assert_eq!(program.print_lines(), vec!["(* (group (+ 3.0 4.0)) 2.0)", "s"]);
    assert_eq!(program.string(), "program");
    assert_eq!(program.node_type(), NodeType::Program);
}

#[test]
fn parser_without_tokens_yields_an_empty_program() {
    let lexer = Lexer::new("1 + 2".to_string());
    let mut parser = Parser::new(lexer);
    let program = parser.parse_program();
    assert!(program.statements.is_empty());
    assert!(parser.errors.is_empty());
}

#[test]
fn parsing_stops_at_the_first_end_of_input_token() {
    let mut lexer = Lexer::new("1".to_string());
    lexer.tokenize();
    lexer.tokenize();
    let mut parser = Parser::new(lexer);
    let program = parser.parse_program();
    assert_eq!(program.statements.len(), 1);
    assert_eq!(parser.off, 1);
}

#[test]
fn node_types_name_the_variant() {
    let (program, _) = parse("true");
    assert_eq!(program.statements[0].node_type(), NodeType::ExpressionStatement);
    assert_eq!(first_expression(&program).node_type(), NodeType::Boolean);
    let (program, _) = parse("1");
    assert_eq!(first_expression(&program).node_type(), NodeType::NumberLiteral);
    let (program, _) = parse("\"s\"");
    assert_eq!(first_expression(&program).node_type(), NodeType::StringLiteral);
    let (program, _) = parse("(1)");
    assert_eq!(first_expression(&program).node_type(), NodeType::Grouping);
    let (program, _) = parse("-1");
    assert_eq!(first_expression(&program).node_type(), NodeType::PrefixExpression);
    let (program, _) = parse("1 + 1");
    assert_eq!(first_expression(&program).node_type(), NodeType::InfixExpression);
    let (program, _) = parse("x");
    assert_eq!(first_expression(&program).node_type(), NodeType::Nil);
}

#[test]
fn operator_tokens_are_kept_in_the_tree() {
    let (program, _) = parse("1\n<= 2");
    match first_expression(&program) {
        Expression::InfixExpression(infix) => {
            assert_eq!(infix.token.lexeme, "<=");
            assert_eq!(infix.token.line_number, 2);
            assert_eq!(infix.left.string(), "1.0");
            assert_eq!(infix.right.string(), "2.0");
            assert_eq!(infix.string(), "(<= 1.0 2.0)");
        }
        _ => panic!("an infix expression was expected"),
    }
    let (program, _) = parse("!(false)");
    match first_expression(&program) {
        Expression::PrefixExpression(prefix) => {
            assert_eq!(prefix.operator.lexeme, "!");
            assert_eq!(prefix.right.string(), "(group false)");
            assert_eq!(prefix.string(), "(! (group false))");
        }
        _ => panic!("a prefix expression was expected"),
    }
}

#[test]
fn node_renders_what_it_wraps() {
    let (program, _) = parse("1 + 2");
    let (other, _) = parse("1 + 2");
    let statement = other.statements.into_iter().next().unwrap();
    assert_eq!(Node::Statement(statement).string(), "(+ 1.0 2.0)");
    let node = Node::Program(program);
    assert_eq!(node.string(), "program");
    assert_eq!(node.node_type(), NodeType::Program);
}

#[test]
fn literals_evaluate_to_themselves() {
    let (program, _) = parse("true");
    let value = eval(Node::Program(program));
    assert_eq!(value.obj_type(), ObjectType::BooleanObj);
    assert_eq!(value.inspect(), "true");
    let (program, _) = parse("12.50");
    let value = eval(Node::Program(program));
    assert_eq!(value.obj_type(), ObjectType::NumberLiteralObj);
    assert_eq!(value.inspect(), "12.5");
    let (program, _) = parse("\"text\"");
    let value = eval(Node::Program(program));
    assert_eq!(value.obj_type(), ObjectType::StringLiteralObj);
    assert_eq!(value.inspect(), "text");
}

#[test]
fn only_the_first_statement_is_evaluated() {
    let (program, _) = parse("false 1");
    let value = eval(Node::Program(program));
    assert_eq!(value.inspect(), "false");
}

#[test]
fn everything_else_evaluates_to_nil() {
    for source in ["nil", "1 + 2", "(1)", "-1", "", "x"] {
        let (program, _) = parse(source);
        let value = eval(Node::Program(program));
        assert_eq!(value.obj_type(), ObjectType::NilObj);
        assert_eq!(value.inspect(), "nil");
    }
    let (program, _) = parse("true");
    let statement = program.statements.into_iter().next().unwrap();
    assert_eq!(eval_statement(&statement).inspect(), "true");
    assert_eq!(eval(Node::Statement(statement)).inspect(), "nil");
}

#[test]
fn expressions_evaluate_without_a_program() {
    let (program, _) = parse("\"s\" (2)");
    assert_eq!(eval_expression(first_expression(&program)).inspect(), "s");
    match &program.statements[1] {
        Statement::ExpressionStatement(s) => {
            assert_eq!(eval_expression(&s.expression).obj_type(), ObjectType::NilObj);
        }
    }
}
