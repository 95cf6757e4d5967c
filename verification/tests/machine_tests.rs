use sod::ast::ast::{ASTNode, NumberLiteral};
use sod::ast::evaluator::machine::{Action, Reply};
use sod::ast::evaluator::ASTEvaluator;
use sod::error::{Error, ErrorKind};
use sod::parser::{parse_source, Parser};
use sod::symbol::number::Number;
use sod::symbol::operators::{Arithmetic, Computation};
use sod::symbol::symbol::{List, StringSymbol, Symbol};

fn compute(c: Computation) -> Number {
    let l = f64::from_bits(c.left.bits);
    let r = f64::from_bits(c.right.bits);
    let value = match c.operation {
        Arithmetic::Add => l + r,
        Arithmetic::Subtract => l - r,
        Arithmetic::Multiply => l * r,
        Arithmetic::Divide => l / r,
        Arithmetic::Power => l.powf(r),
    };
    Number { bits: value.to_bits() }
}

fn run_with(argv: Vec<&str>, src: &str) -> Result<Vec<Option<Symbol>>, Error> {
    let mut evaluator = ASTEvaluator::new(argv.iter().map(|a| a.to_string()).collect());
    let program = parse_source(src, vec![])?;
    let mut action = evaluator.eval(program);
    loop {
        let reply = match action {
            Action::Continue => None,
            Action::Compute(c) => Some(Reply::Number(compute(c))),
            Action::Parse(text) => {
                Some(Reply::Number(Number { bits: text.parse::<f64>().unwrap().to_bits() }))
            }
            Action::Format(numbers) => Some(Reply::Texts(
                numbers.iter().map(|n| f64::from_bits(n.bits).to_string()).collect(),
            )),
            Action::Run(cmd) => panic!("unexpected command: {:?}", cmd),
            Action::Done(results) => return Ok(results),
            Action::Failed(e) => return Err(e),
        };
        action = evaluator.step(reply);
    }
}

fn last(src: &str) -> Symbol {
    run_with(vec![], src).unwrap().pop().unwrap().unwrap()
}

fn kind(src: &str) -> ErrorKind {
    run_with(vec![], src).unwrap_err().kind
}

fn number(value: f64) -> Symbol {
    Symbol::Number(Number { bits: value.to_bits() })
}

fn string(value: &str) -> Symbol {
    Symbol::String(StringSymbol::new(value.to_string()))
}

#[test]
fn results_come_one_for_each_statement() {
    let results = run_with(vec![], "x = 1\nx + 1\n\nfunc f() {\nreturn 2\n}\nf()").unwrap();
    assert_eq!(results, vec![None, Some(number(2.0)), None, Some(number(2.0))]);
    assert_eq!(run_with(vec![], "").unwrap(), vec![]);
    assert_eq!(run_with(vec![], "\n\n  \n").unwrap(), vec![]);
}

#[test]
fn decimal_literals_are_asked_for() {
    let mut evaluator = ASTEvaluator::new(vec![]);
    let program = parse_source("1.25", vec![]).unwrap();
    assert!(matches!(evaluator.eval(program), Action::Continue));
    assert!(matches!(evaluator.step(None), Action::Continue));
    match evaluator.step(None) {
        Action::Parse(text) => assert_eq!(text, "1.25"),
        other => panic!("{:?}", other),
    }
    let reply = Reply::Number(Number { bits: 1.25f64.to_bits() });
    assert!(matches!(evaluator.step(Some(reply)), Action::Continue));
    assert!(matches!(evaluator.step(None), Action::Continue));
    match evaluator.step(None) {
        Action::Done(results) => assert_eq!(results, vec![Some(number(1.25))]),
        other => panic!("{:?}", other),
    }
    assert!(matches!(evaluator.step(None), Action::Done(_)));
}

#[test]
fn reply_that_was_not_asked_for_fails() {
    let mut evaluator = ASTEvaluator::new(vec![]);
    let program = parse_source("1 + 2", vec![]).unwrap();
    evaluator.eval(program);
    let reply = Reply::Output("x".to_string());
    match evaluator.step(Some(reply)) {
        Action::Failed(e) => assert_eq!(e.kind, ErrorKind::Unsupported),
        other => panic!("{:?}", other),
    }
    let mut evaluator = ASTEvaluator::new(vec![]);
    let program = parse_source("1.5", vec![]).unwrap();
    evaluator.eval(program);
    evaluator.step(None);
    assert!(matches!(evaluator.step(None), Action::Parse(_)));
    match evaluator.step(None) {
        Action::Failed(e) => assert_eq!(e.kind, ErrorKind::Unsupported),
        other => panic!("{:?}", other),
    }
}

#[test]
fn what_is_no_program_is_refused() {
    let mut evaluator = ASTEvaluator::new(vec![]);
    match evaluator.eval(ASTNode::Number(NumberLiteral::Integer(1))) {
        Action::Failed(e) => assert_eq!(e.kind, ErrorKind::Type),
        other => panic!("{:?}", other),
    }
}

#[test]
fn arguments_of_the_program() {
    let results = run_with(vec!["a", "b"], "process.argv.len()\nprocess.argv[1]\nprocess.argv").unwrap();
    assert_eq!(results[0], Some(number(2.0)));
    assert_eq!(results[1], Some(string("b")));
    assert_eq!(results[2], Some(Symbol::List(List::from(vec![string("a"), string("b")]))));
    assert_eq!(last("process.other"), Symbol::Nothing);
    assert_eq!(last("process.argv.push(1)\nprocess.argv.len()"), number(1.0));
    assert_eq!(last("process.argv.push(5)\nprocess.argv[0] = 7\nprocess.argv[0]"), number(7.0));
}

#[test]
fn failures_by_kind() {
    assert_eq!(kind("1 + $"), ErrorKind::Lexical);
    assert_eq!(kind("99999999999999999999999999"), ErrorKind::Lexical);
    assert_eq!(kind("(1 + 2"), ErrorKind::Parse);
    assert_eq!(kind("1 +"), ErrorKind::Parse);
    assert_eq!(kind("if 1 {\n x = 1"), ErrorKind::Parse);
    assert_eq!(kind("x = 1 2"), ErrorKind::Parse);
    assert_eq!(kind("y"), ErrorKind::Name);
    assert_eq!(kind("f(1)"), ErrorKind::Name);
    assert_eq!(kind("\"$y\""), ErrorKind::Name);
    assert_eq!(kind("y[0] = 1"), ErrorKind::Name);
    assert_eq!(kind("1 + 'a'"), ErrorKind::Type);
    assert_eq!(kind("'a' - 'b'"), ErrorKind::Type);
    assert_eq!(kind("1 < 'a'"), ErrorKind::Type);
    assert_eq!(kind("x = [1]\nx['a']"), ErrorKind::Type);
    assert_eq!(kind("x = 1\nx[0]"), ErrorKind::Type);
    assert_eq!(kind("x = 1\nx.len()"), ErrorKind::Type);
    assert_eq!(kind("x = 1\nx.y"), ErrorKind::Type);
    assert_eq!(kind("x = []\nx.push('a', 'b')"), ErrorKind::Arity);
    assert_eq!(kind("func f(a, b) {\nreturn a\n}\nf(1)"), ErrorKind::Arity);
    assert_eq!(kind("x = [1]\nx[1]"), ErrorKind::Bounds);
    assert_eq!(kind("x = [1]\nx[1] = 2"), ErrorKind::Bounds);
    assert_eq!(kind("x = [1]\nx.remove(1)"), ErrorKind::Bounds);
    assert_eq!(kind("x = [1]\nx.insert(2, 0)"), ErrorKind::Bounds);
    assert_eq!(kind("x = 'ab'\nx[2]"), ErrorKind::Bounds);
    assert_eq!(kind("for v in 1..5..0 {\n v\n}"), ErrorKind::Bounds);
    assert_eq!(kind("x = 'ab'\nx[0] = 'c'"), ErrorKind::Unsupported);
    assert_eq!(kind("process.argv = 1"), ErrorKind::Unsupported);
    assert_eq!(kind("x = []\nx.len() = 1"), ErrorKind::Unsupported);
    assert_eq!(kind("[1][0]"), ErrorKind::Parse);
}

#[test]
fn functions_see_globals_and_parameters() {
    assert_eq!(
        last("g = 1\nfunc f(a) {\n return a + g\n}\nif true {\n l = 5\n r = f(l)\n}\nr = 0\nf(2)"),
        number(3.0)
    );
    assert_eq!(
        kind("func f() {\n return l\n}\nif true {\n l = 5\n f()\n}"),
        ErrorKind::Name
    );
    assert_eq!(last("func f(a, b) {\n return a\n}\nf(1, 2, 3)"), number(1.0));
    assert_eq!(last("func f() {\n x = 1\n}\nf()"), Symbol::Nothing);
    assert_eq!(last("x = 1\nx()"), Symbol::Nothing);
    assert_eq!(
        last("func fact(n) {\n if n < 2 {\n return 1\n }\n return n * fact(n - 1)\n}\nfact(5)"),
        number(120.0)
    );
}

#[test]
fn return_leaves_the_blocks_up_to_the_call() {
    assert_eq!(
        last("func f(x) {\n if x > 1 {\n return 1\n }\n return 2\n}\nf(5) + f(0)"),
        number(3.0)
    );
    assert_eq!(
        last("func f() {\n for v in 1..10 {\n if v == 3 {\n return v\n }\n }\n return 0\n}\nf()"),
        number(3.0)
    );
    assert_eq!(
        last("func f() {\n t = 0\n for v in 1..4 {\n t = t + v\n }\n return t\n}\nf()\ny = 1\ny"),
        number(1.0)
    );
    let results = run_with(vec![], "x = 0\nif true {\n return 7\n x = 1\n}\nx").unwrap();
    assert_eq!(results, vec![None, Some(number(7.0)), Some(number(0.0))]);
    assert_eq!(last("return 5"), number(5.0));
}

#[test]
fn loops_run_over_lists_strings_and_ranges() {
    assert_eq!(last("t = ''\nfor c in 'abc' {\n t = c + t\n}\nt"), string("cba"));
    assert_eq!(last("t = 0\nx = [1, 2]\nfor v in x {\n x.push(v)\n t = t + v\n}\nx.len() + t"), number(7.0));
    assert_eq!(last("t = 0\nfor v in 3..3 {\n t = t + 1\n}\nt"), number(0.0));
    assert_eq!(last("t = 0\nfor v in 5..2 {\n t = t + 1\n}\nt"), number(0.0));
    assert_eq!(last("t = 0\nfor v in 2..7 {\n t = t + 1\n}\nt"), number(5.0));
    match (last("r = 1..4\nr"), last("r = 1..4..1\nr")) {
        (Symbol::Range(a), Symbol::Range(b)) => {
            assert_eq!((a.start, a.end, a.increment), (1, 4, 1));
            assert_eq!((b.start, b.end, b.increment), (1, 4, 1));
        }
        other => panic!("{:?}", other),
    }
    assert_eq!(kind("for v in 1 {\n v\n}"), ErrorKind::Type);
    assert_eq!(kind("for v in 1..3 {\n w = v\n}\nw"), ErrorKind::Name);
    assert_eq!(kind("for v in 1..3 {\n 1\n}\nv"), ErrorKind::Name);
    assert_eq!(kind("for v in 'a'..3 {\n 1\n}"), ErrorKind::Type);
}

#[test]
fn template_strings() {
    assert_eq!(last("x = 'foo'\n\"$x bar\""), string("foo bar"));
    assert_eq!(last("\"a $ b\""), string("a $ b"));
    assert_eq!(last("\"$\""), string("$"));
    assert_eq!(last("x = 1.50\ny = [x, 'a']\n\"<$x > $y\""), string("<1.5 > [\"1.5\", \"a\"]"));
    assert_eq!(kind("x = 1\n\"<$x>\""), ErrorKind::Name);
    assert_eq!(last("x = 2\n\"$x $x\""), string("2 2"));
    assert_eq!(last("x = 2\n\"n=$x\""), string("n=2"));
    assert_eq!(last("x = true\n\"$x\tend\""), string("true\tend"));
}

#[test]
fn negation_and_operators_without_values() {
    assert_eq!(last("-(1 + 2)"), number(-3.0));
    assert_eq!(last("x = 3\n-x"), number(-3.0));
    let results = run_with(vec![], "-'a'").unwrap();
    assert_eq!(results, vec![None]);
    let results = run_with(vec![], "1 + (x = 2)").unwrap();
    assert_eq!(results, vec![None]);
}

#[test]
fn lists_hold_values_and_copies() {
    assert_eq!(last("x = [1, [2, 3]]\nx[1][0]"), number(2.0));
    assert_eq!(last("x = [1]\ny = x\ny.push(2)\nx.len()"), number(1.0));
    assert_eq!(last("x = [1, 2]\nx.contains(2)"), Symbol::Boolean(true));
    assert_eq!(last("x = [1, 2]\nx == [1, 2]"), Symbol::Boolean(true));
    assert_eq!(last("func f() {\n x = [1, 2]\n return x\n}\nf().len()"), number(2.0));
    assert_eq!(kind("func f() {\n return [1, 2]\n}"), ErrorKind::Parse);
    assert_eq!(last("func f() {\n return 'ab'\n}\nf().push('c')"), number(3.0));
    assert_eq!(kind("x = [1, y]"), ErrorKind::Name);
    assert_eq!(kind("x = [1, z = 2]"), ErrorKind::Type);
}

#[test]
fn parser_takes_registered_names_as_commands() {
    let commands = vec!["ls".to_string()];
    let program = Parser::new("ls -la\nlsx", commands).parse().unwrap();
    match program {
        ASTNode::Program(body) => {
            assert_eq!(body.len(), 2);
            match &body[0] {
                ASTNode::Command(parts) => assert_eq!(parts.len(), 4),
                other => panic!("{:?}", other),
            }
            assert_eq!(body[1], ASTNode::Identifier("lsx".to_string()));
        }
        other => panic!("{:?}", other),
    }
    match parse_source("ls -la", vec![]).unwrap() {
        ASTNode::Program(body) => assert!(matches!(body[0], ASTNode::BinaryExpression(_))),
        other => panic!("{:?}", other),
    }
}

#[test]
fn precedence_shapes_the_tree() {
    let tree = |src: &str| match parse_source(src, vec![]).unwrap() {
        ASTNode::Program(mut body) => body.remove(0),
        other => panic!("{:?}", other),
    };
    assert_eq!(tree("1+2*3"), tree("1+(2*3)"));
    assert_ne!(tree("1+2*3"), tree("(1+2)*3"));
    assert_eq!(tree("2^3^4"), tree("2^(3^4)"));
    assert_ne!(tree("2^3^4"), tree("(2^3)^4"));
    assert_eq!(tree("8/4/2"), tree("(8/4)/2"));
    assert_eq!(tree("-2^2"), tree("-(2^2)"));
    assert_ne!(tree("-2^2"), tree("(-2)^2"));
    assert_eq!(tree("1 == 2 || 3"), tree("(1 == 2) || 3"));
}

fn message(src: &str) -> String {
    run_with(vec![], src).unwrap_err().message
}

#[test]
fn a_name_that_is_not_bound_is_named_in_the_failure() {
    assert_eq!(message("y"), "name is not defined: y");
    assert_eq!(message("x = 1\nx + other"), "name is not defined: other");
    assert_eq!(message("y.z"), "name is not defined: y");
    assert_eq!(message("f(1)"), "name is not defined: f");
    assert_eq!(message("y.push(1)"), "name is not defined: y");
    assert_eq!(message("y.len()"), "name is not defined: y");
    assert_eq!(message("y[0] = 1"), "name is not defined: y");
    assert_eq!(message("x = 1\n\"$x and $y and $z\""), "name is not defined: y");
    assert_eq!(message("if true {\ninner = 1\n}\ninner"), "name is not defined: inner");
}

#[test]
fn a_property_that_is_not_there_is_named_in_the_failure() {
    assert_eq!(message("process.other.push(1)"), "object has no property other");
    assert_eq!(message("process.other[0] = 1"), "object has no property other");
    assert_eq!(kind("process.other.push(1)"), ErrorKind::Name);
}

#[test]
fn a_parse_failure_names_the_token_it_stopped_at() {
    let failure = |src: &str| parse_source(src, vec![]).unwrap_err();
    assert_eq!(failure("(1 + 2").message, "EOF");
    assert_eq!(failure("(1 + 2").kind, ErrorKind::Parse);
    assert_eq!(failure("1 +").message, "EOF");
    assert_eq!(failure(")").message, "unexpected token )");
    assert_eq!(failure("x = ]").message, "unexpected token ]");
    assert_eq!(failure("func f( {\n}").message, "unexpected token {");
    assert_eq!(failure("func 1() {\n}").message, "unexpected token 1");
    assert_eq!(failure("for x of y {\n}").message, "unexpected token of");
    assert_eq!(failure("1 + $").kind, ErrorKind::Lexical);
}
