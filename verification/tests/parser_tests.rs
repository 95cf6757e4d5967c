use sod::ast::evaluator::machine::{Action, Reply};
use sod::ast::evaluator::ASTEvaluator;
use sod::error::{Error, ErrorKind};
use sod::parser::Parser;
use sod::symbol::number::Number;
use sod::symbol::operators::{Arithmetic, Computation};
use sod::symbol::symbol::{StringSymbol, Symbol};

fn compute(c: Computation) -> Number {
    let l = f64::from_bits(c.left.bits);
    let r = f64::from_bits(c.right.bits);
    let value = match c.operation {
        Arithmetic::Add => l + r,
        Arithmetic::Subtract => l - r,
        Arithmetic::Multiply => l * r,
        Arithmetic::Divide => l / r,
        Arithmetic::Power => l.powf(r),
    };
    Number { bits: value.to_bits() }
}

// Stands for the shell: what `sh -c` prints for the command lines of these
// tests.
fn run_cmd(cmd: &str) -> String {
    match cmd {
        "echo true pip 1" => "true pip 1\n".to_string(),
        other => panic!("unexpected command: {:?}", other),
    }
}

fn run(evaluator: &mut ASTEvaluator, src: &str) -> Result<Vec<Option<Symbol>>, Error> {
    let commands = vec!["echo".to_string(), "ls".to_string(), "grep".to_string()];
    let program = Parser::new(src, commands).parse()?;
    let mut action = evaluator.eval(program);
    loop {
        let reply = match action {
            Action::Continue => None,
            Action::Compute(c) => Some(Reply::Number(compute(c))),
            Action::Parse(text) => {
                Some(Reply::Number(Number { bits: text.parse::<f64>().unwrap().to_bits() }))
            }
            Action::Format(numbers) => Some(Reply::Texts(
                numbers.iter().map(|n| f64::from_bits(n.bits).to_string()).collect(),
            )),
            Action::Run(cmd) => Some(Reply::Output(run_cmd(&cmd))),
            Action::Done(results) => return Ok(results),
            Action::Failed(e) => return Err(e),
        };
        action = evaluator.step(reply);
    }
}

fn eval_expr(expr: &str) -> Vec<Option<Symbol>> {
    let mut evaluator = ASTEvaluator::new(vec![]);
    run(&mut evaluator, expr).unwrap()
}

fn assert_expr(expr: &str, expected: Symbol) {
    let evaluation = eval_expr(expr);
    let symbol = evaluation.last().unwrap().as_ref().unwrap();
    assert_eq!(&expected, symbol);
}

fn assert_exprs(exprs: Vec<&str>, expected: Vec<Symbol>) {
    let mut evaluator = ASTEvaluator::new(vec![]);
    for (expr, expected) in exprs.iter().zip(expected.iter()) {
        let evaluation = run(&mut evaluator, expr).unwrap();
        let symbol = evaluation.last().unwrap().as_ref().unwrap();
        assert_eq!(expected, symbol);
    }
}

fn number(value: f64) -> Symbol {
    Symbol::Number(Number { bits: value.to_bits() })
}

fn string(value: &str) -> Symbol {
    Symbol::String(StringSymbol::new(value.to_string()))
}

fn error_of(expr: &str) -> ErrorKind {
    let mut evaluator = ASTEvaluator::new(vec![]);
    run(&mut evaluator, expr).unwrap_err().kind
}

#[test]
fn math_expressions() {
    assert_expr("2", number(2.0));
    assert_expr("1+2", number(3.0));
    assert_expr("-2", number(-2.0));
    assert_expr("1+2*3", number(7.0));
    assert_expr("3*2 +1", number(7.0));
    assert_expr("2 ^ 3 + 1", number(9.0));
    assert_expr("12/2/3", number(2.0));
    assert_expr("(1 + 2) * 3", number(9.0));
    assert_expr("(-2) ^ 2", number(4.0));
    assert_expr("-2 ^ 2", number(-4.0));
}

#[test]
fn parser() {
    assert_expr("2", number(2.0));
    assert_expr("1+2", number(3.0));
    assert_expr("-2", number(-2.0));
    assert_expr("1+2*3", number(7.0));
    assert_expr("3*2 +1", number(7.0));
    assert_expr("2 ^ 3 + 1", number(9.0));
    assert_expr("12/2/3", number(2.0));
    assert_expr("(1 + 2) * 3", number(9.0));
    assert_expr("(-2) ^ 2", number(4.0));
    assert_expr("-2 ^ 2", number(-4.0));
}

#[should_panic]
#[test]
fn invalid_number() {
    eval_expr("1.");
}

#[test]
fn math_expression_statements() {
    assert_expr("x = 2 * 3\n x+3", number(9.0));
}

#[test]
fn functions() {
    assert_expr("func foo() {\nx = 1\nreturn x\n}\nfoo()", number(1.0));
    assert_expr(
        "x = 1\nfunc foo(a,b) {\ny = 4\nreturn y + a + b + x\n}\nfoo(x, 100)",
        number(106.0),
    );
    assert_expr(
        r#"
    func get() {
      return 1
    }
    func foo(val1, val2, val3) {
     return echo $val1 $val2 $val3
    }

    foo(true, "pip", get()).trim()
        "#,
        string("true pip 1"),
    )
}

#[test]
fn conditionals() {
    assert_expr("1 && 2", number(2.0));
    // `==` and `||` bind equally and group to the left: ((2 == 2) || 3) == 4.
    assert_expr("2 == 2 || 3 == 4", Symbol::Boolean(false));
    assert_expr("2 == 2 || (3 == 4)", Symbol::Boolean(true));
    assert_expr("true && (false || true)", Symbol::Boolean(true));
    assert_expr("(true || false) && (1 && 1)", number(1.0));
    assert_expr("0 || (1 && 0) || true", Symbol::Boolean(true));
    assert_expr("0 && (1 && (0 && 1))", number(0.0));
    assert_expr("0 == 0 && (1 < 0 || 1)", number(1.0));
    assert_expr("1 > 1 || 0 > 0 || (1 != 2 && -2 == -2 && 3)", number(3.0));
    assert_expr("1 || echo 'foo'", number(1.0));
    assert_expr("none && 1", Symbol::Nothing);
    assert_expr("x = 10\nif 2 > 1 {\n x = 20\n}\nx", number(20.0));
    assert_expr(
        "foo=1\nx = true\ny = false\nif x || y {\n foo = 2\n}\nfoo",
        number(2.0),
    );
    assert_expr("x=1\nif x != 1 {\n x = 2\n} else {\n x=3\n}\nx", number(3.0));
    assert_expr(
        "x=1\nif x != 1 {\n x = 2\n} else {\n x=3\n}\nif x == 3 {\n x = 4\n}\nx",
        number(4.0),
    );
    assert_expr(
        "
        x=1
        y=2
        if x == 1 {
            if y == 0 {
                x = 10
            } else {
                if x == 1 {
                    x = 20
                }
            }
        }
        x",
        number(20.0),
    );
    assert_expr(
        "
        x=1
        y=0
        if x == 1 {
            t = 1
            if y == 0 {
                z = 1
            }
            x = t + 1
        }
        x",
        number(2.0),
    );
}

#[test]
#[should_panic]
fn conditional_var_panic() {
    eval_expr("x=1\nif x != 1 {\n x = 2\n} else {\n y=5\nx=3\n}\ny");
}

#[test]
fn parser_tests_strings() {
    assert_expr(
        r#"x="foo"
                    x"#,
        string("foo"),
    );
    assert_expr(
        r#"x = "foo"
x + "bar"
"#,
        string("foobar"),
    );
    assert_expr(
        r#"x = "foo"
        x.len()
        "#,
        number(3.0),
    );
    assert_expr(
        r#"x = "abc"
        x[1]
        "#,
        string("b"),
    );
    assert_expr(
        r#"x = "foo"
        x.push("bar")
        x
        "#,
        string("foobar"),
    );
    assert_exprs(
        vec![
            r#"x = "abc"
            x.pop()
            "#,
            "x",
            r#"x.insert(0,"z")
                x"#,
            "x.remove(1)",
            "x",
        ],
        vec![string("c"), string("ab"), string("zab"), string("a"), string("zb")],
    );
    assert_expr(
        r#"x = "foo"
"$x bar""#,
        string("foo bar"),
    );
    assert_expr("x = 'foo'\n'$x bar", string("$x bar"));
}

#[test]
fn lists() {
    assert_expr("x = [1, 2]\nx[1]", number(2.0));
    assert_expr("x = []\nx.push(5)\nx.push(6)\nx.pop()", number(6.0));
    assert_expr("x = [5]\nx[0] = 1\nx[0]", number(1.0));
    assert_expr("x = [5]\nx_0 = x[0]\nx_0 = 1\nx[0]", number(5.0));
    assert_expr("x = [1,2,3]\nx.remove(1)\nx[1]", number(3.0));
    assert_expr("x = [1,2]\nx.insert(1,4)\nx[1]", number(4.0));
    assert_expr("t = 0\nx = [5,2]\nfor v in x {\nt = t + v\n}\nt", number(7.0));
}

#[test]
fn ranges() {
    assert_expr("t = 0\nfor v in 1..3 {\n t = t + v\n}\nt", number(3.0));
    assert_expr("r=1..4..2\nt = 0\nfor v in r {\n t = t + v\n}\nt", number(4.0));
    assert_expr("t = 0\nfor v in 4..1..-1 {\n t = t + v\n}\nt", number(9.0));
}

#[test]
fn global_vars() {
    assert_expr("process.argv.len()", number(0.0));
}

#[test]
fn name_bound_in_a_branch_is_gone_after_it() {
    assert_eq!(
        error_of("x=1\nif x != 1 {\n x = 2\n} else {\n y=5\nx=3\n}\ny"),
        ErrorKind::Name
    );
}

#[test]
fn dangling_dot_is_a_parse_error() {
    assert_eq!(error_of("1."), ErrorKind::Parse);
}
