use sod::ast::evaluator::machine::{Action, Reply};
use sod::ast::evaluator::ASTEvaluator;
use sod::parser::Parser;
use sod::symbol::number::Number;
use sod::symbol::operators::{Arithmetic, Computation};
use sod::symbol::symbol::{StringSymbol, Symbol};

fn compute(c: Computation) -> Number {
    let l = f64::from_bits(c.left.bits);
    let r = f64::from_bits(c.right.bits);
    let value = match c.operation {
        Arithmetic::Add => l + r,
        Arithmetic::Subtract => l - r,
        Arithmetic::Multiply => l * r,
        Arithmetic::Divide => l / r,
        Arithmetic::Power => l.powf(r),
    };
    Number { bits: value.to_bits() }
}

// Stands for the shell: what `sh -c` prints for the command lines of these
// tests, the first of them in a directory that holds `gear.tmp`.
fn run_cmd(cmd: &str) -> String {
    match cmd {
        "ls ./data/aviation/bland/ | grep '..tmp'" => "gear.tmp\n".to_string(),
        "echo foo" => "foo\n".to_string(),
        "echo '# $FOOBAR'" => "# $FOOBAR\n".to_string(),
        "echo 'foo'; echo 'bar'" => "foo\nbar\n".to_string(),
        "echo 'foo'" => "foo\n".to_string(),
        "echo 'x'" => "x\n".to_string(),
        "echo 1.5 2 [\"1\", \"a\"]" => "1.5 2 [1, a]\n".to_string(),
        other => panic!("unexpected command: {:?}", other),
    }
}

fn eval_expr(expr: &str, commands_run: &mut Vec<String>) -> Vec<Option<Symbol>> {
    let mut evaluator = ASTEvaluator::new(vec![]);
    let commands = vec!["echo".to_string(), "ls".to_string()];
    let program = Parser::new(expr, commands).parse().unwrap();
    let mut action = evaluator.eval(program);
    loop {
        let reply = match action {
            Action::Continue => None,
            Action::Compute(c) => Some(Reply::Number(compute(c))),
            Action::Parse(text) => {
                Some(Reply::Number(Number { bits: text.parse::<f64>().unwrap().to_bits() }))
            }
            Action::Format(numbers) => Some(Reply::Texts(
                numbers.iter().map(|n| f64::from_bits(n.bits).to_string()).collect(),
            )),
            Action::Run(cmd) => {
                commands_run.push(cmd.clone());
                Some(Reply::Output(run_cmd(&cmd)))
            }
            Action::Done(results) => return results,
            Action::Failed(e) => panic!("{}", e.to_string()),
        };
        action = evaluator.step(reply);
    }
}

fn assert_expr(expr: &str, expected: Symbol) {
    let mut commands_run = vec![];
    let evaluation = eval_expr(expr, &mut commands_run);
    let symbol = evaluation.last().unwrap().as_ref().unwrap();
    assert_eq!(&expected, symbol);
}

fn string(value: &str) -> Symbol {
    Symbol::String(StringSymbol::new(value.to_string()))
}

#[test]
fn scripts() {
    assert_expr(
        r#"path = "./data/aviation/bland/"
output=ls $path | grep '..tmp'
output"#,
        string("gear.tmp\n"),
    );

    assert_expr(
        r#"x = "foo"
echo "$x""#,
        string("foo\n"),
    );
    assert_expr("echo '# $FOOBAR'", string("# $FOOBAR\n"));
    assert_expr("echo 'foo'; echo 'bar'", string("foo\nbar\n"));
    assert_expr("1 > 0 && echo 'foo'", string("foo\n"));
}

#[test]
fn command_yields_its_output() {
    let mut commands_run = vec![];
    let evaluation = eval_expr("echo 'x'", &mut commands_run);
    assert_eq!(commands_run, vec!["echo 'x'".to_string()]);
    match evaluation.last().unwrap().as_ref().unwrap() {
        Symbol::String(s) => assert!(s.value.ends_with("x\n")),
        other => panic!("{:?}", other),
    }
}

#[test]
fn short_circuit_runs_no_command() {
    let mut commands_run = vec![];
    let evaluation = eval_expr("false && echo 'x'", &mut commands_run);
    assert_eq!(evaluation.last().unwrap().as_ref().unwrap(), &Symbol::Boolean(false));
    assert!(commands_run.is_empty());
    let evaluation = eval_expr("true || echo 'x'", &mut commands_run);
    assert_eq!(evaluation.last().unwrap().as_ref().unwrap(), &Symbol::Boolean(true));
    assert!(commands_run.is_empty());
    eval_expr("true && echo 'x'", &mut commands_run);
    assert_eq!(commands_run, vec!["echo 'x'".to_string()]);
}

#[test]
fn command_line_writes_values_out() {
    let mut commands_run = vec![];
    eval_expr("x = [1, \"a\"]\necho 1.50 002 $x", &mut commands_run);
    assert_eq!(commands_run, vec!["echo 1.5 2 [\"1\", \"a\"]".to_string()]);
}
