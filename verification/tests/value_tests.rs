use sod::common::utils::{bytes_to_string, get_argv, i32_to_string, str_below, usize_to_string};
use sod::error::ErrorKind;
use sod::lexer::token::TokenType;
use sod::symbol::number::Number;
use sod::symbol::object::get_global_vars;
use sod::symbol::operators::{
    compare_relational, eval_binary_expression, is_comparative_operator, Arithmetic, Outcome,
};
use sod::symbol::symbol::{List, Object, Range, StringSymbol, Symbol};

fn number(value: f64) -> Symbol {
    Symbol::Number(Number { bits: value.to_bits() })
}

fn string(value: &str) -> Symbol {
    Symbol::String(StringSymbol::new(value.to_string()))
}

fn list(items: Vec<Symbol>) -> Symbol {
    Symbol::List(List::from(items))
}

fn table(numbers: &[f64]) -> Vec<(Number, String)> {
    numbers.iter().map(|n| (Number { bits: n.to_bits() }, n.to_string())).collect()
}

#[test]
fn number_of_an_unsigned_integer_is_the_nearest_double() {
    let samples: Vec<usize> = vec![
        0,
        1,
        2,
        3,
        7,
        1023,
        1 << 31,
        (1 << 52) + 1,
        1 << 53,
        (1 << 53) + 1,
        (1 << 53) + 2,
        (1 << 53) + 3,
        (1 << 54) + 2,
        (1 << 54) + 6,
        (1 << 60) + (1 << 7),
        (1 << 60) + (1 << 7) + 1,
        usize::MAX - 1024,
        usize::MAX,
    ];
    for n in samples {
        assert_eq!(Number::from_usize(n).bits, (n as f64).to_bits(), "{}", n);
    }
}

#[test]
fn number_of_a_signed_integer_is_exact() {
    for n in [0, 1, -1, 7, -7, 4096, i32::MAX, i32::MIN, i32::MIN + 1] {
        assert_eq!(Number::from_int(n).bits, (n as f64).to_bits(), "{}", n);
    }
}

#[test]
fn number_as_index_rounds_towards_zero_and_saturates() {
    let samples: Vec<f64> = vec![
        0.0,
        -0.0,
        0.5,
        0.999,
        1.0,
        3.99,
        -1.5,
        1e9,
        9007199254740992.0,
        9007199254740993.0,
        1.8446744073709552e19,
        1e30,
        f64::INFINITY,
        f64::NEG_INFINITY,
        f64::NAN,
        f64::MIN_POSITIVE,
        5e-324,
    ];
    for x in samples {
        let n = Number { bits: x.to_bits() };
        assert_eq!(n.to_index(), x as usize, "{}", x);
        assert_eq!(n.to_int(), x as i32, "{}", x);
    }
    for x in [2147483647.0, 2147483648.0, -2147483648.0, -2147483649.0, -7.9, 2147483647.5] {
        assert_eq!(Number { bits: f64::to_bits(x) }.to_int(), x as i32, "{}", x);
    }
}

#[test]
fn numbers_compare_as_doubles_do() {
    let samples: Vec<f64> = vec![
        0.0,
        -0.0,
        1.0,
        -1.0,
        1.5,
        -1.5,
        5e-324,
        -5e-324,
        1e300,
        -1e300,
        f64::INFINITY,
        f64::NEG_INFINITY,
        f64::NAN,
    ];
    for &a in &samples {
        let x = Number { bits: a.to_bits() };
        assert_eq!(x.is_nan(), a.is_nan());
        assert_eq!(x.is_zero(), a == 0.0);
        assert_eq!(x.negate().bits, (-a).to_bits());
        for &b in &samples {
            let y = Number { bits: b.to_bits() };
            assert_eq!(x.equals(y), a == b, "{} == {}", a, b);
            assert_eq!(x.less_than(y), a < b, "{} < {}", a, b);
        }
    }
}

#[test]
fn integers_are_written_in_decimal() {
    assert_eq!(usize_to_string(0), "0");
    assert_eq!(usize_to_string(7), "7");
    assert_eq!(usize_to_string(1780), "1780");
    assert_eq!(usize_to_string(usize::MAX), usize::MAX.to_string());
    assert_eq!(i32_to_string(-1), "-1");
    assert_eq!(i32_to_string(i32::MIN), "-2147483648");
    assert_eq!(i32_to_string(i32::MAX), "2147483647");
}

#[test]
fn bytes_become_text() {
    assert_eq!(bytes_to_string("héllo".as_bytes().to_vec()), "héllo");
    assert_eq!(get_argv(vec!["interp".to_string(), "a".to_string()]), vec!["a".to_string()]);
}

#[test]
fn strings_are_ordered_by_their_bytes() {
    for (a, b) in [("a", "b"), ("a", "ab"), ("", "a"), ("b", "a"), ("a", "a"), ("é", "z"), ("Z", "a")] {
        assert_eq!(str_below(a, b), a < b, "{} < {}", a, b);
    }
}

#[test]
fn truthiness() {
    assert!(number(1.0).is_truthy());
    assert!(number(f64::NAN).is_truthy());
    assert!(!number(0.0).is_truthy());
    assert!(!number(-0.0).is_truthy());
    assert!(Symbol::Boolean(true).is_truthy());
    assert!(!Symbol::Boolean(false).is_truthy());
    assert!(string("a").is_truthy());
    assert!(!string("").is_truthy());
    assert!(list(vec![]).is_truthy());
    assert!(Symbol::Range(Range::new(0, 0, None)).is_truthy());
    assert!(Symbol::Object(Object::from(vec![])).is_truthy());
    assert!(!Symbol::Nothing.is_truthy());
}

#[test]
fn kinds_have_names() {
    assert_eq!(number(1.0).kind(), "number");
    assert_eq!(Symbol::Boolean(true).kind(), "boolean");
    assert_eq!(string("a").kind(), "string");
    assert_eq!(list(vec![]).kind(), "list");
    assert_eq!(Symbol::Nothing.kind(), "none");
    assert_eq!(Symbol::Range(Range::new(0, 1, None)).kind(), "range");
    assert_eq!(Symbol::Object(Object::from(vec![])).kind(), "object");
}

#[test]
fn equality_of_values() {
    assert!(number(1.0).equals(&number(1.0)));
    assert!(number(0.0).equals(&number(-0.0)));
    assert!(!number(f64::NAN).equals(&number(f64::NAN)));
    assert!(!number(1.0).equals(&string("1")));
    assert!(string("a").equals(&string("a")));
    assert!(Symbol::Nothing.equals(&Symbol::Nothing));
    assert!(list(vec![number(1.0), string("a")]).equals(&list(vec![number(1.0), string("a")])));
    assert!(!list(vec![number(1.0)]).equals(&list(vec![number(1.0), number(2.0)])));
    assert!(!list(vec![number(1.0)]).equals(&list(vec![number(2.0)])));
    let range = Symbol::Range(Range::new(1, 3, None));
    assert!(!range.equals(&range));
    let a = Symbol::Object(Object::from(vec![("x", number(1.0)), ("y", string("b"))]));
    let b = Symbol::Object(Object::from(vec![("y", string("b")), ("x", number(1.0))]));
    let c = Symbol::Object(Object::from(vec![("x", number(2.0)), ("y", string("b"))]));
    assert!(a.equals(&b));
    assert!(!a.equals(&c));
    assert!(a == b);
}

#[test]
fn string_methods() {
    let mut s = StringSymbol::new("abc".to_string());
    assert_eq!(s.len(), number(3.0));
    assert_eq!(s.get(1).unwrap(), string("b"));
    assert_eq!(s.get(3).unwrap_err().kind, ErrorKind::Bounds);
    assert_eq!(s.pop(), Some(string("c")));
    assert_eq!(s.value, "ab");
    s.insert(vec![number(0.0), string("z")]).unwrap();
    assert_eq!(s.value, "zab");
    s.insert(vec![number(3.0), string("!")]).unwrap();
    assert_eq!(s.value, "zab!");
    assert_eq!(s.insert(vec![number(5.0), string("z")]).unwrap_err().kind, ErrorKind::Bounds);
    assert_eq!(s.insert(vec![string("0"), string("z")]).unwrap_err().kind, ErrorKind::Type);
    assert_eq!(s.insert(vec![number(0.0), number(1.0)]).unwrap_err().kind, ErrorKind::Type);
    assert_eq!(s.insert(vec![number(0.0)]).unwrap_err().kind, ErrorKind::Arity);
    assert_eq!(s.remove(vec![number(1.0)]).unwrap(), string("a"));
    assert_eq!(s.value, "zb!");
    assert_eq!(s.remove(vec![number(3.0)]).unwrap_err().kind, ErrorKind::Bounds);
    assert_eq!(s.remove(vec![]).unwrap_err().kind, ErrorKind::Arity);
    assert_eq!(s.push(vec![string("bar")]).unwrap(), number(6.0));
    assert_eq!(s.value, "zb!bar");
    assert_eq!(s.push(vec![number(1.0)]).unwrap_err().kind, ErrorKind::Type);
    assert_eq!(s.contains(vec![string("!b")]).unwrap(), Symbol::Boolean(true));
    assert_eq!(s.contains(vec![string("ab")]).unwrap(), Symbol::Boolean(false));
    assert_eq!(s.contains(vec![number(1.0)]).unwrap_err().kind, ErrorKind::Type);
    let padded = StringSymbol::new(" \t a b \n".to_string());
    assert_eq!(padded.trim(), string("a b"));
    assert_eq!(padded.value, " \t a b \n");
    let mut empty = StringSymbol::new(String::new());
    assert_eq!(empty.pop(), None);
}

#[test]
fn string_offsets_are_bytes_on_character_boundaries() {
    let mut s = StringSymbol::new("héllo".to_string());
    assert_eq!(s.len(), number(6.0));
    assert_eq!(s.get(1).unwrap(), string("é"));
    assert_eq!(s.insert(vec![number(2.0), string("x")]).unwrap_err().kind, ErrorKind::Bounds);
    assert_eq!(s.remove(vec![number(2.0)]).unwrap_err().kind, ErrorKind::Bounds);
    assert_eq!(s.remove(vec![number(1.0)]).unwrap(), string("é"));
    assert_eq!(s.value, "hllo");
    s.insert(vec![number(1.0), string("é")]).unwrap();
    assert_eq!(s.value, "héllo");
}

#[test]
fn string_methods_by_name() {
    let mut s = string("foo");
    assert_eq!(s.call("len", vec![]).unwrap(), Some(number(3.0)));
    assert_eq!(s.call("push", vec![string("bar")]).unwrap(), Some(number(6.0)));
    assert_eq!(s.call("insert", vec![number(0.0), string("z")]).unwrap(), None);
    assert_eq!(s.call("remove", vec![number(0.0)]).unwrap(), Some(string("z")));
    assert_eq!(s.call("pop", vec![]).unwrap(), Some(string("r")));
    assert_eq!(s.call("trim", vec![]).unwrap(), Some(string("fooba")));
    assert_eq!(s.call("contains", vec![string("oob")]).unwrap(), Some(Symbol::Boolean(true)));
    assert_eq!(s.call("reverse", vec![]).unwrap_err().kind, ErrorKind::Type);
    assert_eq!(s, string("fooba"));
    assert_eq!(number(1.0).call("len", vec![]).unwrap_err().kind, ErrorKind::Type);
}

#[test]
fn characters_of_a_string_one_by_one() {
    let mut it = StringSymbol::new("hé!".to_string()).into_iter();
    assert_eq!(it.next(), Some(string("h")));
    assert_eq!(it.next(), Some(string("é")));
    assert_eq!(it.next(), Some(string("!")));
    assert_eq!(it.next(), None);
    assert_eq!(it.next(), None);
}

#[test]
fn list_methods() {
    let mut l = List::from(vec![number(1.0), number(2.0), number(3.0)]);
    assert_eq!(l.len(), number(3.0));
    assert_eq!(l.get(1).unwrap(), &number(2.0));
    assert_eq!(l.get(3).unwrap_err().kind, ErrorKind::Bounds);
    *l.get_mut(0).unwrap() = string("a");
    assert_eq!(l.get(0).unwrap(), &string("a"));
    assert_eq!(l.get_mut(3).unwrap_err().kind, ErrorKind::Bounds);
    assert_eq!(l.remove(vec![number(1.0)]).unwrap(), number(2.0));
    assert_eq!(l.remove(vec![number(2.0)]).unwrap_err().kind, ErrorKind::Bounds);
    assert_eq!(l.remove(vec![string("x")]).unwrap_err().kind, ErrorKind::Type);
    assert_eq!(l.remove(vec![]).unwrap_err().kind, ErrorKind::Arity);
    l.insert(vec![number(2.0), number(9.0)]).unwrap();
    assert_eq!(l.items, vec![string("a"), number(3.0), number(9.0)]);
    assert_eq!(l.insert(vec![number(4.0), number(9.0)]).unwrap_err().kind, ErrorKind::Bounds);
    assert_eq!(l.insert(vec![number(0.0)]).unwrap_err().kind, ErrorKind::Arity);
    assert_eq!(l.push(vec![string("z")]).unwrap(), number(4.0));
    assert_eq!(l.push(vec![]).unwrap_err().kind, ErrorKind::Arity);
    assert_eq!(l.contains(vec![number(9.0)]).unwrap(), Symbol::Boolean(true));
    assert_eq!(l.contains(vec![number(8.0)]).unwrap(), Symbol::Boolean(false));
    assert_eq!(l.pop(), Some(string("z")));
    assert_eq!(l.call("len", vec![]).unwrap(), Some(number(3.0)));
    assert_eq!(l.call("insert", vec![number(0.0), number(0.0)]).unwrap(), None);
    assert_eq!(l.call("sort", vec![]).unwrap_err().kind, ErrorKind::Type);
    let mut empty = List::from(vec![]);
    assert_eq!(empty.pop(), None);
    assert_eq!(empty.call("pop", vec![]).unwrap(), None);
}

#[test]
fn item_of_a_value_to_write_to() {
    let mut l = list(vec![number(5.0)]);
    *l.get_index_mut(0).unwrap() = number(1.0);
    assert_eq!(l, list(vec![number(1.0)]));
    assert_eq!(l.get_index_mut(1).unwrap_err().kind, ErrorKind::Bounds);
    assert_eq!(string("a").get_index_mut(0).unwrap_err().kind, ErrorKind::Unsupported);
    assert_eq!(number(1.0).get_index_mut(0).unwrap_err().kind, ErrorKind::Type);
}

#[test]
fn range_yields_its_values() {
    let mut r = Range::new(1, 4, None);
    assert_eq!(r.increment, 1);
    assert_eq!(r.next(), Some(number(1.0)));
    assert_eq!(r.next(), Some(number(2.0)));
    assert_eq!(r.next(), Some(number(3.0)));
    assert_eq!(r.next(), None);
    assert_eq!(r.next(), None);
    let mut down = Range::new(4, 1, Some(-2));
    assert_eq!(down.next(), Some(number(4.0)));
    assert_eq!(down.next(), Some(number(2.0)));
    assert_eq!(down.next(), None);
    let mut none = Range::new(3, 1, None);
    assert_eq!(none.next(), None);
    let mut far = Range::new(i32::MAX - 1, i32::MAX, Some(5));
    assert_eq!(far.next(), Some(number((i32::MAX - 1) as f64)));
    assert_eq!(far.next(), None);
    let mut low = Range::new(i32::MIN + 1, i32::MIN, Some(-5));
    assert_eq!(low.next(), Some(number((i32::MIN + 1) as f64)));
    assert_eq!(low.next(), None);
}

#[test]
fn range_by_one_yields_the_difference() {
    for (s, e) in [(1, 3), (0, 0), (5, 2), (-3, 4), (-5, -5)] {
        let mut r = Range::new(s, e, None);
        let mut count = 0;
        while r.next().is_some() {
            count += 1;
        }
        assert_eq!(count, std::cmp::max(0, e - s));
    }
}

#[test]
fn object_properties() {
    let mut o = Object::from(vec![("a", number(1.0)), ("b", number(2.0)), ("a", number(3.0))]);
    assert_eq!(o.mapping.len(), 2);
    assert_eq!(o.get("a"), number(3.0));
    assert_eq!(o.get("b"), number(2.0));
    assert_eq!(o.get("c"), Symbol::Nothing);
    assert_eq!(o.find("b"), Some(1));
    assert_eq!(o.find("c"), None);
    *o.get_mut("b").unwrap() = string("x");
    assert_eq!(o.get("b"), string("x"));
    assert!(o.get_mut("c").is_none());
    o.set("c", Symbol::Boolean(true));
    assert_eq!(o.get("c"), Symbol::Boolean(true));
}

#[test]
fn global_variables() {
    let globals = get_global_vars(vec!["a".to_string(), "b".to_string()]);
    assert_eq!(globals.len(), 1);
    assert_eq!(globals[0].0, "process");
    match &globals[0].1 {
        Symbol::Object(o) => assert_eq!(o.get("argv"), list(vec![string("a"), string("b")])),
        other => panic!("{:?}", other),
    }
}

#[test]
fn binary_operators_on_values() {
    let value = |l: &Symbol, op: TokenType, r: &Symbol| match eval_binary_expression(l, &op, r).unwrap() {
        Outcome::Value(v) => v,
        other => panic!("{:?}", other),
    };
    match eval_binary_expression(&number(1.0), &TokenType::Plus, &number(2.0)).unwrap() {
        Outcome::Compute(c) => {
            assert_eq!(c.operation, Arithmetic::Add);
            assert_eq!(c.left.bits, 1.0f64.to_bits());
            assert_eq!(c.right.bits, 2.0f64.to_bits());
        }
        other => panic!("{:?}", other),
    }
    for (op, operation) in [
        (TokenType::Minus, Arithmetic::Subtract),
        (TokenType::Asterisk, Arithmetic::Multiply),
        (TokenType::ForwardSlash, Arithmetic::Divide),
        (TokenType::Carat, Arithmetic::Power),
    ] {
        match eval_binary_expression(&number(1.0), &op, &number(2.0)).unwrap() {
            Outcome::Compute(c) => assert_eq!(c.operation, operation),
            other => panic!("{:?}", other),
        }
        assert_eq!(
            eval_binary_expression(&string("a"), &op, &string("b")).unwrap_err().kind,
            ErrorKind::Type
        );
    }
    assert_eq!(value(&string("foo"), TokenType::Plus, &string("bar")), string("foobar"));
    assert_eq!(
        eval_binary_expression(&string("a"), &TokenType::Plus, &number(1.0)).unwrap_err().kind,
        ErrorKind::Type
    );
    assert_eq!(value(&number(1.0), TokenType::DoubleEquals, &number(1.0)), Symbol::Boolean(true));
    assert_eq!(value(&number(1.0), TokenType::NotEquals, &string("1")), Symbol::Boolean(true));
    assert_eq!(value(&number(0.0), TokenType::And, &number(5.0)), number(0.0));
    assert_eq!(value(&number(0.0), TokenType::And, &string("r")), number(0.0));
    assert_eq!(value(&Symbol::Nothing, TokenType::And, &number(1.0)), Symbol::Nothing);
    assert_eq!(value(&number(2.0), TokenType::And, &string("r")), string("r"));
    assert_eq!(value(&string("l"), TokenType::And, &number(0.0)), number(0.0));
    assert_eq!(value(&number(0.0), TokenType::Or, &string("r")), string("r"));
    assert_eq!(value(&number(2.0), TokenType::Or, &string("r")), number(2.0));
    assert_eq!(value(&number(1.0), TokenType::LessThan, &number(2.0)), Symbol::Boolean(true));
    assert_eq!(value(&number(2.0), TokenType::Le, &number(2.0)), Symbol::Boolean(true));
    assert_eq!(value(&string("a"), TokenType::GreaterThan, &string("b")), Symbol::Boolean(false));
    assert_eq!(value(&string("b"), TokenType::Ge, &string("b")), Symbol::Boolean(true));
    assert_eq!(
        value(&Symbol::Boolean(false), TokenType::LessThan, &Symbol::Boolean(true)),
        Symbol::Boolean(true)
    );
    assert_eq!(
        eval_binary_expression(&number(1.0), &TokenType::LessThan, &string("a")).unwrap_err().kind,
        ErrorKind::Type
    );
    assert_eq!(
        eval_binary_expression(&number(1.0), &TokenType::Comma, &number(1.0)).unwrap_err().kind,
        ErrorKind::Type
    );
    assert_eq!(
        compare_relational(&number(1.0), &TokenType::Plus, &number(1.0)).unwrap_err().kind,
        ErrorKind::Type
    );
    assert!(is_comparative_operator(&TokenType::And));
    assert!(is_comparative_operator(&TokenType::Le));
    assert!(!is_comparative_operator(&TokenType::Plus));
}

#[test]
fn length_of_two_strings_put_together() {
    for (a, b) in [("foo", "bar"), ("", "x"), ("hé", "λλ"), ("", "")] {
        let joined = match eval_binary_expression(&string(a), &TokenType::Plus, &string(b)).unwrap() {
            Outcome::Value(Symbol::String(s)) => s,
            other => panic!("{:?}", other),
        };
        assert_eq!(joined.len(), number((a.len() + b.len()) as f64));
    }
}

#[test]
fn values_are_written_out() {
    let t = table(&[1.0, 2.5]);
    assert_eq!(number(1.0).to_string_with(&t), "1");
    assert_eq!(number(2.5).to_string_with(&t), "2.5");
    assert_eq!(number(3.0).to_string_with(&t), "");
    assert_eq!(Symbol::Boolean(true).to_string_with(&t), "true");
    assert_eq!(Symbol::Boolean(false).to_string_with(&t), "false");
    assert_eq!(string("a b").to_string_with(&t), "a b");
    assert_eq!(Symbol::Nothing.to_string_with(&t), "none");
    assert_eq!(Symbol::Range(Range::new(4, 1, Some(-1))).to_string_with(&t), "4..1..-1");
    assert_eq!(
        list(vec![number(1.0), string("a\n\"b\""), list(vec![number(2.5)])]).to_string_with(&t),
        "[\"1\", \"a\\n\\\"b\\\"\", \"[\\\"2.5\\\"]\"]"
    );
    assert_eq!(list(vec![]).to_string_with(&t), "[]");
    assert_eq!(
        Symbol::Object(Object::from(vec![("x", number(1.0)), ("y", string("b"))])).to_string_with(&t),
        "{\"x\": 1, \"y\": b}"
    );
    let value = list(vec![number(1.0), list(vec![string("s"), number(2.5)]), number(1.0)]);
    let numbers: Vec<u64> = value.numbers().iter().map(|n| n.bits).collect();
    assert_eq!(numbers, vec![1.0f64.to_bits(), 2.5f64.to_bits(), 1.0f64.to_bits()]);
}
