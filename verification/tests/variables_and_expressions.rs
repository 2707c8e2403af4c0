use ngal::arith::{condition_readings, parse_arith, CmpOp, Expr};
use ngal::variables::Variables;

fn num(e: &Expr) -> String {
    match e {
        Expr::Num(t) => t.clone(),
        _ => panic!("not a number"),
    }
}

#[test]
fn set_then_get_gives_the_value() {
    let mut v = Variables::new();
    assert!(v.get("name").is_none());
    v.set("name", "Jiahao");
    v.set("score", "10");
    assert_eq!(v.get("name").map(|s| s.as_str()), Some("Jiahao"));
    v.set("name", "Alice");
    assert_eq!(v.get("name").map(|s| s.as_str()), Some("Alice"));
    assert_eq!(v.get("score").map(|s| s.as_str()), Some("10"));
}

#[test]
fn serialize_then_deserialize_round_trip() {
    let mut v = Variables::new();
    v.set("a", "1");
    v.set("b", "two");
    let data = v.serialize();
    assert_eq!(data, vec![("a".to_string(), "1".to_string()), ("b".to_string(), "two".to_string())]);
    let mut w = Variables::new();
    w.set("old", "gone");
    w.deserialize(data);
    assert_eq!(w.get("a").map(|s| s.as_str()), Some("1"));
    assert_eq!(w.get("b").map(|s| s.as_str()), Some("two"));
    assert!(w.get("old").is_none());
}

#[test]
fn deserialize_keeps_the_later_of_two_pairs() {
    let mut w = Variables::new();
    w.deserialize(vec![("k".to_string(), "1".to_string()), ("k".to_string(), "2".to_string())]);
    assert_eq!(w.get("k").map(|s| s.as_str()), Some("2"));
    assert_eq!(w.serialize().len(), 1);
}

#[test]
fn interpolate_fills_known_placeholders() {
    let mut v = Variables::new();
    v.set("name", "Jiahao");
    assert_eq!(v.interpolate("My name is {name}! {name}"), "My name is Jiahao! Jiahao");
    assert_eq!(v.interpolate("{unknown} stays"), "{unknown} stays");
    assert_eq!(v.interpolate("no braces at all"), "no braces at all");
    assert_eq!(v.interpolate("{} and {{name}}"), "{} and {Jiahao}");
}

#[test]
fn substitute_replaces_braced_and_bare_names() {
    let mut v = Variables::new();
    v.set("a", "13");
    v.set("ab", "78");
    let rendered = vec!["13".to_string(), "78".to_string()];
    assert_eq!(v.substitute("a + ab", &rendered), "13 + 78");
    assert_eq!(v.substitute("{a}*2", &rendered), "13*2");
    assert_eq!(v.substitute("a_1 + cab", &rendered), "a_1 + cab");
}

#[test]
fn parse_arith_builds_the_tree() {
    match parse_arith("1 + 2 * 3").unwrap() {
        Expr::Add(l, r) => {
            assert_eq!(num(&l), "1");
            match *r {
                Expr::Mul(a, b) => {
                    assert_eq!(num(&a), "2");
                    assert_eq!(num(&b), "3");
                }
                _ => panic!("expected a product"),
            }
        }
        _ => panic!("expected a sum"),
    }
    match parse_arith("(1-2)/4").unwrap() {
        Expr::Div(l, r) => {
            assert!(matches!(*l, Expr::Sub(_, _)));
            assert_eq!(num(&r), "4");
        }
        _ => panic!("expected a quotient"),
    }
    assert_eq!(num(&parse_arith(" 3.5 ").unwrap()), "3.5");
}

#[test]
fn parse_arith_rejects_what_is_not_arithmetic() {
    assert!(parse_arith("").is_none());
    assert!(parse_arith("   ").is_none());
    assert!(parse_arith("abc").is_none());
    assert!(parse_arith("(1+2").is_none());
    assert!(parse_arith("1.2.3").is_none());
    assert!(parse_arith("+1").is_none());
}

#[test]
fn parse_arith_ignores_a_trailing_rest() {
    assert_eq!(num(&parse_arith("7)").unwrap()), "7");
}

#[test]
fn condition_readings_follow_the_operator_order() {
    let r = condition_readings("score >= 10");
    assert_eq!(r.len(), 2);
    assert!(matches!(r[0].0, CmpOp::Ge));
    assert_eq!((r[0].1.as_str(), r[0].2.as_str()), ("score", "10"));
    assert!(matches!(r[1].0, CmpOp::Gt));
    assert_eq!((r[1].1.as_str(), r[1].2.as_str()), ("score", "= 10"));
    let e = condition_readings("a == b");
    assert_eq!(e.len(), 1);
    assert!(matches!(e[0].0, CmpOp::Eq));
    assert!(condition_readings("no operator").is_empty());
}

#[test]
fn default_variables_are_empty() {
    let v = Variables::default();
    assert!(v.serialize().is_empty());
    assert!(v.get("anything").is_none());
}
