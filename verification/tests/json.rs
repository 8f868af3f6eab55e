use wb_switch_core::json::{
    parse, parse_list, read_value, render, write_value, Json, Member, Real,
};

fn double(x: f64) -> Real {
    Real { bits: x.to_bits(), text: format!("{}", x) }
}

#[test]
fn texts_become_values() {
    assert_eq!(parse("null"), Ok(Json::Null));
    assert_eq!(parse(" true "), Ok(Json::Bool(true)));
    assert_eq!(parse("-9223372036854775808"), Ok(Json::Int(i64::MIN as i128)));
    assert_eq!(parse("18446744073709551615"), Ok(Json::Int(u64::MAX as i128)));
    assert_eq!(parse("1.5"), Ok(Json::Float(double(1.5))));
    assert_eq!(parse("1e3"), Ok(Json::Float(double(1000.0))));
    assert_eq!(parse(r#""你\n""#), Ok(Json::text("你\n")));
    assert_eq!(
        parse(r#"{"b":[],"a":{"c":1}}"#),
        Ok(Json::Object(vec![
            Member {
                key: "a".to_string(),
                value: Json::Object(vec![Member { key: "c".to_string(), value: Json::Int(1) }]),
            },
            Member { key: "b".to_string(), value: Json::Array(vec![]) },
        ]))
    );
    assert_eq!(parse("[1,]"), Err("trailing comma at line 1 column 4".to_string()));
    assert_eq!(parse_list("[1,null]"), Ok(vec![Json::Int(1), Json::Null]));
    assert!(parse_list("1").is_err());
}

#[test]
fn values_become_texts() {
    let text = r#"{"a":[1,-2,1.5,"x\n",null,true],"b":{}}"#;
    assert_eq!(render(&parse(text).unwrap()), text);
    assert_eq!(render(&Json::text("你\"")), r#""你\"""#);
}

#[test]
fn members_are_read_by_key() {
    let v = parse(r#"{"s":"x","i":-3,"b":false,"u":18446744073709551615,"f":2.0}"#).unwrap();
    assert_eq!(v.text_at("s"), "x");
    assert_eq!(v.text_at("i"), "");
    assert_eq!(v.int_at("i"), Some(-3));
    assert_eq!(v.int_at("u"), None);
    assert_eq!(v.int_at("f"), None);
    assert_eq!(v.bool_at("b"), Some(false));
    assert_eq!(v.bool_at("s"), None);
    assert_eq!(v.at("missing"), Json::Null);
    assert_eq!(v.get("u").unwrap().as_u64(), Some(u64::MAX));
    assert_eq!(v.get("i").unwrap().as_u64(), None);
    assert_eq!(v.get("i").unwrap().as_f64(), Some(double(-3.0)));
    assert_eq!(v.get("u").unwrap().as_f64(), Some(double(18446744073709551615.0)));
    assert_eq!(v.get("s").unwrap().as_f64(), None);
    assert_eq!(Json::Int(1).get("s"), None);
}

#[test]
fn a_member_set_again_replaces_the_first() {
    let v = Json::object().with("a", Json::Int(1)).with("b", Json::Int(2)).with("a", Json::Int(3));
    assert_eq!(v.get("a"), Some(&Json::Int(3)));
    assert_eq!(v.get("b"), Some(&Json::Int(2)));
    assert_eq!(render(&v), r#"{"a":3,"b":2}"#);
    let member = |key: &str, n| Member { key: key.to_string(), value: Json::Int(n) };
    let twice = Json::Object(vec![member("a", 1), member("b", 2), member("a", 3)]);
    assert_eq!(twice.get("a"), Some(&Json::Int(3)));
    assert_eq!(render(&twice), r#"{"a":3,"b":2}"#);
}

#[test]
fn doubles_are_ordered_as_their_values() {
    let sorted = [f64::NEG_INFINITY, -2.5, -0.5, 0.0, 1e-300, 0.5, 3.0, f64::INFINITY];
    for (i, a) in sorted.iter().enumerate() {
        for (j, b) in sorted.iter().enumerate() {
            assert_eq!(double(*a).less_than(&double(*b)), i < j);
        }
        assert_eq!(double(*a).is_positive(), *a > 0.0);
        assert_eq!(double(*a).is_finite(), a.is_finite());
    }
    assert!(!double(-0.0).less_than(&double(0.0)));
    assert!(!double(0.0).less_than(&double(-0.0)));
    assert!(!double(f64::NAN).less_than(&double(1.0)));
    assert!(!double(1.0).less_than(&double(f64::NAN)));
    assert!(!double(f64::NAN).is_positive());
    assert!(!double(f64::NAN).is_finite());
    assert_eq!(Real::zero(), double(0.0));
}

#[test]
fn values_of_the_json_crate_are_taken_and_given() {
    let text = r#"{"a":[1,-2,1.5,"x",null,true],"b":{}}"#;
    let outside: serde_json::Value = serde_json::from_str(text).unwrap();
    assert_eq!(read_value(&outside), parse(text).unwrap());
    assert_eq!(write_value(&parse(text).unwrap()), outside);
}
