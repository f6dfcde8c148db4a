use ua_client::node_id::{Identifier, NodeId};
use ua_client::parse::{parse_int, parse_scalar, parse_variant, IntError, ScalarType, ScalarValue, VariantInput};

fn dt(n: u32) -> NodeId {
    NodeId::numeric(0, n)
}

fn scalar(input: &str, data_type: u32) -> Result<ScalarValue, String> {
    match parse_variant(input, &dt(data_type), -1)? {
        VariantInput::Scalar(v) => Ok(v),
        VariantInput::Array(..) => panic!("expected a scalar"),
    }
}

#[test]
fn int32_is_read_after_trimming() {
    assert!(matches!(scalar("  42 ", 6), Ok(ScalarValue::Int32(42))));
    assert!(matches!(scalar("-7", 4), Ok(ScalarValue::Int16(-7))));
    assert!(matches!(scalar("+5", 3), Ok(ScalarValue::Byte(5))));
}

#[test]
fn integer_limits_are_the_types_limits() {
    assert!(matches!(scalar("-128", 2), Ok(ScalarValue::SByte(-128))));
    assert!(matches!(scalar("127", 2), Ok(ScalarValue::SByte(127))));
    assert_eq!(scalar("128", 2).err().unwrap(), "invalid SByte: number too large to fit in target type");
    assert_eq!(scalar("-129", 2).err().unwrap(), "invalid SByte: number too small to fit in target type");
    assert!(matches!(scalar("18446744073709551615", 9), Ok(ScalarValue::UInt64(u64::MAX))));
    assert!(matches!(scalar("-9223372036854775808", 8), Ok(ScalarValue::Int64(i64::MIN))));
}

#[test]
fn integer_errors_name_the_type_and_reason() {
    assert_eq!(scalar("300", 3).err().unwrap(), "invalid Byte: number too large to fit in target type");
    assert_eq!(scalar("abc", 6).err().unwrap(), "invalid Int32: invalid digit found in string");
    assert_eq!(scalar("-1", 7).err().unwrap(), "invalid UInt32: invalid digit found in string");
    assert_eq!(scalar("-", 6).err().unwrap(), "invalid Int32: invalid digit found in string");
    assert_eq!(scalar("   ", 6).err().unwrap(), "value required");
}

#[test]
fn int_parse_agrees_with_std() {
    for text in ["0", "17", "-17", "+17", "", "+", "-", "1x", "99999999999", "-99999999999", "007"] {
        let cs: Vec<char> = text.chars().collect();
        let ours = parse_int(&cs, i32::MIN as i128, i32::MAX as i128);
        let std = text.parse::<i32>();
        match (ours, std) {
            (Ok(a), Ok(b)) => assert_eq!(a, b as i128, "{text}"),
            (Err(e), Err(f)) => {
                let kind = match f.kind() {
                    std::num::IntErrorKind::Empty => IntError::Empty,
                    std::num::IntErrorKind::InvalidDigit => IntError::InvalidDigit,
                    std::num::IntErrorKind::PosOverflow => IntError::PosOverflow,
                    std::num::IntErrorKind::NegOverflow => IntError::NegOverflow,
                    _ => panic!("unexpected kind"),
                };
                assert_eq!(e, kind, "{text}");
            }
            (a, b) => panic!("{text}: {a:?} vs {b:?}"),
        }
    }
}

#[test]
fn integer_text_reads_back() {
    for n in [-32768i128, -1, 0, 1, 9, 10, 99, 100, 32767] {
        let cs: Vec<char> = n.to_string().chars().collect();
        assert_eq!(parse_int(&cs, -32768, 32767), Ok(n));
    }
}

#[test]
fn booleans_are_exactly_true_or_false() {
    assert!(matches!(scalar("true", 1), Ok(ScalarValue::Boolean(true))));
    assert!(matches!(scalar(" false ", 1), Ok(ScalarValue::Boolean(false))));
    assert_eq!(scalar("True", 1).err().unwrap(), "invalid Boolean: provided string was not `true` or `false`");
}

#[test]
fn float_literals_agree_with_std() {
    for text in ["1.5", "1e3", "-2.5E-3", ".5", "5.", "inf", "-Infinity", "NaN", "+1", "1e", ".", "e5", "1.2.3", "abc", "1_0"] {
        let ours = scalar(text, 10).is_ok();
        let std = text.parse::<f32>().is_ok();
        assert_eq!(ours, std, "{text}");
        assert_eq!(scalar(text, 11).is_ok(), text.parse::<f64>().is_ok(), "{text}");
    }
    assert_eq!(scalar("1e", 11).err().unwrap(), "invalid Double: invalid float literal");
    match scalar("2.5", 10) {
        Ok(ScalarValue::Float(t)) => assert_eq!(t, "2.5"),
        _ => panic!("expected a float"),
    }
}

#[test]
fn strings_are_taken_as_typed_after_trimming() {
    match scalar("  hello world ", 12) {
        Ok(ScalarValue::String(s)) => assert_eq!(s, "hello world"),
        _ => panic!("expected a string"),
    }
    match parse_scalar("", ScalarType::String) {
        Ok(ScalarValue::String(s)) => assert_eq!(s, ""),
        _ => panic!("expected a string"),
    }
}

#[test]
fn node_ids_are_read_by_the_stack() {
    match scalar("ns=2;s=Foo", 17) {
        Ok(ScalarValue::NodeId(n)) => {
            assert_eq!(n.namespace, 2);
            assert!(matches!(n.identifier, Identifier::String(ref s) if s == "Foo"));
        }
        _ => panic!("expected a node id"),
    }
    match scalar("i=2253", 17) {
        Ok(ScalarValue::NodeId(n)) => assert!(n.same(&NodeId::numeric(0, 2253))),
        _ => panic!("expected a node id"),
    }
    assert!(scalar("zzz", 17).err().unwrap().starts_with("invalid NodeId: "));
}

#[test]
fn guids_are_read_by_the_stack() {
    let text = "72962B91-FA75-4AE6-8D28-B404DC7DAF63";
    match scalar(text, 14) {
        Ok(ScalarValue::Guid(g)) => {
            let id = NodeId { namespace: 0, identifier: Identifier::Guid(g) };
            assert_eq!(id.to_text(), "g=72962b91-fa75-4ae6-8d28-b404dc7daf63");
        }
        _ => panic!("expected a guid"),
    }
    assert!(scalar("not-a-guid", 14).err().unwrap().starts_with("invalid Guid: "));
}

#[test]
fn guid_text_reverses_the_first_three_fields() {
    let id = NodeId { namespace: 3, identifier: Identifier::Guid(0x0f0e_0d0c_0b0a_0908_0706_0504_0302_0100) };
    assert_eq!(id.to_text(), "ns=3;g=03020100-0504-0706-0809-0a0b0c0d0e0f");
}

#[test]
fn unsupported_types_are_refused() {
    assert_eq!(parse_variant("1", &dt(13), -1).err().unwrap(), "unsupported data type: i=13");
    assert_eq!(parse_variant("1", &NodeId::numeric(2, 6), -1).err().unwrap(), "unsupported data type: ns=2;i=6");
}

#[test]
fn arrays_take_comma_separated_items() {
    match parse_variant(" [1, 2,3] ", &dt(6), 1) {
        Ok(VariantInput::Array(ScalarType::Int32, items)) => {
            let values: Vec<i32> = items
                .iter()
                .map(|v| match v {
                    ScalarValue::Int32(n) => *n,
                    _ => panic!("expected Int32"),
                })
                .collect();
            assert_eq!(values, vec![1, 2, 3]);
        }
        _ => panic!("expected an array"),
    }
    for empty in ["", "[]", "  [[]]  "] {
        match parse_variant(empty, &dt(6), 1) {
            Ok(VariantInput::Array(_, items)) => assert!(items.is_empty(), "{empty}"),
            _ => panic!("expected an empty array"),
        }
    }
}

#[test]
fn array_errors_name_the_item() {
    assert_eq!(parse_variant("1,,2", &dt(6), 1).err().unwrap(), "item 1: value required");
    assert_eq!(parse_variant("1, x", &dt(6), 2).err().unwrap(), "item 1: invalid Int32: invalid digit found in string");
    match parse_variant("a, b", &dt(12), 1) {
        Ok(VariantInput::Array(ScalarType::String, items)) => assert_eq!(items.len(), 2),
        _ => panic!("expected a string array"),
    }
}
