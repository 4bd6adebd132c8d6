use conformance_tool::model::VariableDeclaration;
use conformance_tool::values::{config_contructor_parameters, get_value, parse_u64, AssignedVariable, ConstructorValue};

fn assigned(typ: &str, value: &str) -> AssignedVariable {
    AssignedVariable {
        variable_declaration: VariableDeclaration { name: "p".to_string(), typ: typ.to_string() },
        variable_value: value.to_string(),
    }
}

#[test]
fn address_is_decoded_to_twenty_bytes() {
    let v = get_value(&assigned("address", "0x00000000000000000000000000000000000000ff")).unwrap();
    let mut expected = vec![0u8; 20];
    expected[19] = 0xff;
    assert_eq!(v, ConstructorValue::Address(expected));
}

#[test]
fn address_without_prefix_is_decoded() {
    let v = get_value(&assigned("address", "0102030405060708090a0b0c0d0e0f1011121314")).unwrap();
    assert_eq!(v, ConstructorValue::Address((1u8..=20).collect()));
}

#[test]
fn bad_address_is_refused() {
    assert_eq!(
        get_value(&assigned("address", "0x12")),
        Err("Cannot convert value 0x12 for type address".to_string())
    );
}

#[test]
fn booleans() {
    assert_eq!(get_value(&assigned("bool", "true")), Ok(ConstructorValue::Bool(true)));
    assert_eq!(get_value(&assigned("bool", "false")), Ok(ConstructorValue::Bool(false)));
    assert_eq!(
        get_value(&assigned("bool", "True")),
        Err("Cannot convert value True for type bool".to_string())
    );
}

#[test]
fn strings_are_kept() {
    assert_eq!(get_value(&assigned("string", "héllo")), Ok(ConstructorValue::String("héllo".to_string())));
}

#[test]
fn fixed_bytes_are_the_utf8_bytes() {
    for typ in ["bytes8", "bytes32", "bytes64", "bytes1024"] {
        assert_eq!(get_value(&assigned(typ, "aé")), Ok(ConstructorValue::FixedBytes(vec![0x61, 0xc3, 0xa9])));
    }
}

#[test]
fn unsigned_integers() {
    assert_eq!(get_value(&assigned("uint256", "42")), Ok(ConstructorValue::Uint(42)));
    assert_eq!(get_value(&assigned("uint256", "+7")), Ok(ConstructorValue::Uint(7)));
    assert_eq!(
        get_value(&assigned("uint256", "18446744073709551615")),
        Ok(ConstructorValue::Uint(u64::MAX))
    );
    assert_eq!(
        get_value(&assigned("uint256", "-1")),
        Err("Cannot convert value -1 for type uint256".to_string())
    );
}

#[test]
fn decimal_reading_agrees_with_std() {
    for s in ["", "+", "-", "0", "007", "+0", "12a", " 1", "18446744073709551615", "18446744073709551616", "99999999999999999999", "-0"] {
        assert_eq!(parse_u64(s), s.parse::<u64>().ok(), "{}", s);
    }
}

#[test]
fn unknown_type_is_refused() {
    assert_eq!(get_value(&assigned("int8", "1")), Err("There is no match for this value".to_string()));
}

#[test]
fn parameters_are_decoded_in_order() {
    let vs = vec![assigned("bool", "true"), assigned("uint256", "5"), assigned("string", "x")];
    assert_eq!(
        config_contructor_parameters(&vs),
        Ok(vec![ConstructorValue::Bool(true), ConstructorValue::Uint(5), ConstructorValue::String("x".to_string())])
    );
}

#[test]
fn first_bad_parameter_gives_the_error() {
    let vs = vec![assigned("bool", "true"), assigned("uint256", "x"), assigned("int8", "1")];
    assert_eq!(
        config_contructor_parameters(&vs),
        Err("Cannot convert value x for type uint256".to_string())
    );
    assert_eq!(config_contructor_parameters(&vec![]), Ok(vec![]));
}

#[test]
fn decoded_addresses_have_twenty_bytes() {
    let vs = vec![assigned("address", "0x 11 22 33 44 55 66 77 88 99 aa bb cc dd ee ff 00 11 22 33 44"), assigned("bool", "false")];
    match &config_contructor_parameters(&vs).unwrap()[0] {
        ConstructorValue::Address(b) => assert_eq!(b.len(), 20),
        other => panic!("{:?}", other),
    }
}
