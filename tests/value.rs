use gml_value::value::{
    bit_op, compare_reals, compare_strings, complement_bits, concat_strings, logic_op,
    operand_accepted, operands_accepted, repeat_string, BitOp, Comparison, Kind, Logic, Operator,
};

#[test]
fn concat_joins_strings() {
    let s = concat_strings("Hello, ", "world!");
    assert_eq!(s, "Hello, world!");
    assert_eq!(s.chars().count(), 13);
    assert_eq!(concat_strings("", ""), "");
    assert_eq!(concat_strings("é", "x").chars().count(), 2);
}

#[test]
fn repeat_counts() {
    assert_eq!(repeat_string(3, "ab"), "ababab");
    assert_eq!(repeat_string(0, "ab"), "");
    assert_eq!(repeat_string(-2, "ab"), "");
    assert_eq!(repeat_string(1, "ab"), "ab");
    assert_eq!(repeat_string(4, ""), "");
}

#[test]
fn mixed_kinds_are_refused() {
    assert!(!operands_accepted(Operator::Add, Kind::Real, Kind::Str));
    assert!(!operands_accepted(Operator::Multiply, Kind::Str, Kind::Str));
    assert!(!operands_accepted(Operator::Multiply, Kind::Str, Kind::Real));
    assert!(!operands_accepted(Operator::Subtract, Kind::Str, Kind::Str));
    assert!(!operands_accepted(Operator::BitwiseAnd, Kind::Str, Kind::Str));
    assert!(!operands_accepted(Operator::Equal, Kind::Str, Kind::Real));
}

#[test]
fn permitted_kinds_are_accepted() {
    assert!(operands_accepted(Operator::Add, Kind::Str, Kind::Str));
    assert!(operands_accepted(Operator::AssignAdd, Kind::Real, Kind::Real));
    assert!(operands_accepted(Operator::Multiply, Kind::Real, Kind::Str));
    assert!(operands_accepted(Operator::Modulo, Kind::Real, Kind::Real));
    assert!(operands_accepted(Operator::LessThan, Kind::Str, Kind::Str));
}

#[test]
fn unary_kinds() {
    assert!(operand_accepted(Operator::Not, Kind::Real));
    assert!(!operand_accepted(Operator::Not, Kind::Str));
    assert!(!operand_accepted(Operator::Complement, Kind::Str));
    assert!(operand_accepted(Operator::Subtract, Kind::Real));
    assert!(!operand_accepted(Operator::Add, Kind::Real));
}

#[test]
fn string_order_is_by_code_units() {
    assert!(compare_strings(Comparison::LessThan, "abc", "abd"));
    assert!(compare_strings(Comparison::LessThan, "ab", "abc"));
    assert!(!compare_strings(Comparison::LessThan, "abc", "abc"));
    assert!(compare_strings(Comparison::LessThanOrEqual, "abc", "abc"));
    assert!(compare_strings(Comparison::GreaterThan, "é", "z"));
    assert!(compare_strings(Comparison::GreaterThanOrEqual, "b", "a"));
    assert!(compare_strings(Comparison::NotEqual, "a", "A"));
    assert!(compare_strings(Comparison::Equal, "", ""));
}

#[test]
fn string_equals_its_copy() {
    let s = String::from("owo");
    let t = s.clone();
    assert!(compare_strings(Comparison::Equal, &s, &t));
    assert!(!compare_strings(Comparison::NotEqual, &s, &t));
}

#[test]
fn real_comparisons_honour_tolerance() {
    // two reals within tolerance, neither strictly below the other
    assert!(compare_reals(Comparison::Equal, false, false, true));
    assert!(compare_reals(Comparison::LessThanOrEqual, false, false, true));
    assert!(compare_reals(Comparison::GreaterThanOrEqual, false, false, true));
    // within tolerance but strictly below: strict order ignores tolerance
    assert!(compare_reals(Comparison::LessThan, true, false, true));
    assert!(!compare_reals(Comparison::NotEqual, true, false, true));
    assert!(!compare_reals(Comparison::GreaterThan, true, false, true));
    // far apart
    assert!(!compare_reals(Comparison::LessThanOrEqual, false, true, false));
    assert!(compare_reals(Comparison::NotEqual, false, true, false));
}

#[test]
fn bitwise_on_integers() {
    assert_eq!(bit_op(BitOp::And, 6, 3), 2);
    assert_eq!(bit_op(BitOp::Or, 6, 3), 7);
    assert_eq!(bit_op(BitOp::Xor, 6, 3), 5);
    assert_eq!(bit_op(BitOp::And, -1, 12345), 12345);
    assert_eq!(bit_op(BitOp::ShiftLeft, 1, 4), 16);
    assert_eq!(bit_op(BitOp::ShiftLeft, 1, 33), 2);
    assert_eq!(bit_op(BitOp::ShiftLeft, 1, 31), i32::MIN);
    assert_eq!(bit_op(BitOp::ShiftRight, -8, 1), -4);
    assert_eq!(bit_op(BitOp::ShiftRight, 16, -1), 0);
}

#[test]
fn complement_of_zero() {
    assert_eq!(complement_bits(0), -1);
    assert_eq!(complement_bits(-1), 0);
    assert_eq!(complement_bits(5), -6);
}

#[test]
fn boolean_operators() {
    assert!(!logic_op(Logic::And, true, false));
    assert!(logic_op(Logic::And, true, true));
    assert!(!logic_op(Logic::Xor, true, true));
    assert!(logic_op(Logic::Xor, false, true));
    assert!(logic_op(Logic::Or, false, true));
    assert!(!logic_op(Logic::Or, false, false));
}

#[test]
fn kind_names() {
    assert_eq!(Kind::Real.ty_str(), "real");
    assert_eq!(Kind::Str.ty_str(), "string");
}

#[test]
fn assign_multiply_takes_real_times_string() {
    assert!(operands_accepted(Operator::AssignMultiply, Kind::Real, Kind::Str));
    assert!(operands_accepted(Operator::AssignMultiply, Kind::Real, Kind::Real));
    assert!(!operands_accepted(Operator::AssignMultiply, Kind::Str, Kind::Real));
    assert!(!operands_accepted(Operator::AssignMultiply, Kind::Str, Kind::Str));
}

#[test]
fn assign_forms_follow_plain_rules() {
    let pairs = [
        (Operator::AssignAdd, Operator::Add),
        (Operator::AssignSubtract, Operator::Subtract),
        (Operator::AssignMultiply, Operator::Multiply),
        (Operator::AssignDivide, Operator::Divide),
        (Operator::AssignIntDivide, Operator::IntDivide),
        (Operator::AssignModulo, Operator::Modulo),
        (Operator::AssignBitwiseAnd, Operator::BitwiseAnd),
        (Operator::AssignBitwiseOr, Operator::BitwiseOr),
        (Operator::AssignBitwiseXor, Operator::BitwiseXor),
        (Operator::AssignBinaryShiftLeft, Operator::BinaryShiftLeft),
        (Operator::AssignBinaryShiftRight, Operator::BinaryShiftRight),
    ];
    let kinds = [Kind::Real, Kind::Str];
    for (assign, plain) in pairs {
        for l in kinds {
            for r in kinds {
                assert_eq!(operands_accepted(assign, l, r), operands_accepted(plain, l, r));
            }
        }
    }
}
