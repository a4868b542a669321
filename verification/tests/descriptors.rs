//! Tests of the field and method descriptor parser and its canonical
//! printer.

use xjvmdbg::descriptors::parse_field_descriptor;
use xjvmdbg::descriptors::parse_method_descriptor;
use xjvmdbg::descriptors::print_field_descriptor;
use xjvmdbg::descriptors::DescriptorError;
use xjvmdbg::descriptors::FieldDescriptor;
use xjvmdbg::descriptors::MethodDescriptor;
use xjvmdbg::descriptors::Type;

#[test]
fn field_descriptor_empty() {
    let descriptor = "";
    let expected = Err(DescriptorError::UnexpectedEnd);
    let actual = parse_field_descriptor(descriptor);
    assert_eq!(actual, expected);
}

#[test]
fn field_descriptor_invalid_char() {
    let descriptor = "X";
    let expected = Err(DescriptorError::InvalidChar('X'));
    let actual = parse_field_descriptor(descriptor);
    assert_eq!(actual, expected);
}

#[test]
fn field_descriptor_long() {
    let descriptor = "J";
    let expected = FieldDescriptor::from_type(Type::Long);
    let actual = parse_field_descriptor(descriptor).unwrap();
    assert_eq!(actual, expected);
}

#[test]
fn field_descriptor_class_name_valid() {
    let descriptor = "Ldev/dpago/Xjvmdbgtest;";
    let expected = FieldDescriptor::from_class_str("dev/dpago/Xjvmdbgtest");
    let actual = parse_field_descriptor(descriptor).unwrap();
    assert_eq!(actual, expected);
}

#[test]
fn field_descriptor_class_name_no_terminator() {
    let descriptor = "Ldev/dpago/xjvmdbgtest";
    let expected = Err(DescriptorError::ClassTerminatorNotFound);
    let actual = parse_field_descriptor(descriptor);
    assert_eq!(actual, expected);
}

#[test]
fn field_descriptor_array_long() {
    let descriptor = "[[[J";
    let expected = FieldDescriptor::from_type_array(Type::Long, 3);
    let actual = parse_field_descriptor(descriptor).unwrap();
    assert_eq!(actual, expected);
}

#[test]
fn field_descriptor_array_class() {
    let descriptor = "[[Ljava/lang/String;";
    let expected = FieldDescriptor::from_class_array("java/lang/String", 2);
    let actual = parse_field_descriptor(descriptor).unwrap();
    assert_eq!(actual, expected);
}

#[test]
fn field_descriptor_array_no_element() {
    let descriptor = "[[[";
    let expected = Err(DescriptorError::UnexpectedEnd);
    let actual = parse_field_descriptor(descriptor);
    assert_eq!(actual, expected);
}

#[test]
fn field_descriptor_array_too_many_dimensions() {
    let descriptor = format!("{}I", "[".repeat(256));
    let expected = Err(DescriptorError::TooManyArrayDimensions);
    let actual = parse_field_descriptor(&descriptor);
    assert_eq!(actual, expected);
}

#[test]
fn method_descriptor_empty() {
    let descriptor = "";
    let expected = Err(DescriptorError::UnexpectedEnd);
    let actual = parse_method_descriptor(descriptor);
    assert_eq!(actual, expected);
}

#[test]
fn method_descriptor_missing_open_paren() {
    let descriptor = "I)V";
    let expected = Err(DescriptorError::MissingOpenParen);
    let actual = parse_method_descriptor(descriptor);
    assert_eq!(actual, expected);
}

#[test]
fn method_descriptor_missing_close_paren() {
    let descriptor = "(IV";
    let expected = Err(DescriptorError::MissingCloseParen);
    let actual = parse_method_descriptor(descriptor);
    assert_eq!(actual, expected);
}

#[test]
fn method_descriptor_void_no_params() {
    let descriptor = "()V";
    let expected = MethodDescriptor::new(vec![], None);
    let actual = parse_method_descriptor(descriptor).unwrap();
    assert_eq!(actual, expected);
}

#[test]
fn method_descriptor_simple_params() {
    let descriptor = "(IJ)V";
    let expected = MethodDescriptor::new(
        vec![
            FieldDescriptor::from_type(Type::Integer),
            FieldDescriptor::from_type(Type::Long),
        ],
        None,
    );
    let actual = parse_method_descriptor(descriptor).unwrap();
    assert_eq!(actual, expected);
}

#[test]
fn method_descriptor_with_return_type() {
    let descriptor = "(I)Ljava/lang/String;";
    let expected = MethodDescriptor::new(
        vec![FieldDescriptor::from_type(Type::Integer)],
        Some(FieldDescriptor::from_class_str("java/lang/String")),
    );
    let actual = parse_method_descriptor(descriptor).unwrap();
    assert_eq!(actual, expected);
}

#[test]
fn method_descriptor_array_params() {
    let descriptor = "([I[[Ljava/lang/String;)V";
    let expected = MethodDescriptor::new(
        vec![
            FieldDescriptor::from_type_array(Type::Integer, 1),
            FieldDescriptor::from_class_array("java/lang/String", 2),
        ],
        None,
    );
    let actual = parse_method_descriptor(descriptor).unwrap();
    assert_eq!(actual, expected);
}

#[test]
fn method_descriptor_complex() {
    let descriptor = "(ILjava/lang/String;[BZ)Ljava/lang/Object;";
    let expected = MethodDescriptor::new(
        vec![
            FieldDescriptor::from_type(Type::Integer),
            FieldDescriptor::from_class_str("java/lang/String"),
            FieldDescriptor::from_type_array(Type::SignedByte, 1),
            FieldDescriptor::from_type(Type::Boolean),
        ],
        Some(FieldDescriptor::from_class_str("java/lang/Object")),
    );
    let actual = parse_method_descriptor(descriptor).unwrap();
    assert_eq!(actual, expected);
}

#[test]
fn method_descriptor_no_return_type() {
    let descriptor = "(I)";
    let expected = Err(DescriptorError::UnexpectedEnd);
    let actual = parse_method_descriptor(descriptor);
    assert_eq!(actual, expected);
}

#[test]
fn method_descriptor_invalid_param() {
    let descriptor = "(X)V";
    let expected = Err(DescriptorError::InvalidChar('X'));
    let actual = parse_method_descriptor(descriptor);
    assert_eq!(actual, expected);
}

#[test]
fn method_descriptor_invalid_return_type() {
    let descriptor = "(I)X";
    let expected = Err(DescriptorError::InvalidChar('X'));
    let actual = parse_method_descriptor(descriptor);
    assert_eq!(actual, expected);
}

#[test]
fn field_descriptor_print_parse_round_trip() {
    let cases = vec![
        FieldDescriptor::from_type(Type::Integer),
        FieldDescriptor::from_type_array(Type::Double, 255),
        FieldDescriptor::from_class_str("java/lang/Object"),
        FieldDescriptor::from_class_array("java/util/List", 2),
    ];
    for d in cases {
        let printed = print_field_descriptor(&d);
        let parsed = parse_field_descriptor(&printed).unwrap();
        assert_eq!(parsed, d);
    }
}

#[test]
fn field_descriptor_printer_exact() {
    let d = FieldDescriptor::from_class_array("java/lang/String", 2);
    assert_eq!(print_field_descriptor(&d), "[[Ljava/lang/String;");
    let v = FieldDescriptor::from_type(Type::Void);
    assert_eq!(print_field_descriptor(&v), "V");
}
