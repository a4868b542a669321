//! Tests of the class-file decoder and the linker: header, constant pool
//! with the two-slot rule, typed lookups, attribute resolution and
//! super-class linking.

use xjvmdbg::classfile::JavaClassFile;
use xjvmdbg::errors::Error;
use xjvmdbg::linker::AttributeType;
use xjvmdbg::linker::ConstantAttribute;
use xjvmdbg::linker::JavaClassContainerBuilder;
use std::rc::Rc;

fn push_u16(out: &mut Vec<u8>, v: u16) {
    out.extend_from_slice(&v.to_be_bytes());
}

fn push_u32(out: &mut Vec<u8>, v: u32) {
    out.extend_from_slice(&v.to_be_bytes());
}

fn push_utf8(out: &mut Vec<u8>, s: &str) {
    out.push(1);
    push_u16(out, s.len() as u16);
    out.extend_from_slice(s.as_bytes());
}

/// A small class `Foo extends Bar` with one constant field, one method with
/// a `Code` attribute, a `SourceFile` attribute and a `Deprecated` attribute.
fn sample_class_bytes() -> Vec<u8> {
    let mut b: Vec<u8> = vec![];
    push_u32(&mut b, 0xCAFEBABE);
    push_u16(&mut b, 0); // minor
    push_u16(&mut b, 52); // major
    push_u16(&mut b, 18); // constant pool count
    push_utf8(&mut b, "Foo"); // 1
    b.push(7); // 2: Class -> 1
    push_u16(&mut b, 1);
    push_utf8(&mut b, "Bar"); // 3
    b.push(7); // 4: Class -> 3
    push_u16(&mut b, 3);
    push_utf8(&mut b, "x"); // 5
    push_utf8(&mut b, "I"); // 6
    push_utf8(&mut b, "ConstantValue"); // 7
    b.push(3); // 8: Integer 7
    push_u32(&mut b, 7);
    push_utf8(&mut b, "m"); // 9
    push_utf8(&mut b, "()V"); // 10
    push_utf8(&mut b, "Code"); // 11
    push_utf8(&mut b, "SourceFile"); // 12
    push_utf8(&mut b, "Foo.java"); // 13
    b.push(5); // 14: Long (slot 15 is reserved)
    b.extend_from_slice(&0x0102030405060708i64.to_be_bytes());
    push_utf8(&mut b, "Deprecated"); // 16
    b.push(8); // 17: String -> 1
    push_u16(&mut b, 1);

    push_u16(&mut b, 0x0021); // access flags
    push_u16(&mut b, 2); // this_class
    push_u16(&mut b, 4); // super_class
    push_u16(&mut b, 0); // interfaces

    push_u16(&mut b, 1); // fields
    push_u16(&mut b, 0x0002); // field access
    push_u16(&mut b, 5); // name "x"
    push_u16(&mut b, 6); // descriptor "I"
    push_u16(&mut b, 1); // one attribute
    push_u16(&mut b, 7); // "ConstantValue"
    push_u32(&mut b, 2);
    push_u16(&mut b, 8); // -> Integer 7

    push_u16(&mut b, 1); // methods
    push_u16(&mut b, 0x0001); // method access
    push_u16(&mut b, 9); // name "m"
    push_u16(&mut b, 10); // descriptor "()V"
    push_u16(&mut b, 1); // one attribute
    push_u16(&mut b, 11); // "Code"
    let code_payload: Vec<u8> = {
        let mut c = vec![];
        push_u16(&mut c, 1); // max_stack
        push_u16(&mut c, 1); // max_locals
        push_u32(&mut c, 1); // code length
        c.push(0xB1); // return
        push_u16(&mut c, 0); // exception table
        push_u16(&mut c, 0); // nested attributes
        c
    };
    push_u32(&mut b, code_payload.len() as u32);
    b.extend_from_slice(&code_payload);

    push_u16(&mut b, 2); // class attributes
    push_u16(&mut b, 12); // "SourceFile"
    push_u32(&mut b, 2);
    push_u16(&mut b, 13); // -> "Foo.java"
    push_u16(&mut b, 16); // "Deprecated"
    push_u32(&mut b, 0);
    b
}

#[test]
fn class_file_decodes() {
    let bytes = sample_class_bytes();
    let cf = JavaClassFile::read(&bytes).unwrap();
    assert_eq!(cf.version.magic, 0xCAFEBABE);
    assert_eq!(cf.version.major, 52);
    assert_eq!(cf.this_class, 2);
    assert_eq!(cf.super_class, 4);
    assert_eq!(cf.access_flags.bits(), 0x0021);
    assert_eq!(cf.get_name(), "Foo");
    assert_eq!(cf.fields.len(), 1);
    assert_eq!(cf.methods.len(), 1);
    assert_eq!(cf.attributes.len(), 2);
}

#[test]
fn constant_pool_typed_lookups() {
    let bytes = sample_class_bytes();
    let cf = JavaClassFile::read(&bytes).unwrap();
    let pool = &cf.constant_pool;
    assert_eq!(pool.find_utf8(1), Some("Foo"));
    assert_eq!(pool.find_utf8(2), None); // a Class entry, not UTF-8
    assert!(pool.find_class(2).is_some());
    assert_eq!(pool.find_class(2).unwrap().name_index, 1);
    assert_eq!(pool.find_int(8), Some(7));
    assert_eq!(pool.find_short(8), Some(7i16));
    assert_eq!(pool.find_byte(8), Some(7u8));
    assert_eq!(pool.find_bool(8), Some(true));
    assert_eq!(pool.find_char(8), Some(7u8 as char));
    assert_eq!(pool.find_long(14), Some(0x0102030405060708));
    assert_eq!(pool.find_string_ref(17), Some("Foo"));
    assert_eq!(pool.find_string_ref(1), None); // a UTF-8 entry, not String
}

#[test]
fn long_entries_reserve_the_next_slot() {
    // The slot after a Long entry is unusable: every typed lookup misses.
    let bytes = sample_class_bytes();
    let cf = JavaClassFile::read(&bytes).unwrap();
    let pool = &cf.constant_pool;
    assert!(pool.find_long(14).is_some());
    assert_eq!(pool.find_int(15), None);
    assert_eq!(pool.find_long(15), None);
    assert_eq!(pool.find_utf8(15), None);
    // Index 0 is reserved too.
    assert_eq!(pool.find_utf8(0), None);
}

#[test]
fn narrowing_uses_low_bits() {
    // Integer 0x12345 narrows to its low 16 and low 8 bits.
    let mut b: Vec<u8> = vec![];
    push_u32(&mut b, 0xCAFEBABE);
    push_u16(&mut b, 0);
    push_u16(&mut b, 52);
    push_u16(&mut b, 2); // pool count: one real entry
    b.push(3);
    push_u32(&mut b, 0x12345);
    push_u16(&mut b, 0); // access
    push_u16(&mut b, 0); // this
    push_u16(&mut b, 0); // super
    push_u16(&mut b, 0); // interfaces
    push_u16(&mut b, 0); // fields
    push_u16(&mut b, 0); // methods
    push_u16(&mut b, 0); // attributes
    let cf = JavaClassFile::read(&b).unwrap();
    assert_eq!(cf.constant_pool.find_int(1), Some(0x12345));
    assert_eq!(cf.constant_pool.find_short(1), Some(0x2345i16));
    assert_eq!(cf.constant_pool.find_byte(1), Some(0x45u8));
    assert_eq!(cf.constant_pool.find_bool(1), Some(true));
}

#[test]
fn bad_magic_is_fatal() {
    let mut bytes = sample_class_bytes();
    bytes[0] = 0xDE;
    bytes[1] = 0xAD;
    bytes[2] = 0xBE;
    bytes[3] = 0xEF;
    let r = JavaClassFile::read(&bytes);
    assert!(matches!(r, Err(Error::Parse(_))));
}

#[test]
fn truncated_class_file_is_fatal() {
    let bytes = sample_class_bytes();
    let cut = bytes[..bytes.len() - 3].to_vec();
    assert!(matches!(JavaClassFile::read(&cut), Err(Error::Parse(_))));
    assert!(matches!(JavaClassFile::read(&vec![0xCA, 0xFE]), Err(Error::Parse(_))));
}

#[test]
fn invalid_pool_utf8_is_fatal() {
    // A UTF-8 entry holding the invalid byte 0xFF fails the decode.
    let mut b: Vec<u8> = vec![];
    push_u32(&mut b, 0xCAFEBABE);
    push_u16(&mut b, 0);
    push_u16(&mut b, 52);
    push_u16(&mut b, 2);
    b.push(1); // Utf8 tag
    push_u16(&mut b, 1);
    b.push(0xFF);
    push_u16(&mut b, 0);
    push_u16(&mut b, 0);
    push_u16(&mut b, 0);
    push_u16(&mut b, 0);
    push_u16(&mut b, 0);
    push_u16(&mut b, 0);
    push_u16(&mut b, 0);
    assert!(matches!(JavaClassFile::read(&b), Err(Error::Parse(_))));
}

#[test]
fn unknown_pool_tag_is_fatal() {
    let mut b: Vec<u8> = vec![];
    push_u32(&mut b, 0xCAFEBABE);
    push_u16(&mut b, 0);
    push_u16(&mut b, 52);
    push_u16(&mut b, 2);
    b.push(99); // no such tag
    assert!(matches!(JavaClassFile::read(&b), Err(Error::Parse(_))));
}

#[test]
fn linker_resolves_names_members_and_attributes() {
    let bytes = sample_class_bytes();
    let raws = vec![JavaClassFile::read(&bytes).unwrap()];
    let container = JavaClassContainerBuilder::new(&raws).parse_classes();
    let foo = container.get("Foo").expect("Foo should be linked");
    assert_eq!(foo.name, "Foo");

    // The super class is a name-only placeholder: Bar is not in the raw set.
    let sup = foo.super_class.as_ref().expect("super should be linked");
    assert_eq!(sup.name, "Bar");
    assert!(sup.fields.is_empty());
    // The placeholder is in the container under its own name.
    assert!(container.get("Bar").is_some());

    // The field's ConstantValue was promoted through its descriptor.
    assert_eq!(foo.fields.len(), 1);
    let field = &foo.fields[0];
    assert_eq!(field.name, "x");
    assert_eq!(field.attributes.len(), 1);
    match &field.attributes[0] {
        AttributeType::ConstantValue(ConstantAttribute::Int(v)) => assert_eq!(*v, 7),
        other => panic!("expected a promoted Int constant, got {:?}", other),
    }

    // The method's Code attribute was decoded.
    assert_eq!(foo.methods.len(), 1);
    let method = &foo.methods[0];
    assert_eq!(method.name, "m");
    match &method.attributes[0] {
        AttributeType::Code(code) => {
            assert_eq!(code.max_stack, 1);
            assert_eq!(code.max_locals, 1);
            assert_eq!(code.code, vec![0xB1]);
            assert!(code.exception_table.is_empty());
            assert!(code.attributes.is_empty());
        },
        other => panic!("expected a Code attribute, got {:?}", other),
    }

    // Class-scope attributes: SourceFile resolved, Deprecated recognized.
    assert_eq!(foo.attributes.len(), 2);
    match &foo.attributes[0] {
        AttributeType::SourceFile(sf) => assert_eq!(sf.file_name, "Foo.java"),
        other => panic!("expected a SourceFile attribute, got {:?}", other),
    }
    assert!(matches!(foo.attributes[1], AttributeType::Deprecated));
}

#[test]
fn unknown_attribute_becomes_error_with_original_bytes() {
    // Replace the class-level "SourceFile" name index with "x": the
    // attribute is unrecognized and is kept as data.
    let mut bytes = sample_class_bytes();
    let n = bytes.len();
    // The SourceFile attribute's name index is 10 bytes from the end:
    // [name:2][len:4][data:2] + [name:2][len:4] of Deprecated.
    bytes[n - 14] = 0;
    bytes[n - 13] = 5; // name index 5: "x"
    let raws = vec![JavaClassFile::read(&bytes).unwrap()];
    let container = JavaClassContainerBuilder::new(&raws).parse_classes();
    let foo = container.get("Foo").unwrap();
    match &foo.attributes[0] {
        AttributeType::Error(e) => {
            assert_eq!(e.message, "Not supported: x");
            assert_eq!(e.data, vec![0, 13]);
        },
        other => panic!("expected an Error attribute, got {:?}", other),
    }
}

#[test]
fn linker_links_super_from_raw_set_in_any_order() {
    // Foo extends Bar; when Bar is itself in the raw set (listed after
    // Foo), Foo's super is the linked Bar, not a placeholder.
    let foo_bytes = sample_class_bytes();
    let mut bar: Vec<u8> = vec![];
    push_u32(&mut bar, 0xCAFEBABE);
    push_u16(&mut bar, 0);
    push_u16(&mut bar, 52);
    push_u16(&mut bar, 3); // pool: Utf8 "Bar", Class -> 1
    push_utf8(&mut bar, "Bar");
    bar.push(7);
    push_u16(&mut bar, 1);
    push_u16(&mut bar, 0x0021);
    push_u16(&mut bar, 2); // this = Class "Bar"
    push_u16(&mut bar, 0); // no super
    push_u16(&mut bar, 0);
    push_u16(&mut bar, 0);
    push_u16(&mut bar, 0);
    push_u16(&mut bar, 0);
    let raws = vec![
        JavaClassFile::read(&foo_bytes).unwrap(),
        JavaClassFile::read(&bar).unwrap(),
    ];
    let container = JavaClassContainerBuilder::new(&raws).parse_classes();
    assert_eq!(container.len(), 2);
    let foo = container.get("Foo").unwrap();
    let sup = foo.super_class.as_ref().unwrap();
    assert_eq!(sup.name, "Bar");
    // The linked Bar carries its version from its own class file, which a
    // placeholder would not.
    assert_eq!(sup.version.major, 52);
    assert!(sup.super_class.is_none());
}

#[test]
fn super_handle_is_shared_with_the_container() {
    // Foo extends Bar, Bar in the raw set: Foo's super is the very handle
    // the container holds for Bar, not a copy.
    let foo_bytes = sample_class_bytes();
    let mut bar: Vec<u8> = vec![];
    push_u32(&mut bar, 0xCAFEBABE);
    push_u16(&mut bar, 0);
    push_u16(&mut bar, 52);
    push_u16(&mut bar, 3);
    push_utf8(&mut bar, "Bar");
    bar.push(7);
    push_u16(&mut bar, 1);
    push_u16(&mut bar, 0x0021);
    push_u16(&mut bar, 2);
    push_u16(&mut bar, 0);
    push_u16(&mut bar, 0);
    push_u16(&mut bar, 0);
    push_u16(&mut bar, 0);
    push_u16(&mut bar, 0);
    let raws = vec![
        JavaClassFile::read(&foo_bytes).unwrap(),
        JavaClassFile::read(&bar).unwrap(),
    ];
    let container = JavaClassContainerBuilder::new(&raws).parse_classes();
    let foo = container.get("Foo").unwrap();
    let bar_entry = container.get("Bar").unwrap();
    let sup = foo.super_class.as_ref().unwrap();
    assert!(Rc::ptr_eq(sup, &bar_entry));
}

#[test]
fn placeholder_super_handle_is_shared_too() {
    // Bar is not in the raw set: the placeholder that stands for it is the
    // container's own entry.
    let foo_bytes = sample_class_bytes();
    let raws = vec![JavaClassFile::read(&foo_bytes).unwrap()];
    let container = JavaClassContainerBuilder::new(&raws).parse_classes();
    let foo = container.get("Foo").unwrap();
    let bar_entry = container.get("Bar").unwrap();
    let sup = foo.super_class.as_ref().unwrap();
    assert!(Rc::ptr_eq(sup, &bar_entry));
    assert!(bar_entry.super_class.is_none());
    assert!(bar_entry.fields.is_empty() && bar_entry.methods.is_empty());
}

/// A minimal class `name extends super_name`.
fn class_with_super(name: &str, super_name: &str) -> Vec<u8> {
    let mut b: Vec<u8> = vec![];
    push_u32(&mut b, 0xCAFEBABE);
    push_u16(&mut b, 0);
    push_u16(&mut b, 52);
    push_u16(&mut b, 5); // pool: Utf8 name, Class, Utf8 super, Class
    push_utf8(&mut b, name); // 1
    b.push(7); // 2 -> 1
    push_u16(&mut b, 1);
    push_utf8(&mut b, super_name); // 3
    b.push(7); // 4 -> 3
    push_u16(&mut b, 3);
    push_u16(&mut b, 0x0021);
    push_u16(&mut b, 2); // this
    push_u16(&mut b, 4); // super
    push_u16(&mut b, 0);
    push_u16(&mut b, 0);
    push_u16(&mut b, 0);
    push_u16(&mut b, 0);
    b
}

#[test]
fn super_cycle_is_short_circuited() {
    // Hostile input: A extends B, B extends A. Linking terminates; both
    // classes are linked; the cycle is broken through a name-only
    // placeholder standing for the in-progress class.
    let raws = vec![
        JavaClassFile::read(&class_with_super("A", "B")).unwrap(),
        JavaClassFile::read(&class_with_super("B", "A")).unwrap(),
    ];
    let container = JavaClassContainerBuilder::new(&raws).parse_classes();
    assert_eq!(container.len(), 2);
    let a = container.get("A").unwrap();
    let b = container.get("B").unwrap();
    // A's super is the linked B, shared with the container.
    let a_sup = a.super_class.as_ref().unwrap();
    assert!(Rc::ptr_eq(a_sup, &b));
    // B's super names A but is the placeholder that stood for A while A was
    // being linked.
    let b_sup = b.super_class.as_ref().unwrap();
    assert_eq!(b_sup.name, "A");
    assert!(b_sup.super_class.is_none());
}

#[test]
fn source_file_at_member_scope_is_an_error() {
    // Replace the field's ConstantValue attribute name with "SourceFile":
    // at member scope the attribute is out of place and kept as data.
    let mut bytes = sample_class_bytes();
    // The field's attribute block: name index 7 ("ConstantValue") sits right
    // after the field's access flags, name, descriptor and attribute count.
    // Find the two bytes [0, 7] that follow the field header.
    let field_attr_name_pos = {
        // field_info starts after: header(10) + pool + access/this/super/ifaces(8)
        // + field count(2); locate by searching for the field header bytes.
        let needle: &[u8] = &[0x00, 0x02, 0x00, 0x05, 0x00, 0x06, 0x00, 0x01, 0x00, 0x07];
        let mut pos = None;
        for i in 0..bytes.len() - needle.len() {
            if &bytes[i..i + needle.len()] == needle {
                pos = Some(i + 8);
                break;
            }
        }
        pos.expect("field header not found")
    };
    bytes[field_attr_name_pos] = 0;
    bytes[field_attr_name_pos + 1] = 12; // "SourceFile"
    // point its payload at the UTF-8 entry "Foo.java" so the attribute
    // itself resolves; the member scope is what rejects it
    bytes[field_attr_name_pos + 6] = 0;
    bytes[field_attr_name_pos + 7] = 13;
    let raws = vec![JavaClassFile::read(&bytes).unwrap()];
    let container = JavaClassContainerBuilder::new(&raws).parse_classes();
    let foo = container.get("Foo").unwrap();
    let field = &foo.fields[0];
    match &field.attributes[0] {
        AttributeType::Error(e) => {
            assert_eq!(e.message, "Not supported at member scope: SourceFile");
            assert_eq!(e.data, vec![0, 13]);
        },
        other => panic!("expected an Error attribute, got {:?}", other),
    }
}
