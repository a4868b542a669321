//! Class linker and attribute resolver: raw decoded class files become
//! linked classes with resolved names, parsed descriptors, typed constant
//! values and decoded `Code` attributes.
//!
//! Resolution prefers soft failure: an unrecognized attribute name, an
//! unreadable constant-value lookup or a malformed nested attribute becomes
//! an `Error` attribute carrying the original bytes, never a failure of the
//! whole class.

use crate::classfile::AttributeInfo;
use crate::classfile::CodeExceptionRaw;
use crate::classfile::ConstantValueAttributeRaw;
use crate::classfile::FieldAccessFlags;
use crate::classfile::FieldInfo;
use crate::classfile::MethodInfo;
use crate::classfile::JavaClassFile;
use crate::classfile::MethodAccessFlags;
use crate::classfile::SpecCpEntry;
use crate::classfile::Version;
use crate::codec::read_u16_at;
use crate::codec::read_u32_at;
use crate::codec::u16_at;
use crate::codec::u32_at;
use crate::codec::u32_of_i32;
use crate::codec::i16_of_u16;
use crate::descriptors::parse_field_descriptor;
use crate::descriptors::parse_method_descriptor;
use crate::descriptors::spec_parse_field_descriptor;
use crate::descriptors::spec_parse_method_descriptor;
use crate::descriptors::ComponentType;
use crate::descriptors::FieldDescriptor;
use crate::descriptors::MethodDescriptor;
use crate::descriptors::SpecComponentType;
use crate::descriptors::SpecFieldDescriptor;
use crate::descriptors::SpecMethodDescriptor;
use std::rc::Rc;
use vstd::prelude::*;
use vstd::string::*;

verus! {

broadcast use vstd::string::group_string_axioms;

/// Why promoting a `ConstantValue` attribute to a typed value failed.
#[derive(Debug, Clone, Copy, PartialEq, Eq, Structural)]
pub enum ConstantValueReadError {
    ReferenceTypeNotString,
    NotFoundInPool,
    VoidField,
}

/// A field's `ConstantValue`, promoted to the type named by the field's
/// descriptor. `Float` and `Double` carry raw IEEE-754 bits.
#[derive(Debug, Clone, PartialEq, Eq)]
pub enum ConstantAttribute {
    Int(i32),
    Short(i16),
    Char(char),
    Byte(u8),
    Boolean(bool),
    Float(u32),
    Long(i64),
    Double(u64),
    String(String),
}

/// Mathematical model of a promoted constant value.
pub enum SpecConstantAttribute {
    Int(i32),
    Short(i16),
    Char(char),
    Byte(u8),
    Boolean(bool),
    Float(u32),
    Long(i64),
    Double(u64),
    String(Seq<char>),
}

impl View for ConstantAttribute {
    type V = SpecConstantAttribute;

    open spec fn view(&self) -> SpecConstantAttribute {
        match self {
            ConstantAttribute::Int(v) => SpecConstantAttribute::Int(*v),
            ConstantAttribute::Short(v) => SpecConstantAttribute::Short(*v),
            ConstantAttribute::Char(v) => SpecConstantAttribute::Char(*v),
            ConstantAttribute::Byte(v) => SpecConstantAttribute::Byte(*v),
            ConstantAttribute::Boolean(v) => SpecConstantAttribute::Boolean(*v),
            ConstantAttribute::Float(v) => SpecConstantAttribute::Float(*v),
            ConstantAttribute::Long(v) => SpecConstantAttribute::Long(*v),
            ConstantAttribute::Double(v) => SpecConstantAttribute::Double(*v),
            ConstantAttribute::String(s) => SpecConstantAttribute::String(s@),
        }
    }
}

/// A resolved `SourceFile` attribute.
#[derive(Debug, Clone, PartialEq, Eq)]
pub struct SourceFileAttribute {
    pub file_name: String,
}

/// An attribute that could not be resolved, kept as data with its original
/// bytes.
#[derive(Debug, Clone, PartialEq, Eq)]
pub struct ErrorAttribute {
    pub message: String,
    pub data: Vec<u8>,
}

/// A resolved `Code` attribute. The bytecode itself stays raw here; the
/// instruction decoder parses it on demand.
#[derive(Debug)]
pub struct CodeAttribute {
    pub max_stack: u16,
    pub max_locals: u16,
    pub code: Vec<u8>,
    pub exception_table: Vec<CodeExceptionRaw>,
    pub attributes: Vec<AttributeType>,
}

/// A resolved attribute. Unknown names and failed decodes become `Error`
/// entries; they never abort resolution.
#[derive(Debug)]
pub enum AttributeType {
    Code(CodeAttribute),
    ConstantValue(ConstantAttribute),
    ConstantValueIndex(ConstantValueAttributeRaw),
    Deprecated,
    SourceFile(SourceFileAttribute),
    Error(ErrorAttribute),
}

/// A linked field: resolved name, parsed descriptor, resolved attributes.
pub struct Field {
    pub access_flags: FieldAccessFlags,
    pub name: String,
    pub descriptor: FieldDescriptor,
    pub attributes: Vec<AttributeType>,
}

impl Field {
    pub fn new(access_flags: FieldAccessFlags, name: &str, descriptor: FieldDescriptor) -> (r:
        Self)
        ensures
            r.access_flags == access_flags,
            r.name@ == name@,
            r.descriptor == descriptor,
            r.attributes@.len() == 0,
    {
        Field { access_flags, name: name.to_owned(), descriptor, attributes: Vec::new() }
    }
}

/// A linked method: resolved name, parsed descriptor, resolved attributes.
pub struct Method {
    pub access_flags: MethodAccessFlags,
    pub name: String,
    pub descriptor: MethodDescriptor,
    pub attributes: Vec<AttributeType>,
}

impl Method {
    pub fn new(access_flags: MethodAccessFlags, name: &str, descriptor: MethodDescriptor) -> (r:
        Self)
        ensures
            r.access_flags == access_flags,
            r.name@ == name@,
            r.descriptor == descriptor,
            r.attributes@.len() == 0,
    {
        Method { access_flags, name: name.to_owned(), descriptor, attributes: Vec::new() }
    }
}

/// A linked class. The super class is a shared reference into the linker's
/// name-indexed collection; an unresolved super is a name-only placeholder.
pub struct JavaClass {
    pub version: Version,
    pub name: String,
    pub super_class: Option<Rc<JavaClass>>,
    pub interfaces: Vec<Rc<JavaClass>>,
    pub fields: Vec<Field>,
    pub methods: Vec<Method>,
    pub attributes: Vec<AttributeType>,
}

impl JavaClass {
    pub fn new(version: Version, name: String) -> (r: Self)
        ensures
            r.version == version,
            r.name == name,
            r.super_class is None,
            r.interfaces@.len() == 0,
            r.fields@.len() == 0,
            r.methods@.len() == 0,
            r.attributes@.len() == 0,
    {
        JavaClass {
            version,
            name,
            super_class: None,
            interfaces: Vec::new(),
            fields: Vec::new(),
            methods: Vec::new(),
            attributes: Vec::new(),
        }
    }

    /// A name-only placeholder for a class that is not in the raw set.
    pub fn from_name(name: &str) -> (r: JavaClass)
        ensures
            r.name@ == name@,
            r.version.magic == crate::classfile::JAVA_CLASS_FILE_MAGIC,
            r.super_class is None,
            r.interfaces@.len() == 0,
            r.fields@.len() == 0,
            r.methods@.len() == 0,
            r.attributes@.len() == 0,
    {
        JavaClass {
            version: Version::default(),
            name: name.to_owned(),
            super_class: None,
            interfaces: Vec::new(),
            fields: Vec::new(),
            methods: Vec::new(),
            attributes: Vec::new(),
        }
    }
}

/// Relies on `Rc::clone`: the clone is a new handle to the same shared
/// value.
#[verifier::external_body]
fn rc_clone(rc: &Rc<JavaClass>) -> (r: Rc<JavaClass>)
    ensures
        r == *rc,
{
    Rc::clone(rc)
}

/// Character-by-character string equality, decided against the views.
pub fn str_eq(a: &str, b: &str) -> (r: bool)
    ensures
        r == (a@ == b@),
{
    let la = a.unicode_len();
    let lb = b.unicode_len();
    if la != lb {
        proof {
            assert(a@ != b@);
        }
        return false;
    }
    let mut i: usize = 0;
    while i < la
        invariant
            i <= la == lb,
            la == a@.len() && lb == b@.len(),
            forall|j: int| 0 <= j < i ==> a@[j] == b@[j],
        decreases la - i,
    {
        if a.get_char(i) != b.get_char(i) {
            return false;
        }
        i = i + 1;
    }
    proof {
        assert(a@ =~= b@);
    }
    true
}

/// The UTF-8 text at pool index `i`, if the slot holds a UTF-8 entry.
pub open spec fn utf8_at(pool: Seq<SpecCpEntry>, i: u16) -> Option<Seq<char>> {
    if i < pool.len() {
        match pool[i as int] {
            SpecCpEntry::Utf8(cs) => Some(cs),
            _ => None,
        }
    } else {
        None
    }
}

/// What promoting a `ConstantValue` pool index yields, given the field's
/// descriptor component: integral types narrow an Integer entry (low bits;
/// nonzero is true), `F`/`J`/`D` read their own entry kinds, and
/// `Ljava/lang/String;` follows a String entry to its UTF-8 text. Any other
/// reference type is an error, as is a `V` field.
pub open spec fn spec_field_constant_value(
    pool: Seq<SpecCpEntry>,
    elem: SpecComponentType,
    idx: u16,
) -> Result<SpecConstantAttribute, ConstantValueReadError> {
    match elem {
        SpecComponentType::Base(t) => match t {
            crate::descriptors::Type::SignedByte => {
                if idx < pool.len() {
                    match pool[idx as int] {
                        SpecCpEntry::Integer(w) => Ok(SpecConstantAttribute::Byte((u32_of_i32(w) % 0x100) as u8)),
                        _ => Err(ConstantValueReadError::NotFoundInPool),
                    }
                } else {
                    Err(ConstantValueReadError::NotFoundInPool)
                }
            },
            crate::descriptors::Type::Char => {
                if idx < pool.len() {
                    match pool[idx as int] {
                        SpecCpEntry::Integer(w) => Ok(SpecConstantAttribute::Char(((u32_of_i32(w) % 0x100) as u8) as char)),
                        _ => Err(ConstantValueReadError::NotFoundInPool),
                    }
                } else {
                    Err(ConstantValueReadError::NotFoundInPool)
                }
            },
            crate::descriptors::Type::Double => {
                if idx < pool.len() {
                    match pool[idx as int] {
                        SpecCpEntry::Double(bits) => Ok(SpecConstantAttribute::Double(bits)),
                        _ => Err(ConstantValueReadError::NotFoundInPool),
                    }
                } else {
                    Err(ConstantValueReadError::NotFoundInPool)
                }
            },
            crate::descriptors::Type::Float => {
                if idx < pool.len() {
                    match pool[idx as int] {
                        SpecCpEntry::Float(bits) => Ok(SpecConstantAttribute::Float(bits)),
                        _ => Err(ConstantValueReadError::NotFoundInPool),
                    }
                } else {
                    Err(ConstantValueReadError::NotFoundInPool)
                }
            },
            crate::descriptors::Type::Integer => {
                if idx < pool.len() {
                    match pool[idx as int] {
                        SpecCpEntry::Integer(w) => Ok(SpecConstantAttribute::Int(w)),
                        _ => Err(ConstantValueReadError::NotFoundInPool),
                    }
                } else {
                    Err(ConstantValueReadError::NotFoundInPool)
                }
            },
            crate::descriptors::Type::Long => {
                if idx < pool.len() {
                    match pool[idx as int] {
                        SpecCpEntry::Long(v) => Ok(SpecConstantAttribute::Long(v)),
                        _ => Err(ConstantValueReadError::NotFoundInPool),
                    }
                } else {
                    Err(ConstantValueReadError::NotFoundInPool)
                }
            },
            crate::descriptors::Type::Short => {
                if idx < pool.len() {
                    match pool[idx as int] {
                        SpecCpEntry::Integer(w) => Ok(SpecConstantAttribute::Short(i16_of_u16((u32_of_i32(w) % 0x10000) as u16))),
                        _ => Err(ConstantValueReadError::NotFoundInPool),
                    }
                } else {
                    Err(ConstantValueReadError::NotFoundInPool)
                }
            },
            crate::descriptors::Type::Boolean => {
                if idx < pool.len() {
                    match pool[idx as int] {
                        SpecCpEntry::Integer(w) => Ok(SpecConstantAttribute::Boolean(w != 0)),
                        _ => Err(ConstantValueReadError::NotFoundInPool),
                    }
                } else {
                    Err(ConstantValueReadError::NotFoundInPool)
                }
            },
            crate::descriptors::Type::Void => Err(ConstantValueReadError::VoidField),
        },
        SpecComponentType::Object { class_name } => {
            if class_name == "java/lang/String"@ {
                if idx < pool.len() {
                    match pool[idx as int] {
                        SpecCpEntry::String(si) => match utf8_at(pool, si) {
                            Some(cs) => Ok(SpecConstantAttribute::String(cs)),
                            None => Err(ConstantValueReadError::NotFoundInPool),
                        },
                        _ => Err(ConstantValueReadError::NotFoundInPool),
                    }
                } else {
                    Err(ConstantValueReadError::NotFoundInPool)
                }
            } else {
                Err(ConstantValueReadError::ReferenceTypeNotString)
            }
        },
    }
}

/// Promotes a field's `ConstantValue` pool index to a typed value by
/// consulting the field's parsed descriptor, exactly as
/// `spec_field_constant_value` states.
pub fn parse_field_constant_value(field: &Field, idx: u16, raw_class: &JavaClassFile) -> (r: Result<
    ConstantAttribute,
    ConstantValueReadError,
>)
    ensures
        match r {
            Ok(c) => spec_field_constant_value(
                raw_class.constant_pool@,
                field.descriptor.element_type@,
                idx,
            ) == Ok::<_, ConstantValueReadError>(c@),
            Err(e) => spec_field_constant_value(
                raw_class.constant_pool@,
                field.descriptor.element_type@,
                idx,
            ) == Err::<SpecConstantAttribute, _>(e),
        },
{
    match &field.descriptor.element_type {
        ComponentType::Base(t) => match t {
            crate::descriptors::Type::SignedByte => match raw_class.constant_pool.find_byte(idx) {
                Some(b) => Ok(ConstantAttribute::Byte(b)),
                None => Err(ConstantValueReadError::NotFoundInPool),
            },
            crate::descriptors::Type::Char => match raw_class.constant_pool.find_char(idx) {
                Some(c) => Ok(ConstantAttribute::Char(c)),
                None => Err(ConstantValueReadError::NotFoundInPool),
            },
            crate::descriptors::Type::Double => match raw_class.constant_pool.find_double(idx) {
                Some(d) => Ok(ConstantAttribute::Double(d)),
                None => Err(ConstantValueReadError::NotFoundInPool),
            },
            crate::descriptors::Type::Float => match raw_class.constant_pool.find_float(idx) {
                Some(f) => Ok(ConstantAttribute::Float(f)),
                None => Err(ConstantValueReadError::NotFoundInPool),
            },
            crate::descriptors::Type::Integer => match raw_class.constant_pool.find_int(idx) {
                Some(i) => Ok(ConstantAttribute::Int(i)),
                None => Err(ConstantValueReadError::NotFoundInPool),
            },
            crate::descriptors::Type::Long => match raw_class.constant_pool.find_long(idx) {
                Some(l) => Ok(ConstantAttribute::Long(l)),
                None => Err(ConstantValueReadError::NotFoundInPool),
            },
            crate::descriptors::Type::Short => match raw_class.constant_pool.find_short(idx) {
                Some(s) => Ok(ConstantAttribute::Short(s)),
                None => Err(ConstantValueReadError::NotFoundInPool),
            },
            crate::descriptors::Type::Boolean => match raw_class.constant_pool.find_bool(idx) {
                Some(b) => Ok(ConstantAttribute::Boolean(b)),
                None => Err(ConstantValueReadError::NotFoundInPool),
            },
            crate::descriptors::Type::Void => Err(ConstantValueReadError::VoidField),
        },
        ComponentType::Object { class_name } => {
            if str_eq(class_name.as_str(), "java/lang/String") {
                match raw_class.constant_pool.find_string_ref(idx) {
                    Some(s) => Ok(ConstantAttribute::String(s.to_owned())),
                    None => Err(ConstantValueReadError::NotFoundInPool),
                }
            } else {
                Err(ConstantValueReadError::ReferenceTypeNotString)
            }
        },
    }
}

/// Copies a byte vector.
fn clone_bytes(b: &Vec<u8>) -> (r: Vec<u8>)
    ensures
        r@ == b@,
{
    let r = crate::classfile::copy_range(b, 0, b.len());
    proof {
        assert(b@.subrange(0, b@.len() as int) =~= b@);
    }
    r
}

/// Positions inside a `Code` attribute payload: length of the bytecode.
pub open spec fn code_clen(s: Seq<u8>) -> int {
    u32_at(s, 4) as int
}

/// Exception-table entry count of a `Code` attribute payload.
pub open spec fn code_et_count(s: Seq<u8>) -> int {
    u16_at(s, 8 + code_clen(s)) as int
}

/// Position of the exception table inside a `Code` attribute payload.
pub open spec fn code_et_base(s: Seq<u8>) -> int {
    8 + code_clen(s) + 2
}

/// Position of the nested attribute count inside a `Code` attribute payload.
pub open spec fn code_ac_pos(s: Seq<u8>) -> int {
    code_et_base(s) + 8 * code_et_count(s)
}

/// Whether a `Code` attribute payload is well-formed: fixed header, bytecode
/// bytes, exception table and counted nested raw attributes all fit.
pub open spec fn spec_code_layout_ok(s: Seq<u8>) -> bool {
    &&& s.len() >= 8
    &&& 8 + code_clen(s) + 2 <= s.len()
    &&& code_ac_pos(s) + 2 <= s.len()
    &&& crate::classfile::spec_parse_attributes(
        s,
        code_ac_pos(s) + 2,
        u16_at(s, code_ac_pos(s)) as int,
    ) is Ok
}

/// How a resolved `Code` attribute relates to its payload bytes: the fixed
/// header fields, the bytecode, the whole exception table, and each nested
/// attribute resolved by name as `attr_resolves` states. (A nested raw
/// attribute always carries fewer data bytes than the payload; the guard on
/// that bound grounds the recursion.)
pub open spec fn code_attr_matches(pool: Seq<SpecCpEntry>, s: Seq<u8>, c: CodeAttribute) -> bool
    decreases s.len(), 0int,
{
    let nested = crate::classfile::spec_parse_attributes(
        s,
        code_ac_pos(s) + 2,
        u16_at(s, code_ac_pos(s)) as int,
    )->Ok_0.0;
    &&& c.max_stack == u16_at(s, 0)
    &&& c.max_locals == u16_at(s, 2)
    &&& c.code@ == s.subrange(8, 8 + code_clen(s))
    &&& c.exception_table@ == Seq::new(
        code_et_count(s) as nat,
        |k: int|
            CodeExceptionRaw {
                start_pc: u16_at(s, code_et_base(s) + 8 * k),
                end_pc: u16_at(s, code_et_base(s) + 8 * k + 2),
                handler_pc: u16_at(s, code_et_base(s) + 8 * k + 4),
                catch_type: u16_at(s, code_et_base(s) + 8 * k + 6),
            },
    )
    &&& c.attributes@.len() == nested.len()
    &&& forall|k: int|
        0 <= k < nested.len() ==> (if nested[k].data.len() < s.len() {
            attr_resolves(pool, nested[k], #[trigger] c.attributes@[k])
        } else {
            true
        })
}

/// How one resolved attribute relates to its raw form, by its resolved name:
/// `Code`, `ConstantValue`, `Deprecated` and `SourceFile` are recognized;
/// any other name, an unresolvable name index, or a failed decode yields an
/// `Error` attribute carrying the original bytes.
pub open spec fn attr_resolves(
    pool: Seq<SpecCpEntry>,
    a: crate::classfile::SpecAttributeInfo,
    r: AttributeType,
) -> bool
    decreases a.data.len(), 1int,
{
    let nm = utf8_at(pool, a.name_index);
    if nm is None {
        r matches AttributeType::Error(e) && e.data@ == a.data
    } else if nm == Some("Deprecated"@) {
        r is Deprecated
    } else if nm == Some("ConstantValue"@) {
        match r {
            AttributeType::ConstantValueIndex(x) => a.data.len() >= 2 && x.value_cp_index
                == u16_at(a.data, 0),
            AttributeType::Error(e) => a.data.len() < 2 && e.data@ == a.data,
            _ => false,
        }
    } else if nm == Some("SourceFile"@) {
        match r {
            AttributeType::SourceFile(sf) => a.data.len() >= 2 && Some(sf.file_name@) == utf8_at(
                pool,
                u16_at(a.data, 0),
            ),
            AttributeType::Error(e) => (a.data.len() < 2 || utf8_at(
                pool,
                u16_at(a.data, 0),
            ) is None) && e.data@ == a.data,
            _ => false,
        }
    } else if nm == Some("Code"@) {
        match r {
            AttributeType::Code(c) => spec_code_layout_ok(a.data) && code_attr_matches(
                pool,
                a.data,
                c,
            ),
            AttributeType::Error(e) => !spec_code_layout_ok(a.data) && e.data@ == a.data,
            _ => false,
        }
    } else {
        r matches AttributeType::Error(e) && e.data@ == a.data
    }
}

/// How one resolved member-scope attribute relates to its raw form: as at
/// class scope, except that a `SourceFile` attribute is out of place on a
/// field or method and is kept as an `Error` attribute.
pub open spec fn member_attr_resolves(
    pool: Seq<SpecCpEntry>,
    a: crate::classfile::SpecAttributeInfo,
    r: AttributeType,
) -> bool {
    if utf8_at(pool, a.name_index) == Some("SourceFile"@) {
        r matches AttributeType::Error(e) && e.data@ == a.data
    } else {
        attr_resolves(pool, a, r)
    }
}

/// How one resolved field-scope attribute relates to its raw form: a
/// `ConstantValue` index is promoted through the field's descriptor
/// component to the typed value that `spec_field_constant_value` states, or
/// to an `Error` attribute exactly when that promotion fails; a `SourceFile`
/// attribute is out of place on a field; everything else resolves as at
/// class scope.
pub open spec fn field_attr_resolves(
    pool: Seq<SpecCpEntry>,
    elem: SpecComponentType,
    a: crate::classfile::SpecAttributeInfo,
    r: AttributeType,
) -> bool {
    let nm = utf8_at(pool, a.name_index);
    if nm == Some("ConstantValue"@) {
        if a.data.len() >= 2 {
            match r {
                AttributeType::ConstantValue(c) => spec_field_constant_value(
                    pool,
                    elem,
                    u16_at(a.data, 0),
                ) == Ok::<_, ConstantValueReadError>(c@),
                AttributeType::Error(e) => spec_field_constant_value(
                    pool,
                    elem,
                    u16_at(a.data, 0),
                ) is Err && e.data@ == a.data,
                _ => false,
            }
        } else {
            r matches AttributeType::Error(e) && e.data@ == a.data
        }
    } else if nm == Some("SourceFile"@) {
        r matches AttributeType::Error(e) && e.data@ == a.data
    } else {
        attr_resolves(pool, a, r)
    }
}

/// Every raw attribute parsed out of `s` carries strictly fewer data bytes
/// than `s` itself: each costs six header bytes.
proof fn lemma_attrs_data_bounded(s: Seq<u8>, pos: int, n: int)
    requires
        0 <= pos,
        crate::classfile::spec_parse_attributes(s, pos, n) is Ok,
    ensures
        forall|i: int|
            0 <= i < crate::classfile::spec_parse_attributes(s, pos, n)->Ok_0.0.len() ==> (
            #[trigger] crate::classfile::spec_parse_attributes(s, pos, n)->Ok_0.0[i]).data.len() + 6
                <= s.len(),
    decreases n,
{
    if n > 0 {
        let (a, p2) = crate::classfile::spec_read_attribute(s, pos)->Ok_0;
        lemma_attrs_data_bounded(s, p2, n - 1);
    }
}

impl SourceFileAttribute {
    /// Resolves a `SourceFile` attribute: a pool index that must hold the
    /// UTF-8 file name.
    pub fn read(data: &Vec<u8>, raw_class: &JavaClassFile) -> (r: Result<
        SourceFileAttribute,
        crate::errors::Error,
    >)
        ensures
            r is Ok <==> data@.len() >= 2 && utf8_at(
                raw_class.constant_pool@,
                u16_at(data@, 0),
            ) is Some,
            r matches Ok(sf) ==> Some(sf.file_name@) == utf8_at(
                raw_class.constant_pool@,
                u16_at(data@, 0),
            ),
            r matches Err(e) ==> e is Parse,
    {
        let idx = match read_u16_at(data, 0) {
            Some(v) => v,
            None => {
                return Err(crate::errors::Error::Parse("Truncated SourceFile attribute".to_owned()));
            },
        };
        match raw_class.constant_pool.find_utf8(idx) {
            Some(name) => Ok(SourceFileAttribute { file_name: name.to_owned() }),
            None => Err(crate::errors::Error::Parse("SourceFile name not found".to_owned())),
        }
    }
}

impl CodeAttribute {
    /// Decodes a `Code` attribute payload: max stack and locals, the raw
    /// bytecode, the exception table and the resolved nested attributes.
    #[verifier::loop_isolation(false)]
    pub fn read(data: &Vec<u8>, raw_class: &JavaClassFile) -> (r: Result<
        CodeAttribute,
        crate::errors::Error,
    >)
        ensures
            r is Ok <==> spec_code_layout_ok(data@),
            r matches Ok(c) ==> code_attr_matches(raw_class.constant_pool@, data@, c),
            r matches Err(e) ==> e is Parse,
        decreases data@.len(), 0int,
    {
        proof {
            vstd::std_specs::vec::axiom_spec_len(data);
        }
        let max_stack = match read_u16_at(data, 0) {
            Some(v) => v,
            None => {
                return Err(crate::errors::Error::Parse("Truncated Code attribute".to_owned()));
            },
        };
        let max_locals = match read_u16_at(data, 2) {
            Some(v) => v,
            None => {
                return Err(crate::errors::Error::Parse("Truncated Code attribute".to_owned()));
            },
        };
        let clen32 = match read_u32_at(data, 4) {
            Some(v) => v,
            None => {
                return Err(crate::errors::Error::Parse("Truncated Code attribute".to_owned()));
            },
        };
        if ((data.len() - 8) as u64) < clen32 as u64 {
            return Err(crate::errors::Error::Parse("Truncated Code attribute".to_owned()));
        }
        let clen = clen32 as usize;
        let code = crate::classfile::copy_range(data, 8, 8 + clen);
        let et_count = match read_u16_at(data, 8 + clen) {
            Some(v) => v,
            None => {
                return Err(crate::errors::Error::Parse("Truncated Code attribute".to_owned()));
            },
        };
        let base = 8 + clen + 2;
        if (data.len() - base) / 8 < et_count as usize {
            return Err(crate::errors::Error::Parse("Truncated exception table".to_owned()));
        }
        let mut exception_table: Vec<CodeExceptionRaw> = Vec::new();
        let mut k: usize = 0;
        proof {
            assert(exception_table@ =~= Seq::new(
                0,
                |j: int|
                    CodeExceptionRaw {
                        start_pc: u16_at(data@, code_et_base(data@) + 8 * j),
                        end_pc: u16_at(data@, code_et_base(data@) + 8 * j + 2),
                        handler_pc: u16_at(data@, code_et_base(data@) + 8 * j + 4),
                        catch_type: u16_at(data@, code_et_base(data@) + 8 * j + 6),
                    },
            ));
        }
        while k < et_count as usize
            invariant
                k <= et_count as usize,
                exception_table@ == Seq::new(
                    k as nat,
                    |j: int|
                        CodeExceptionRaw {
                            start_pc: u16_at(data@, code_et_base(data@) + 8 * j),
                            end_pc: u16_at(data@, code_et_base(data@) + 8 * j + 2),
                            handler_pc: u16_at(data@, code_et_base(data@) + 8 * j + 4),
                            catch_type: u16_at(data@, code_et_base(data@) + 8 * j + 6),
                        },
                ),
            decreases et_count as usize - k,
        {
            let start_pc = match read_u16_at(data, base + 8 * k) {
                Some(v) => v,
                None => {
                    proof {
                        assert(false);
                    }
                    return Err(crate::errors::Error::Parse("Truncated exception table".to_owned()));
                },
            };
            let end_pc = match read_u16_at(data, base + 8 * k + 2) {
                Some(v) => v,
                None => {
                    proof {
                        assert(false);
                    }
                    return Err(crate::errors::Error::Parse("Truncated exception table".to_owned()));
                },
            };
            let handler_pc = match read_u16_at(data, base + 8 * k + 4) {
                Some(v) => v,
                None => {
                    proof {
                        assert(false);
                    }
                    return Err(crate::errors::Error::Parse("Truncated exception table".to_owned()));
                },
            };
            let catch_type = match read_u16_at(data, base + 8 * k + 6) {
                Some(v) => v,
                None => {
                    proof {
                        assert(false);
                    }
                    return Err(crate::errors::Error::Parse("Truncated exception table".to_owned()));
                },
            };
            exception_table.push(CodeExceptionRaw { start_pc, end_pc, handler_pc, catch_type });
            proof {
                assert(exception_table@ =~= Seq::new(
                    (k + 1) as nat,
                    |j: int|
                        CodeExceptionRaw {
                            start_pc: u16_at(data@, code_et_base(data@) + 8 * j),
                            end_pc: u16_at(data@, code_et_base(data@) + 8 * j + 2),
                            handler_pc: u16_at(data@, code_et_base(data@) + 8 * j + 4),
                            catch_type: u16_at(data@, code_et_base(data@) + 8 * j + 6),
                        },
                ));
            }
            k = k + 1;
        }
        let ac_pos = base + 8 * et_count as usize;
        let acount = match read_u16_at(data, ac_pos) {
            Some(v) => v,
            None => {
                return Err(crate::errors::Error::Parse("Truncated Code attribute".to_owned()));
            },
        };
        let (raw_attrs, _end) = match crate::classfile::read_attributes(data, ac_pos + 2, acount) {
            Ok(v) => v,
            Err(e) => {
                return Err(e);
            },
        };
        proof {
            lemma_attrs_data_bounded(data@, ac_pos + 2, acount as int);
            let spec_attrs = crate::classfile::spec_parse_attributes(
                data@,
                ac_pos + 2,
                acount as int,
            )->Ok_0.0;
            assert(spec_attrs == Seq::new(raw_attrs@.len(), |i: int| raw_attrs@[i]@));
            assert forall|j: int| 0 <= j < raw_attrs@.len() implies (#[trigger] raw_attrs@[j]).data@.len()
                < data@.len() by {
                assert(spec_attrs[j] == raw_attrs@[j]@);
                assert(spec_attrs[j].data.len() + 6 <= data@.len());
            }
        }
        let mut attributes: Vec<AttributeType> = Vec::new();
        let mut i: usize = 0;
        while i < raw_attrs.len()
            invariant
                attributes@.len() == i,
                i <= raw_attrs@.len(),
                forall|j: int|
                    0 <= j < raw_attrs@.len() ==> (#[trigger] raw_attrs@[j]).data@.len()
                        < data@.len(),
                forall|j: int|
                    0 <= j < i ==> attr_resolves(
                        raw_class.constant_pool@,
                        raw_attrs@[j]@,
                        #[trigger] attributes@[j],
                    ),
            decreases raw_attrs@.len() - i,
        {
            let resolved = parse_attribute(&raw_attrs[i], raw_class);
            attributes.push(resolved);
            i = i + 1;
        }
        proof {
            let nested = crate::classfile::spec_parse_attributes(
                data@,
                ac_pos + 2,
                acount as int,
            )->Ok_0.0;
            assert forall|k: int|
                0 <= k < nested.len() implies (if nested[k].data.len() < data@.len() {
                attr_resolves(raw_class.constant_pool@, nested[k], #[trigger] attributes@[k])
            } else {
                true
            }) by {
                assert(nested[k] == raw_attrs@[k]@);
            }
        }
        Ok(CodeAttribute { max_stack, max_locals, code, exception_table, attributes })
    }
}

/// Resolves one raw attribute by its name. Recognized names are `Code`,
/// `ConstantValue`, `Deprecated` and `SourceFile`; any other name, an
/// unresolvable name index, or a failed decode yields an `Error` attribute
/// carrying the original bytes.
#[verifier::loop_isolation(false)]
pub fn parse_attribute(a: &AttributeInfo, raw_class: &JavaClassFile) -> (r: AttributeType)
    ensures
        attr_resolves(raw_class.constant_pool@, a@, r),
    decreases a.data@.len(), 1int,
{
    proof {
        vstd::std_specs::vec::axiom_spec_len(&a.data);
        reveal_strlit("Code");
        reveal_strlit("ConstantValue");
        reveal_strlit("Deprecated");
        reveal_strlit("SourceFile");
        assert("Code"@.len() == 4);
        assert("ConstantValue"@.len() == 13);
        assert("Deprecated"@.len() == 10);
        assert("SourceFile"@.len() == 10);
        assert("Deprecated"@[0] == 'D');
        assert("SourceFile"@[0] == 'S');
    }
    let name = match raw_class.constant_pool.find_utf8(a.name_index) {
        Some(s) => s,
        None => {
            return AttributeType::Error(
                ErrorAttribute {
                    message: "Attribute name not found".to_owned(),
                    data: clone_bytes(&a.data),
                },
            );
        },
    };
    proof {
        assert(utf8_at(raw_class.constant_pool@, a.name_index) == Some(name@));
    }
    if str_eq(name, "Code") {
        match CodeAttribute::read(&a.data, raw_class) {
            Ok(c) => AttributeType::Code(c),
            Err(_) => AttributeType::Error(
                ErrorAttribute {
                    message: "Deserialization error".to_owned(),
                    data: clone_bytes(&a.data),
                },
            ),
        }
    } else if str_eq(name, "ConstantValue") {
        match read_u16_at(&a.data, 0) {
            Some(v) => AttributeType::ConstantValueIndex(
                ConstantValueAttributeRaw { value_cp_index: v },
            ),
            None => AttributeType::Error(
                ErrorAttribute {
                    message: "Deserialization error".to_owned(),
                    data: clone_bytes(&a.data),
                },
            ),
        }
    } else if str_eq(name, "Deprecated") {
        AttributeType::Deprecated
    } else if str_eq(name, "SourceFile") {
        match SourceFileAttribute::read(&a.data, raw_class) {
            Ok(sf) => AttributeType::SourceFile(sf),
            Err(_) => AttributeType::Error(
                ErrorAttribute {
                    message: "Deserialization error".to_owned(),
                    data: clone_bytes(&a.data),
                },
            ),
        }
    } else {
        let mut message = "Not supported: ".to_owned();
        message.append(name);
        AttributeType::Error(
            ErrorAttribute { message, data: clone_bytes(&a.data) },
        )
    }
}

/// The surface of a linked field: access flags, resolved name, parsed
/// descriptor.
pub open spec fn field_surface(f: Field) -> (u16, Seq<char>, SpecFieldDescriptor) {
    (f.access_flags.0, f.name@, f.descriptor@)
}

/// The surface of a linked method.
pub open spec fn method_surface(m: Method) -> (u16, Seq<char>, SpecMethodDescriptor) {
    (m.access_flags.0, m.name@, m.descriptor@)
}

/// The fields that linking keeps: one surface per raw field whose name and
/// descriptor resolve to UTF-8 entries and whose descriptor parses; the
/// others are skipped.
pub open spec fn spec_linked_fields(
    pool: Seq<SpecCpEntry>,
    ms: Seq<crate::classfile::SpecMemberInfo>,
) -> Seq<(u16, Seq<char>, SpecFieldDescriptor)>
    decreases ms.len(),
{
    if ms.len() == 0 {
        Seq::empty()
    } else {
        let m = ms[0];
        let rest = spec_linked_fields(pool, ms.drop_first());
        match utf8_at(pool, m.name_index) {
            None => rest,
            Some(nm) => match utf8_at(pool, m.descriptor_index) {
                None => rest,
                Some(ds) => match spec_parse_field_descriptor(ds) {
                    Ok(d) => seq![(m.access_flags, nm, d)] + rest,
                    Err(_) => rest,
                },
            },
        }
    }
}

/// The methods that linking keeps, in the same way.
pub open spec fn spec_linked_methods(
    pool: Seq<SpecCpEntry>,
    ms: Seq<crate::classfile::SpecMemberInfo>,
) -> Seq<(u16, Seq<char>, SpecMethodDescriptor)>
    decreases ms.len(),
{
    if ms.len() == 0 {
        Seq::empty()
    } else {
        let m = ms[0];
        let rest = spec_linked_methods(pool, ms.drop_first());
        match utf8_at(pool, m.name_index) {
            None => rest,
            Some(nm) => match utf8_at(pool, m.descriptor_index) {
                None => rest,
                Some(ds) => match spec_parse_method_descriptor(ds) {
                    Ok(d) => seq![(m.access_flags, nm, d)] + rest,
                    Err(_) => rest,
                },
            },
        }
    }
}

/// Resolves one field's attributes: a `ConstantValue` index is promoted to
/// a typed value through the field's descriptor, or kept as an `Error` when
/// the promotion fails; a `SourceFile` attribute is out of place on a field
/// and becomes an `Error`; everything else resolves by name.
#[verifier::loop_isolation(false)]
fn resolve_field_attributes(field: &mut Field, field_info: &FieldInfo, raw_class: &JavaClassFile)
    ensures
        final(field).access_flags == old(field).access_flags,
        final(field).name == old(field).name,
        final(field).descriptor == old(field).descriptor,
        final(field).attributes@.len() == old(field).attributes@.len()
            + field_info.attributes@.len(),
        forall|j: int|
            0 <= j < field_info.attributes@.len() ==> field_attr_resolves(
                raw_class.constant_pool@,
                old(field).descriptor.element_type@,
                (#[trigger] field_info.attributes@[j])@,
                final(field).attributes@[old(field).attributes@.len() + j],
            ),
{
    proof {
        reveal_strlit("Code");
        reveal_strlit("ConstantValue");
        reveal_strlit("Deprecated");
        reveal_strlit("SourceFile");
        assert("Code"@.len() == 4);
        assert("ConstantValue"@.len() == 13);
        assert("Deprecated"@.len() == 10);
        assert("SourceFile"@.len() == 10);
        assert("Deprecated"@[0] == 'D');
        assert("SourceFile"@[0] == 'S');
    }
    let mut j: usize = 0;
    while j < field_info.attributes.len()
        invariant
            j <= field_info.attributes@.len(),
            field.access_flags == old(field).access_flags,
            field.name == old(field).name,
            field.descriptor == old(field).descriptor,
            field.attributes@.len() == old(field).attributes@.len() + j,
            forall|k: int|
                0 <= k < j ==> field_attr_resolves(
                    raw_class.constant_pool@,
                    old(field).descriptor.element_type@,
                    (#[trigger] field_info.attributes@[k])@,
                    field.attributes@[old(field).attributes@.len() + k],
                ),
        decreases field_info.attributes@.len() - j,
    {
        let a_info = &field_info.attributes[j];
        let parsed = parse_attribute(a_info, raw_class);
        match parsed {
            AttributeType::ConstantValueIndex(idx) => {
                match parse_field_constant_value(field, idx.value_cp_index, raw_class) {
                    Ok(cvalue) => {
                        field.attributes.push(AttributeType::ConstantValue(cvalue));
                    },
                    Err(_) => {
                        field.attributes.push(
                            AttributeType::Error(
                                ErrorAttribute {
                                    message: "Could not parse constant value".to_owned(),
                                    data: clone_bytes(&a_info.data),
                                },
                            ),
                        );
                    },
                }
            },
            AttributeType::SourceFile(_) => {
                field.attributes.push(
                    AttributeType::Error(
                        ErrorAttribute {
                            message: "Not supported at member scope: SourceFile".to_owned(),
                            data: clone_bytes(&a_info.data),
                        },
                    ),
                );
            },
            other => {
                field.attributes.push(other);
            },
        }
        j = j + 1;
    }
}

/// Resolves one method's attributes: as at class scope, except that a
/// `SourceFile` attribute is out of place on a method and becomes an
/// `Error`.
#[verifier::loop_isolation(false)]
fn resolve_method_attributes(
    method: &mut Method,
    method_info: &MethodInfo,
    raw_class: &JavaClassFile,
)
    ensures
        final(method).access_flags == old(method).access_flags,
        final(method).name == old(method).name,
        final(method).descriptor == old(method).descriptor,
        final(method).attributes@.len() == old(method).attributes@.len()
            + method_info.attributes@.len(),
        forall|j: int|
            0 <= j < method_info.attributes@.len() ==> member_attr_resolves(
                raw_class.constant_pool@,
                (#[trigger] method_info.attributes@[j])@,
                final(method).attributes@[old(method).attributes@.len() + j],
            ),
{
    proof {
        reveal_strlit("Code");
        reveal_strlit("ConstantValue");
        reveal_strlit("Deprecated");
        reveal_strlit("SourceFile");
        assert("Code"@.len() == 4);
        assert("ConstantValue"@.len() == 13);
        assert("Deprecated"@.len() == 10);
        assert("SourceFile"@.len() == 10);
        assert("Deprecated"@[0] == 'D');
        assert("SourceFile"@[0] == 'S');
    }
    let mut j: usize = 0;
    while j < method_info.attributes.len()
        invariant
            j <= method_info.attributes@.len(),
            method.access_flags == old(method).access_flags,
            method.name == old(method).name,
            method.descriptor == old(method).descriptor,
            method.attributes@.len() == old(method).attributes@.len() + j,
            forall|k: int|
                0 <= k < j ==> member_attr_resolves(
                    raw_class.constant_pool@,
                    (#[trigger] method_info.attributes@[k])@,
                    method.attributes@[old(method).attributes@.len() + k],
                ),
        decreases method_info.attributes@.len() - j,
    {
        let a_info = &method_info.attributes[j];
        let parsed = parse_attribute(a_info, raw_class);
        match parsed {
            AttributeType::SourceFile(_) => {
                method.attributes.push(
                    AttributeType::Error(
                        ErrorAttribute {
                            message: "Not supported at member scope: SourceFile".to_owned(),
                            data: clone_bytes(&a_info.data),
                        },
                    ),
                );
            },
            other => {
                method.attributes.push(other);
            },
        }
        j = j + 1;
    }
}

/// Links the raw fields of a class: resolves names and descriptors through
/// the pool, parses descriptors, and resolves each field's attributes. A
/// field whose name or descriptor does not resolve or parse is skipped.
#[verifier::loop_isolation(false)]
pub fn parse_fields(class: &mut JavaClass, raw_class: &JavaClassFile)
    ensures
        ({
            let linked = spec_linked_fields(raw_class.constant_pool@, raw_class@.fields);
            &&& final(class).fields@.len() == old(class).fields@.len() + linked.len()
            &&& forall|k: int|
                0 <= k < linked.len() ==> field_surface(
                    #[trigger] final(class).fields@[old(class).fields@.len() + k],
                ) == linked[k]
        }),
        forall|k: int|
            0 <= k < old(class).fields@.len() ==> final(class).fields@[k] == old(class).fields@[k],
        final(class).version == old(class).version,
        final(class).name == old(class).name,
        final(class).super_class == old(class).super_class,
        final(class).interfaces == old(class).interfaces,
        final(class).methods == old(class).methods,
        final(class).attributes == old(class).attributes,
{
    let ghost pool = raw_class.constant_pool@;
    let ghost raws = raw_class@.fields;
    let ghost old_len = class.fields@.len();
    let mut i: usize = 0;
    proof {
        assert(raws.skip(0) =~= raws);
        assert(Seq::new(0, |k: int| field_surface(class.fields@[old_len + k]))
            + spec_linked_fields(pool, raws.skip(0)) =~= spec_linked_fields(pool, raws));
    }
    while i < raw_class.fields.len()
        invariant
            i <= raws.len(),
            raws.len() == raw_class.fields@.len(),
            class.fields@.len() >= old_len,
            Seq::new(
                (class.fields@.len() - old_len) as nat,
                |k: int| field_surface(class.fields@[old_len + k]),
            ) + spec_linked_fields(pool, raws.skip(i as int)) == spec_linked_fields(pool, raws),
            forall|k: int| 0 <= k < old_len ==> class.fields@[k] == old(class).fields@[k],
            class.version == old(class).version,
            class.name == old(class).name,
            class.super_class == old(class).super_class,
            class.interfaces == old(class).interfaces,
            class.methods == old(class).methods,
            class.attributes == old(class).attributes,
        decreases raws.len() - i,
    {
        let field_info = &raw_class.fields[i];
        proof {
            assert(raws[i as int] == raw_class.fields@[i as int]@);
            assert(raws.skip(i as int)[0] == raws[i as int]);
            assert(raws.skip(i as int).drop_first() =~= raws.skip(i + 1));
        }
        let ghost prefix = Seq::new(
            (class.fields@.len() - old_len) as nat,
            |k: int| field_surface(class.fields@[old_len + k]),
        );
        let name = match raw_class.constant_pool.find_utf8(field_info.name_index) {
            Some(s) => s,
            None => {
                i = i + 1;
                continue ;
            },
        };
        let descriptor_raw = match raw_class.constant_pool.find_utf8(field_info.descriptor_index) {
            Some(s) => s,
            None => {
                i = i + 1;
                continue ;
            },
        };
        let descriptor = match parse_field_descriptor(descriptor_raw) {
            Ok(d) => d,
            Err(_) => {
                i = i + 1;
                continue ;
            },
        };
        let mut field = Field::new(field_info.access_flags, name, descriptor);
        resolve_field_attributes(&mut field, field_info, raw_class);
        let ghost surf = field_surface(field);
        class.fields.push(field);
        proof {
            assert(Seq::new(
                (class.fields@.len() - old_len) as nat,
                |k: int| field_surface(class.fields@[old_len + k]),
            ) =~= prefix.push(surf));
            let rest = spec_linked_fields(pool, raws.skip(i + 1));
            assert(spec_linked_fields(pool, raws.skip(i as int)) == seq![surf] + rest);
            assert(prefix + (seq![surf] + rest) =~= prefix.push(surf) + rest);
        }
        i = i + 1;
    }
    proof {
        assert(raws.skip(raws.len() as int) =~= Seq::<crate::classfile::SpecMemberInfo>::empty());
        assert(Seq::new(
            (class.fields@.len() - old_len) as nat,
            |k: int| field_surface(class.fields@[old_len + k]),
        ) + Seq::<(u16, Seq<char>, SpecFieldDescriptor)>::empty() =~= Seq::new(
            (class.fields@.len() - old_len) as nat,
            |k: int| field_surface(class.fields@[old_len + k]),
        ));
    }
}

/// Links the raw methods of a class, in the same way as the fields; method
/// attributes are resolved without constant-value promotion.
#[verifier::loop_isolation(false)]
pub fn parse_methods(class: &mut JavaClass, raw_class: &JavaClassFile)
    ensures
        ({
            let linked = spec_linked_methods(raw_class.constant_pool@, raw_class@.methods);
            &&& final(class).methods@.len() == old(class).methods@.len() + linked.len()
            &&& forall|k: int|
                0 <= k < linked.len() ==> method_surface(
                    #[trigger] final(class).methods@[old(class).methods@.len() + k],
                ) == linked[k]
        }),
        forall|k: int|
            0 <= k < old(class).methods@.len() ==> final(class).methods@[k] == old(
                class,
            ).methods@[k],
        final(class).version == old(class).version,
        final(class).name == old(class).name,
        final(class).super_class == old(class).super_class,
        final(class).interfaces == old(class).interfaces,
        final(class).fields == old(class).fields,
        final(class).attributes == old(class).attributes,
{
    let ghost pool = raw_class.constant_pool@;
    let ghost raws = raw_class@.methods;
    let ghost old_len = class.methods@.len();
    let mut i: usize = 0;
    proof {
        assert(raws.skip(0) =~= raws);
        assert(Seq::new(0, |k: int| method_surface(class.methods@[old_len + k]))
            + spec_linked_methods(pool, raws.skip(0)) =~= spec_linked_methods(pool, raws));
    }
    while i < raw_class.methods.len()
        invariant
            i <= raws.len(),
            raws.len() == raw_class.methods@.len(),
            class.methods@.len() >= old_len,
            Seq::new(
                (class.methods@.len() - old_len) as nat,
                |k: int| method_surface(class.methods@[old_len + k]),
            ) + spec_linked_methods(pool, raws.skip(i as int)) == spec_linked_methods(pool, raws),
            forall|k: int| 0 <= k < old_len ==> class.methods@[k] == old(class).methods@[k],
            class.version == old(class).version,
            class.name == old(class).name,
            class.super_class == old(class).super_class,
            class.interfaces == old(class).interfaces,
            class.fields == old(class).fields,
            class.attributes == old(class).attributes,
        decreases raws.len() - i,
    {
        let method_info = &raw_class.methods[i];
        proof {
            assert(raws[i as int] == raw_class.methods@[i as int]@);
            assert(raws.skip(i as int)[0] == raws[i as int]);
            assert(raws.skip(i as int).drop_first() =~= raws.skip(i + 1));
        }
        let ghost prefix = Seq::new(
            (class.methods@.len() - old_len) as nat,
            |k: int| method_surface(class.methods@[old_len + k]),
        );
        let name = match raw_class.constant_pool.find_utf8(method_info.name_index) {
            Some(s) => s,
            None => {
                i = i + 1;
                continue ;
            },
        };
        let descriptor_raw = match raw_class.constant_pool.find_utf8(method_info.descriptor_index) {
            Some(s) => s,
            None => {
                i = i + 1;
                continue ;
            },
        };
        let descriptor = match parse_method_descriptor(descriptor_raw) {
            Ok(d) => d,
            Err(_) => {
                i = i + 1;
                continue ;
            },
        };
        let mut method = Method::new(method_info.access_flags, name, descriptor);
        resolve_method_attributes(&mut method, method_info, raw_class);
        let ghost surf = method_surface(method);
        class.methods.push(method);
        proof {
            assert(Seq::new(
                (class.methods@.len() - old_len) as nat,
                |k: int| method_surface(class.methods@[old_len + k]),
            ) =~= prefix.push(surf));
            let rest = spec_linked_methods(pool, raws.skip(i + 1));
            assert(spec_linked_methods(pool, raws.skip(i as int)) == seq![surf] + rest);
            assert(prefix + (seq![surf] + rest) =~= prefix.push(surf) + rest);
        }
        i = i + 1;
    }
    proof {
        assert(raws.skip(raws.len() as int) =~= Seq::<crate::classfile::SpecMemberInfo>::empty());
        assert(Seq::new(
            (class.methods@.len() - old_len) as nat,
            |k: int| method_surface(class.methods@[old_len + k]),
        ) + Seq::<(u16, Seq<char>, SpecMethodDescriptor)>::empty() =~= Seq::new(
            (class.methods@.len() - old_len) as nat,
            |k: int| method_surface(class.methods@[old_len + k]),
        ));
    }
}

/// Resolves every class-scope attribute of `raw_class` onto `class`, each
/// by its name as `attr_resolves` states.
#[verifier::loop_isolation(false)]
pub fn parse_class_attributes(class: &mut JavaClass, raw_class: &JavaClassFile)
    ensures
        final(class).attributes@.len() == old(class).attributes@.len()
            + raw_class.attributes@.len(),
        forall|j: int|
            0 <= j < raw_class.attributes@.len() ==> attr_resolves(
                raw_class.constant_pool@,
                (#[trigger] raw_class.attributes@[j])@,
                final(class).attributes@[old(class).attributes@.len() + j],
            ),
        final(class).version == old(class).version,
        final(class).name == old(class).name,
        final(class).super_class == old(class).super_class,
        final(class).interfaces == old(class).interfaces,
        final(class).fields == old(class).fields,
        final(class).methods == old(class).methods,
{
    let mut i: usize = 0;
    while i < raw_class.attributes.len()
        invariant
            i <= raw_class.attributes@.len(),
            class.attributes@.len() == old(class).attributes@.len() + i,
            forall|j: int|
                0 <= j < i ==> attr_resolves(
                    raw_class.constant_pool@,
                    (#[trigger] raw_class.attributes@[j])@,
                    class.attributes@[old(class).attributes@.len() + j],
                ),
            class.version == old(class).version,
            class.name == old(class).name,
            class.super_class == old(class).super_class,
            class.interfaces == old(class).interfaces,
            class.fields == old(class).fields,
            class.methods == old(class).methods,
        decreases raw_class.attributes@.len() - i,
    {
        let parsed = parse_attribute(&raw_class.attributes[i], raw_class);
        class.attributes.push(parsed);
        i = i + 1;
    }
}

/// The name of a shared class handle.
pub open spec fn rc_class_name(rc: Rc<JavaClass>) -> Seq<char> {
    (*rc).name@
}

/// No two classes in the collection share a name.
pub open spec fn class_names_distinct(cs: Seq<Rc<JavaClass>>) -> bool {
    forall|i: int, j: int|
        0 <= i < j < cs.len() ==> rc_class_name(#[trigger] cs[i]) != rc_class_name(#[trigger] cs[j])
}

/// Whether some class in the collection carries this name.
pub open spec fn container_has_name(cs: Seq<Rc<JavaClass>>, nm: Seq<char>) -> bool {
    exists|j: int| 0 <= j < cs.len() && rc_class_name(#[trigger] cs[j]) == nm
}

/// The super-class name a raw class refers to, when `super_class` is nonzero
/// and both pool lookups land on entries of the right kind.
pub open spec fn spec_super_name(cf: crate::classfile::SpecClassFile) -> Option<Seq<char>> {
    if cf.super_class == 0 {
        None
    } else if cf.super_class < cf.constant_pool.len() {
        match cf.constant_pool[cf.super_class as int] {
            SpecCpEntry::Class(ni) => utf8_at(cf.constant_pool, ni),
            _ => None,
        }
    } else {
        None
    }
}

/// The name-indexed result of linking: shared class handles under distinct
/// names.
pub struct JavaClassContainer {
    pub classes: Vec<Rc<JavaClass>>,
}

impl JavaClassContainer {
    /// Number of linked classes, placeholders included.
    pub fn len(&self) -> (r: usize)
        ensures
            r == self.classes@.len(),
    {
        self.classes.len()
    }

    /// Looks a class up by name.
    pub fn get(&self, name: &str) -> (r: Option<Rc<JavaClass>>)
        ensures
            r matches Some(rc) ==> rc_class_name(rc) == name@ && exists|j: int|
                0 <= j < self.classes@.len() && #[trigger] self.classes@[j] == rc,
            r is None ==> !container_has_name(self.classes@, name@),
    {
        find_in(&self.classes, name)
    }
}

/// Linear search for a class by name.
#[verifier::loop_isolation(false)]
fn find_in(classes: &Vec<Rc<JavaClass>>, name: &str) -> (r: Option<Rc<JavaClass>>)
    ensures
        r matches Some(rc) ==> rc_class_name(rc) == name@ && exists|j: int|
            0 <= j < classes@.len() && #[trigger] classes@[j] == rc,
        r is None ==> !container_has_name(classes@, name@),
{
    let mut i: usize = 0;
    while i < classes.len()
        invariant
            i <= classes@.len(),
            forall|j: int| 0 <= j < i ==> rc_class_name(#[trigger] classes@[j]) != name@,
        decreases classes@.len() - i,
    {
        if str_eq(classes[i].name.as_str(), name) {
            let rc = rc_clone(&classes[i]);
            return Some(rc);
        }
        i = i + 1;
    }
    None
}

/// How a linked class relates to the raw class it came from: the resolved
/// name and version, one linked field and method per raw member whose name
/// and descriptor resolve and parse, one resolved attribute per raw
/// class-scope attribute, and the super class that `spec_super_name` names.
pub open spec fn linked_class_matches(c: JavaClass, raw: JavaClassFile) -> bool {
    let pool = raw.constant_pool@;
    let linked_f = spec_linked_fields(pool, raw@.fields);
    let linked_m = spec_linked_methods(pool, raw@.methods);
    &&& c.name@ == crate::classfile::spec_class_name(raw@)
    &&& c.version == raw.version
    &&& c.fields@.len() == linked_f.len()
    &&& forall|k: int|
        0 <= k < linked_f.len() ==> field_surface(#[trigger] c.fields@[k]) == linked_f[k]
    &&& c.methods@.len() == linked_m.len()
    &&& forall|k: int|
        0 <= k < linked_m.len() ==> method_surface(#[trigger] c.methods@[k]) == linked_m[k]
    &&& c.attributes@.len() == raw.attributes@.len()
    &&& forall|k: int|
        0 <= k < raw.attributes@.len() ==> attr_resolves(
            pool,
            raw@.attributes[k],
            #[trigger] c.attributes@[k],
        )
    &&& (spec_super_name(raw@) is None ==> c.super_class is None)
    &&& (spec_super_name(raw@) matches Some(nm) ==> (c.super_class matches Some(s)
        && rc_class_name(s) == nm))
}

/// Whether raw class `i` resolves to the name `nm`.
pub open spec fn raw_named(raws: Seq<JavaClassFile>, i: int, nm: Seq<char>) -> bool {
    &&& 0 <= i < raws.len()
    &&& crate::classfile::class_name_resolvable(raws[i]@)
    &&& crate::classfile::spec_class_name(raws[i]@) == nm
}

/// Whether raw class `i` is the first in the set that resolves to `nm`:
/// when names collide, the first raw class wins, as memoization by name
/// dictates.
pub open spec fn is_first_raw_with(raws: Seq<JavaClassFile>, i: int, nm: Seq<char>) -> bool {
    &&& raw_named(raws, i, nm)
    &&& forall|i2: int| 0 <= i2 < i ==> !raw_named(raws, i2, nm)
}

/// Whether `rc` stands in the raw set as the first class of its own name.
pub open spec fn is_first_raw_class(raws: Seq<JavaClassFile>, rc: JavaClassFile) -> bool {
    exists|i: int|
        0 <= i < raws.len() && raws[i] == rc && #[trigger] is_first_raw_with(
            raws,
            i,
            crate::classfile::spec_class_name(rc@),
        )
}

/// A name-only placeholder: no super, no members, no attributes.
pub open spec fn is_name_placeholder(c: JavaClass, nm: Seq<char>) -> bool {
    &&& c.name@ == nm
    &&& c.super_class is None
    &&& c.interfaces@.len() == 0
    &&& c.fields@.len() == 0
    &&& c.methods@.len() == 0
    &&& c.attributes@.len() == 0
}

/// The collection invariant, up to the names in `exc` (classes whose linking
/// is in progress): every entry whose name some raw class carries is the
/// linked form of the first such raw class. An entry whose name no raw class
/// carries (a placeholder super) is unconstrained here.
pub open spec fn classes_linked_except(
    raws: Seq<JavaClassFile>,
    classes: Seq<Rc<JavaClass>>,
    exc: Set<Seq<char>>,
) -> bool {
    forall|j: int|
        0 <= j < classes.len() ==> (exc.contains(rc_class_name(#[trigger] classes[j]))
            || (forall|i: int|
            is_first_raw_with(raws, i, rc_class_name(classes[j])) ==> linked_class_matches(
                *classes[j],
                raws[i],
            )))
}

/// Every stored super handle's name is itself in the collection: super
/// references are lookups into the name-indexed collection.
pub open spec fn supers_named(classes: Seq<Rc<JavaClass>>) -> bool {
    forall|j: int|
        0 <= j < classes.len() ==> ((*#[trigger] classes[j]).super_class matches Some(s)
            ==> container_has_name(classes, rc_class_name(s)))
}

/// Every in-progress name is present in the collection (as its placeholder).
pub open spec fn exc_names_present(classes: Seq<Rc<JavaClass>>, exc: Set<Seq<char>>) -> bool {
    forall|nm: Seq<char>| #[trigger] exc.contains(nm) ==> container_has_name(classes, nm)
}

/// How many raw classes still lack an entry of their name in the collection:
/// the linker's termination measure.
pub open spec fn missing_count(raws: Seq<JavaClassFile>, classes: Seq<Rc<JavaClass>>) -> nat
    decreases raws.len(),
{
    if raws.len() == 0 {
        0
    } else {
        let head: nat = if crate::classfile::class_name_resolvable(raws[0]@)
            && !container_has_name(classes, crate::classfile::spec_class_name(raws[0]@)) {
            1
        } else {
            0
        };
        head + missing_count(raws.drop_first(), classes)
    }
}

/// Names present in one collection stay present in a collection whose
/// entries carry the same names position by position, possibly with more
/// entries after them.
proof fn lemma_has_name_mono(cs: Seq<Rc<JavaClass>>, cs2: Seq<Rc<JavaClass>>, nm: Seq<char>)
    requires
        cs2.len() >= cs.len(),
        forall|k: int| 0 <= k < cs.len() ==> rc_class_name(#[trigger] cs2[k]) == rc_class_name(cs[k]),
        container_has_name(cs, nm),
    ensures
        container_has_name(cs2, nm),
{
    let j = choose|j: int| 0 <= j < cs.len() && rc_class_name(#[trigger] cs[j]) == nm;
    assert(rc_class_name(cs2[j]) == nm);
}

/// Growing the set of present names never increases the number of missing
/// raw classes.
proof fn lemma_missing_nonincrease(
    raws: Seq<JavaClassFile>,
    cs: Seq<Rc<JavaClass>>,
    cs2: Seq<Rc<JavaClass>>,
)
    requires
        forall|nm: Seq<char>| container_has_name(cs, nm) ==> #[trigger] container_has_name(cs2, nm),
    ensures
        missing_count(raws, cs2) <= missing_count(raws, cs),
    decreases raws.len(),
{
    if raws.len() > 0 {
        lemma_missing_nonincrease(raws.drop_first(), cs, cs2);
    }
}

/// Adding the name of some raw class that was missing strictly shrinks the
/// number of missing raw classes.
proof fn lemma_missing_decrease(
    raws: Seq<JavaClassFile>,
    cs: Seq<Rc<JavaClass>>,
    cs2: Seq<Rc<JavaClass>>,
    nm: Seq<char>,
)
    requires
        forall|n: Seq<char>| container_has_name(cs, n) ==> #[trigger] container_has_name(cs2, n),
        container_has_name(cs2, nm),
        !container_has_name(cs, nm),
        exists|i: int| raw_named(raws, i, nm),
    ensures
        missing_count(raws, cs2) < missing_count(raws, cs),
    decreases raws.len(),
{
    let i = choose|i: int| raw_named(raws, i, nm);
    if i == 0 {
        lemma_missing_nonincrease(raws.drop_first(), cs, cs2);
    } else {
        assert(raw_named(raws.drop_first(), i - 1, nm));
        lemma_missing_decrease(raws.drop_first(), cs, cs2, nm);
    }
}

/// Builds linked classes from a set of raw decoded class files, memoized by
/// class name.
pub struct JavaClassContainerBuilder<'a> {
    pub raw_classes: &'a Vec<JavaClassFile>,
    pub classes: Vec<Rc<JavaClass>>,
}

impl<'a> JavaClassContainerBuilder<'a> {
    pub fn new(raw_classes: &'a Vec<JavaClassFile>) -> (r: Self)
        ensures
            r.raw_classes == raw_classes,
            r.classes@.len() == 0,
    {
        JavaClassContainerBuilder { raw_classes, classes: Vec::new() }
    }

    /// Looks an already-linked class up by name; the returned handle is the
    /// collection's own entry.
    fn find_class(&self, name: &str) -> (r: Option<Rc<JavaClass>>)
        ensures
            r matches Some(rc) ==> rc_class_name(rc) == name@ && exists|j: int|
                0 <= j < self.classes@.len() && #[trigger] self.classes@[j] == rc,
            r is None ==> !container_has_name(self.classes@, name@),
    {
        find_in(&self.classes, name)
    }

    /// The position of a name in the collection.
    fn find_index(&self, name: &str) -> (r: Option<usize>)
        ensures
            r matches Some(i) ==> i < self.classes@.len() && rc_class_name(self.classes@[i as int])
                == name@,
            r is None ==> !container_has_name(self.classes@, name@),
    {
        let mut i: usize = 0;
        while i < self.classes.len()
            invariant
                i <= self.classes@.len(),
                forall|j: int| 0 <= j < i ==> rc_class_name(#[trigger] self.classes@[j]) != name@,
            decreases self.classes@.len() - i,
        {
            if str_eq(self.classes[i].name.as_str(), name) {
                return Some(i);
            }
            i = i + 1;
        }
        None
    }

    /// The first raw class that resolves to this name, if any.
    #[verifier::loop_isolation(false)]
    fn find_raw_index(&self, name: &str) -> (r: Option<usize>)
        ensures
            r matches Some(i) ==> is_first_raw_with(self.raw_classes@, i as int, name@),
            r is None ==> forall|i: int| !raw_named(self.raw_classes@, i, name@),
    {
        let mut i: usize = 0;
        while i < self.raw_classes.len()
            invariant
                i <= self.raw_classes@.len(),
                forall|j: int| 0 <= j < i ==> !raw_named(self.raw_classes@, j, name@),
            decreases self.raw_classes@.len() - i,
        {
            match self.raw_classes[i].try_get_name() {
                Some(nm) => {
                    if str_eq(nm, name) {
                        return Some(i);
                    }
                },
                None => {},
            }
            i = i + 1;
        }
        None
    }

    /// Resolves a class's super class, sharing handles through the
    /// name-indexed collection: none when `super_class` is zero or its name
    /// does not resolve; the already-linked class of that name when there is
    /// one; else the recursively linked first raw class of that name when
    /// one exists; else a fresh name-only placeholder, which also joins the
    /// collection. Either way the stored handle is the collection's entry at
    /// the time it is stored.
    pub fn parse_super_class(
        &mut self,
        class: &mut JavaClass,
        raw_class: &JavaClassFile,
        Ghost(exc): Ghost<Set<Seq<char>>>,
    )
        requires
            class_names_distinct(old(self).classes@),
            classes_linked_except(old(self).raw_classes@, old(self).classes@, exc),
            supers_named(old(self).classes@),
            exc_names_present(old(self).classes@, exc),
        ensures
            class_names_distinct(final(self).classes@),
            classes_linked_except(final(self).raw_classes@, final(self).classes@, exc),
            supers_named(final(self).classes@),
            exc_names_present(final(self).classes@, exc),
            final(self).raw_classes == old(self).raw_classes,
            final(self).classes@.len() >= old(self).classes@.len(),
            forall|k: int|
                0 <= k < old(self).classes@.len() ==> #[trigger] final(self).classes@[k] == old(
                    self,
                ).classes@[k],
            spec_super_name(raw_class@) is None ==> final(self).classes == old(self).classes
                && final(class).super_class is None,
            spec_super_name(raw_class@) matches Some(nm) ==> (final(class).super_class matches Some(
                rc,
            ) && rc_class_name(rc) == nm && exists|j: int|
                0 <= j < final(self).classes@.len() && #[trigger] final(self).classes@[j] == rc),
            spec_super_name(raw_class@) matches Some(nm) ==> (container_has_name(
                old(self).classes@,
                nm,
            ) ==> final(self).classes == old(self).classes),
            spec_super_name(raw_class@) matches Some(nm) ==> (!container_has_name(
                old(self).classes@,
                nm,
            ) ==> forall|i: int|
                is_first_raw_with(old(self).raw_classes@, i, nm)
                    ==> (final(class).super_class matches Some(rc) && linked_class_matches(
                    *rc,
                    old(self).raw_classes@[i],
                ))),
            spec_super_name(raw_class@) matches Some(nm) ==> ((!container_has_name(
                old(self).classes@,
                nm,
            ) && (forall|i: int| !raw_named(old(self).raw_classes@, i, nm)))
                ==> (final(class).super_class matches Some(rc2) && is_name_placeholder(*rc2, nm))),
            final(class).version == old(class).version,
            final(class).name == old(class).name,
            final(class).interfaces == old(class).interfaces,
            final(class).fields == old(class).fields,
            final(class).methods == old(class).methods,
            final(class).attributes == old(class).attributes,
        decreases missing_count(self.raw_classes@, self.classes@), 1int,
    {
        if raw_class.super_class == 0 {
            class.super_class = None;
            return ;
        }
        let sci = match raw_class.constant_pool.find_class(raw_class.super_class) {
            Some(c) => c.name_index,
            None => {
                class.super_class = None;
                return ;
            },
        };
        let super_name = match raw_class.constant_pool.find_utf8(sci) {
            Some(s) => s,
            None => {
                class.super_class = None;
                return ;
            },
        };
        match self.find_class(super_name) {
            Some(rc) => {
                class.super_class = Some(rc);
            },
            None => {
                match self.find_raw_index(super_name) {
                    Some(i) => {
                        let raws: &Vec<JavaClassFile> = self.raw_classes;
                        let rc = self.parse_class(&raws[i], Ghost(exc));
                        class.super_class = Some(rc);
                    },
                    None => {
                        let ph = Rc::new(JavaClass::from_name(super_name));
                        let handle = rc_clone(&ph);
                        let ghost before = self.classes@;
                        self.classes.push(ph);
                        proof {
                            assert(forall|k: int|
                                0 <= k < before.len() ==> #[trigger] self.classes@[k]
                                    == before[k]);
                            assert(rc_class_name(self.classes@[before.len() as int])
                                == super_name@);
                            assert forall|nm2: Seq<char>|
                                container_has_name(before, nm2) implies #[trigger] container_has_name(
                                self.classes@,
                                nm2,
                            ) by {
                                lemma_has_name_mono(before, self.classes@, nm2);
                            }
                        }
                        class.super_class = Some(handle);
                    },
                }
            },
        }
    }

    /// Links one raw class: resolves its super class (supers first, shared
    /// through the collection), class-scope attributes, fields and methods,
    /// and memoizes the result by name. A name that is already linked
    /// returns the collection's existing handle and leaves the collection
    /// unchanged; a fresh name yields a class that matches its raw class
    /// exactly, entered into the collection. Before the super is resolved
    /// the class's own name joins the collection as a placeholder, so a
    /// cycle of supers is short-circuited instead of recursed into; the
    /// placeholder is replaced by the linked class at the end.
    pub fn parse_class(
        &mut self,
        raw_class: &JavaClassFile,
        Ghost(exc): Ghost<Set<Seq<char>>>,
    ) -> (r: Rc<JavaClass>)
        requires
            crate::classfile::class_name_resolvable(raw_class@),
            class_names_distinct(old(self).classes@),
            classes_linked_except(old(self).raw_classes@, old(self).classes@, exc),
            supers_named(old(self).classes@),
            exc_names_present(old(self).classes@, exc),
            container_has_name(
                old(self).classes@,
                crate::classfile::spec_class_name(raw_class@),
            ) || is_first_raw_class(old(self).raw_classes@, *raw_class),
        ensures
            class_names_distinct(final(self).classes@),
            classes_linked_except(final(self).raw_classes@, final(self).classes@, exc),
            supers_named(final(self).classes@),
            exc_names_present(final(self).classes@, exc),
            final(self).raw_classes == old(self).raw_classes,
            final(self).classes@.len() >= old(self).classes@.len(),
            forall|k: int|
                0 <= k < old(self).classes@.len() ==> #[trigger] final(self).classes@[k] == old(
                    self,
                ).classes@[k],
            rc_class_name(r) == crate::classfile::spec_class_name(raw_class@),
            exists|j: int|
                0 <= j < final(self).classes@.len() && #[trigger] final(self).classes@[j] == r,
            container_has_name(
                old(self).classes@,
                crate::classfile::spec_class_name(raw_class@),
            ) ==> final(self).classes == old(self).classes,
            !container_has_name(
                old(self).classes@,
                crate::classfile::spec_class_name(raw_class@),
            ) ==> (linked_class_matches(*r, *raw_class) && ((*r).super_class matches Some(s) ==> ((
            exists|j: int|
                0 <= j < final(self).classes@.len() && #[trigger] final(self).classes@[j] == s)
                || rc_class_name(s) == crate::classfile::spec_class_name(raw_class@)))),
        decreases missing_count(self.raw_classes@, self.classes@), 0int,
    {
        let ghost raws = self.raw_classes@;
        let ghost name_spec = crate::classfile::spec_class_name(raw_class@);
        let name = raw_class.get_name();
        match self.find_class(name) {
            Some(rc) => {
                return rc;
            },
            None => {},
        }
        // memoize before recursing: the class's own name enters the
        // collection as a placeholder, so a super chain that leads back here
        // finds the name and stops
        let ph = Rc::new(JavaClass::from_name(name));
        let ghost cs0 = self.classes@;
        self.classes.push(ph);
        let ghost with_ph = self.classes@;
        proof {
            assert(forall|k: int| 0 <= k < cs0.len() ==> #[trigger] self.classes@[k] == cs0[k]);
            assert(rc_class_name(self.classes@[cs0.len() as int]) == name_spec);
            assert forall|nm2: Seq<char>|
                container_has_name(cs0, nm2) implies #[trigger] container_has_name(
                self.classes@,
                nm2,
            ) by {
                lemma_has_name_mono(cs0, self.classes@, nm2);
            }
            let i0 = choose|i0: int|
                0 <= i0 < raws.len() && raws[i0] == *raw_class && #[trigger] is_first_raw_with(
                    raws,
                    i0,
                    name_spec,
                );
            lemma_missing_decrease(raws, cs0, self.classes@, name_spec);
        }
        let ghost exc2 = exc.insert(name_spec);
        let mut class = JavaClass::new(raw_class.version, name.to_owned());
        self.parse_super_class(&mut class, raw_class, Ghost(exc2));
        parse_class_attributes(&mut class, raw_class);
        parse_fields(&mut class, raw_class);
        parse_methods(&mut class, raw_class);
        proof {
            let pool = raw_class.constant_pool@;
            let linked_f = spec_linked_fields(pool, raw_class@.fields);
            let linked_m = spec_linked_methods(pool, raw_class@.methods);
            assert forall|k: int|
                0 <= k < linked_f.len() implies field_surface(#[trigger] class.fields@[k])
                == linked_f[k] by {
                assert(field_surface(class.fields@[0 + k]) == linked_f[k]);
            }
            assert forall|k: int|
                0 <= k < linked_m.len() implies method_surface(#[trigger] class.methods@[k])
                == linked_m[k] by {
                assert(method_surface(class.methods@[0 + k]) == linked_m[k]);
            }
            assert(linked_class_matches(class, *raw_class));
        }
        proof {
            assert(self.classes@[cs0.len() as int] == with_ph[cs0.len() as int]);
            assert(rc_class_name(self.classes@[cs0.len() as int]) == name_spec);
            assert forall|nm2: Seq<char>| #[trigger] exc.contains(nm2) implies container_has_name(
                self.classes@,
                nm2,
            ) by {
                assert(exc.insert(name_spec).contains(nm2));
            }
        }
        let ghost built_super = class.super_class;
        let rc = Rc::new(class);
        let handle = rc_clone(&rc);
        match self.find_index(name) {
            Some(i) => {
                let ghost before = self.classes@;
                self.classes.set(i, rc);
                proof {
                    // the one entry with this name is the placeholder pushed
                    // above: everything before it keeps its name
                    assert(forall|k: int|
                        0 <= k < before.len() && k != i ==> #[trigger] self.classes@[k]
                            == before[k]);
                    assert(rc_class_name(self.classes@[i as int]) == name_spec);
                    assert forall|k: int| 0 <= k < cs0.len() implies #[trigger] self.classes@[k]
                        == cs0[k] by {
                        assert(rc_class_name(before[k]) == rc_class_name(cs0[k]));
                        assert(rc_class_name(cs0[k]) != name_spec);
                    }
                    assert forall|nm2: Seq<char>|
                        container_has_name(before, nm2) implies #[trigger] container_has_name(
                        self.classes@,
                        nm2,
                    ) by {
                        let w = choose|w: int|
                            0 <= w < before.len() && rc_class_name(#[trigger] before[w]) == nm2;
                        if w == i {
                            assert(rc_class_name(self.classes@[i as int]) == nm2);
                        } else {
                            assert(rc_class_name(self.classes@[w]) == nm2);
                        }
                    }
                    assert forall|nm2: Seq<char>| #[trigger] exc.contains(
                        nm2,
                    ) implies container_has_name(self.classes@, nm2) by {
                        assert(container_has_name(before, nm2));
                    }
                    // the built class's super handle survives the
                    // placeholder replacement, unless it was the placeholder
                    // itself (a class naming itself as its super)
                    match built_super {
                        Some(s) => {
                            let w2 = choose|w2: int|
                                0 <= w2 < before.len() && #[trigger] before[w2] == s;
                            if w2 != i as int {
                                assert(self.classes@[w2] == s);
                            } else {
                                assert(rc_class_name(s) == name_spec);
                            }
                        },
                        None => {},
                    }
                    // the linked class replaces the placeholder; its own
                    // first raw class is this one, so the entry is linked
                    let i0 = choose|i0: int|
                        0 <= i0 < raws.len() && raws[i0] == *raw_class
                            && #[trigger] is_first_raw_with(raws, i0, name_spec);
                    assert forall|i2: int|
                        is_first_raw_with(raws, i2, name_spec) implies linked_class_matches(
                        *self.classes@[i as int],
                        raws[i2],
                    ) by {
                        if i2 < i0 {
                            assert(!raw_named(raws, i2, name_spec));
                        } else if i0 < i2 {
                            assert(!raw_named(raws, i0, name_spec));
                        }
                        assert(i2 == i0);
                    }
                }
                handle
            },
            None => {
                proof {
                    assert(container_has_name(self.classes@, name_spec));
                    assert(false);
                }
                handle
            },
        }
    }

    /// Links every raw class whose name resolves, in declaration order with
    /// memoization by name: the first raw class of each name is linked;
    /// supers are linked before their subclasses through recursion; a super
    /// name matching no raw class enters the collection as a name-only
    /// placeholder.
    #[verifier::loop_isolation(false)]
    pub fn parse_classes(self) -> (r: JavaClassContainer)
        requires
            class_names_distinct(self.classes@),
            classes_linked_except(self.raw_classes@, self.classes@, Set::empty()),
            supers_named(self.classes@),
        ensures
            class_names_distinct(r.classes@),
            classes_linked_except(self.raw_classes@, r.classes@, Set::empty()),
            supers_named(r.classes@),
            forall|i: int|
                0 <= i < self.raw_classes@.len() && crate::classfile::class_name_resolvable(
                    (#[trigger] self.raw_classes@[i])@,
                ) ==> container_has_name(
                    r.classes@,
                    crate::classfile::spec_class_name(self.raw_classes@[i]@),
                ),
            forall|i: int|
                is_first_raw_with(
                    self.raw_classes@,
                    i,
                    crate::classfile::spec_class_name((#[trigger] self.raw_classes@[i])@),
                ) ==> exists|j: int|
                    0 <= j < r.classes@.len() && linked_class_matches(
                        *(#[trigger] r.classes@[j]),
                        self.raw_classes@[i],
                    ),
    {
        let mut b = self;
        let raws: &Vec<JavaClassFile> = b.raw_classes;
        let ghost raws_view = self.raw_classes@;
        let mut i: usize = 0;
        while i < raws.len()
            invariant
                class_names_distinct(b.classes@),
                classes_linked_except(raws_view, b.classes@, Set::empty()),
                supers_named(b.classes@),
                exc_names_present(b.classes@, Set::<Seq<char>>::empty()),
                b.raw_classes == self.raw_classes,
                i <= raws_view.len(),
                forall|j: int|
                    0 <= j < i && crate::classfile::class_name_resolvable(
                        (#[trigger] raws_view[j])@,
                    ) ==> container_has_name(
                        b.classes@,
                        crate::classfile::spec_class_name(raws_view[j]@),
                    ),
            decreases raws@.len() - i,
        {
            let raw = &raws[i];
            let ghost before = b.classes@;
            match raw.try_get_name() {
                Some(_name) => {
                    proof {
                        if !container_has_name(
                            before,
                            crate::classfile::spec_class_name(raws_view[i as int]@),
                        ) {
                            assert forall|i2: int|
                                0 <= i2 < i implies !raw_named(
                                raws_view,
                                i2,
                                crate::classfile::spec_class_name(raws_view[i as int]@),
                            ) by {}
                            assert(is_first_raw_with(
                                raws_view,
                                i as int,
                                crate::classfile::spec_class_name(raws_view[i as int]@),
                            ));
                        }
                    }
                    let _ = b.parse_class(raw, Ghost(Set::empty()));
                    proof {
                        assert forall|j: int|
                            0 <= j < i + 1 && crate::classfile::class_name_resolvable(
                                (#[trigger] raws_view[j])@,
                            ) implies container_has_name(
                            b.classes@,
                            crate::classfile::spec_class_name(raws_view[j]@),
                        ) by {
                            if j < i {
                                lemma_has_name_mono(
                                    before,
                                    b.classes@,
                                    crate::classfile::spec_class_name(raws_view[j]@),
                                );
                            }
                        }
                    }
                },
                None => {},
            }
            i = i + 1;
        }
        proof {
            assert forall|i2: int|
                is_first_raw_with(
                    raws_view,
                    i2,
                    crate::classfile::spec_class_name((#[trigger] raws_view[i2])@),
                ) implies exists|j: int|
                0 <= j < b.classes@.len() && linked_class_matches(
                    *(#[trigger] b.classes@[j]),
                    raws_view[i2],
                ) by {
                let nm = crate::classfile::spec_class_name(raws_view[i2]@);
                let w = choose|w: int|
                    0 <= w < b.classes@.len() && rc_class_name(#[trigger] b.classes@[w]) == nm;
                assert(linked_class_matches(*b.classes@[w], raws_view[i2]));
            }
        }
        JavaClassContainer { classes: b.classes }
    }
}

/// A promoted `ConstantValue` index points at an entry of the kind the
/// field's descriptor expects: integral descriptors read an Integer entry,
/// `F`/`J`/`D` read Float, Long and Double entries, and a String field reads
/// a String entry whose text resolves.
pub proof fn lemma_constant_value_expected_kind(
    pool: Seq<SpecCpEntry>,
    elem: SpecComponentType,
    idx: u16,
)
    requires
        spec_field_constant_value(pool, elem, idx) is Ok,
    ensures
        idx < pool.len(),
        match elem {
            SpecComponentType::Base(t) => match t {
                crate::descriptors::Type::Float => pool[idx as int] is Float,
                crate::descriptors::Type::Long => pool[idx as int] is Long,
                crate::descriptors::Type::Double => pool[idx as int] is Double,
                crate::descriptors::Type::Void => false,
                _ => pool[idx as int] is Integer,
            },
            SpecComponentType::Object { class_name } => pool[idx as int] is String && utf8_at(
                pool,
                pool[idx as int]->String_0,
            ) is Some,
        },
{
}

} // verus!
