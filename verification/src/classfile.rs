//! Decoder for the Java class file binary format: header, constant pool,
//! member tables and raw attributes, all big-endian.
//!
//! Structural failures (bad magic, truncated buffer, an unknown constant
//! pool tag, invalid UTF-8 in the pool) are fatal for the class: the decoder
//! returns `Error::Parse` and no partial class. Eight-byte constants occupy
//! two consecutive pool slots; the second slot is reserved and unusable.

use crate::codec::i16_of_u16;
use crate::codec::i32_at;
use crate::codec::i32_to_u32;
use crate::codec::i64_at;
use crate::codec::read_i32_at;
use crate::codec::read_i64_at;
use crate::codec::read_u16_at;
use crate::codec::read_u32_at;
use crate::codec::read_u64_at;
use crate::codec::read_u8_at;
use crate::codec::u16_at;
use crate::codec::u16_to_i16;
use crate::codec::u32_at;
use crate::codec::u32_of_i32;
use crate::codec::u64_at;
use crate::errors::Error;
use vstd::pervasive::VecAdditionalExecFns;
use vstd::prelude::*;
use vstd::string::*;
use vstd::utf8::decode_utf8;
use vstd::utf8::valid_utf8;

verus! {

/// The magic number every class file starts with.
pub const JAVA_CLASS_FILE_MAGIC: u32 = 0xCAFEBABE;

#[derive(Debug, Clone, Copy, PartialEq, Eq, Structural)]
pub struct Version {
    pub magic: u32,
    pub minor: u16,
    pub major: u16,
}

impl Version {
    pub fn default() -> (r: Self)
        ensures
            r.magic == JAVA_CLASS_FILE_MAGIC,
            r.major == 52,
            r.minor == 0,
    {
        Version { magic: JAVA_CLASS_FILE_MAGIC, major: 52, minor: 0 }
    }
}

#[derive(Debug, Clone, Copy, PartialEq, Eq, Structural)]
pub struct ClassAccessFlags(pub u16);

#[derive(Debug, Clone, Copy, PartialEq, Eq, Structural)]
pub struct FieldAccessFlags(pub u16);

#[derive(Debug, Clone, Copy, PartialEq, Eq, Structural)]
pub struct MethodAccessFlags(pub u16);

impl ClassAccessFlags {
    pub fn bits(&self) -> (r: u16)
        ensures
            r == self.0,
    {
        self.0
    }
}

impl FieldAccessFlags {
    pub fn bits(&self) -> (r: u16)
        ensures
            r == self.0,
    {
        self.0
    }
}

impl MethodAccessFlags {
    pub fn bits(&self) -> (r: u16)
        ensures
            r == self.0,
    {
        self.0
    }
}

/// A string from the constant pool, decoded from its length-prefixed
/// modified UTF-8 form.
#[derive(Debug, Clone, PartialEq, Eq)]
pub struct ModifiedUtf8String(pub String);

impl View for ModifiedUtf8String {
    type V = Seq<char>;

    open spec fn view(&self) -> Seq<char> {
        self.0@
    }
}

#[derive(Debug, Clone, Copy, PartialEq, Eq, Structural)]
pub struct CpClass {
    pub name_index: u16,
}

#[derive(Debug, Clone, Copy, PartialEq, Eq, Structural)]
pub struct CpString {
    pub string_index: u16,
}

#[derive(Debug, Clone, Copy, PartialEq, Eq, Structural)]
pub struct CpRef {
    pub class_index: u16,
    pub name_and_type_index: u16,
}

#[derive(Debug, Clone, Copy, PartialEq, Eq, Structural)]
pub struct CpNameAndType {
    pub name_index: u16,
    pub descriptor_index: u16,
}

/// One constant-pool entry. `Float` and `Double` carry the raw IEEE-754 bits
/// as they stand in the file. `Invalid` fills the index-0 slot, the reserved
/// slot after each `Long` or `Double`, and entries whose tag is recognized
/// but whose detailed decoding this crate does not do (method handles,
/// dynamic constants, modules, packages).
#[derive(Debug)]
pub enum ConstantPoolEntry {
    Utf8(ModifiedUtf8String),
    Integer(i32),
    Float(u32),
    Long(i64),
    Double(u64),
    Class(CpClass),
    String(CpString),
    FieldRef(CpRef),
    MethodRef(CpRef),
    InterfaceMethodRef(CpRef),
    NameAndType(CpNameAndType),
    Invalid,
}

/// Mathematical model of a constant-pool entry: strings as character
/// sequences.
pub enum SpecCpEntry {
    Utf8(Seq<char>),
    Integer(i32),
    Float(u32),
    Long(i64),
    Double(u64),
    Class(u16),
    String(u16),
    FieldRef { class_index: u16, name_and_type_index: u16 },
    MethodRef { class_index: u16, name_and_type_index: u16 },
    InterfaceMethodRef { class_index: u16, name_and_type_index: u16 },
    NameAndType { name_index: u16, descriptor_index: u16 },
    Invalid,
}

impl View for ConstantPoolEntry {
    type V = SpecCpEntry;

    open spec fn view(&self) -> SpecCpEntry {
        match self {
            ConstantPoolEntry::Utf8(m) => SpecCpEntry::Utf8(m@),
            ConstantPoolEntry::Integer(v) => SpecCpEntry::Integer(*v),
            ConstantPoolEntry::Float(v) => SpecCpEntry::Float(*v),
            ConstantPoolEntry::Long(v) => SpecCpEntry::Long(*v),
            ConstantPoolEntry::Double(v) => SpecCpEntry::Double(*v),
            ConstantPoolEntry::Class(c) => SpecCpEntry::Class(c.name_index),
            ConstantPoolEntry::String(s) => SpecCpEntry::String(s.string_index),
            ConstantPoolEntry::FieldRef(r) => SpecCpEntry::FieldRef {
                class_index: r.class_index,
                name_and_type_index: r.name_and_type_index,
            },
            ConstantPoolEntry::MethodRef(r) => SpecCpEntry::MethodRef {
                class_index: r.class_index,
                name_and_type_index: r.name_and_type_index,
            },
            ConstantPoolEntry::InterfaceMethodRef(r) => SpecCpEntry::InterfaceMethodRef {
                class_index: r.class_index,
                name_and_type_index: r.name_and_type_index,
            },
            ConstantPoolEntry::NameAndType(n) => SpecCpEntry::NameAndType {
                name_index: n.name_index,
                descriptor_index: n.descriptor_index,
            },
            ConstantPoolEntry::Invalid => SpecCpEntry::Invalid,
        }
    }
}

/// The constant pool: 1-indexed; index 0 is always `Invalid`.
pub struct ConstantPool {
    pub entries: Vec<ConstantPoolEntry>,
}

impl View for ConstantPool {
    type V = Seq<SpecCpEntry>;

    open spec fn view(&self) -> Seq<SpecCpEntry> {
        Seq::new(self.entries@.len(), |i: int| self.entries@[i]@)
    }
}

/// A raw attribute: a pool index for its name and its undecoded bytes.
#[derive(Debug, Clone, PartialEq, Eq)]
pub struct AttributeInfo {
    pub name_index: u16,
    pub data: Vec<u8>,
}

/// Mathematical model of a raw attribute.
pub struct SpecAttributeInfo {
    pub name_index: u16,
    pub data: Seq<u8>,
}

impl View for AttributeInfo {
    type V = SpecAttributeInfo;

    open spec fn view(&self) -> SpecAttributeInfo {
        SpecAttributeInfo { name_index: self.name_index, data: self.data@ }
    }
}

/// A raw field entry of the class file.
#[derive(Debug, Clone, PartialEq, Eq)]
pub struct FieldInfo {
    pub access_flags: FieldAccessFlags,
    pub name_index: u16,
    pub descriptor_index: u16,
    pub attributes: Vec<AttributeInfo>,
}

/// A raw method entry of the class file.
#[derive(Debug, Clone, PartialEq, Eq)]
pub struct MethodInfo {
    pub access_flags: MethodAccessFlags,
    pub name_index: u16,
    pub descriptor_index: u16,
    pub attributes: Vec<AttributeInfo>,
}

/// Mathematical model shared by raw fields and raw methods: both have the
/// same shape in the file.
pub struct SpecMemberInfo {
    pub access_flags: u16,
    pub name_index: u16,
    pub descriptor_index: u16,
    pub attributes: Seq<SpecAttributeInfo>,
}

impl View for FieldInfo {
    type V = SpecMemberInfo;

    open spec fn view(&self) -> SpecMemberInfo {
        SpecMemberInfo {
            access_flags: self.access_flags.0,
            name_index: self.name_index,
            descriptor_index: self.descriptor_index,
            attributes: Seq::new(self.attributes@.len(), |i: int| self.attributes@[i]@),
        }
    }
}

impl View for MethodInfo {
    type V = SpecMemberInfo;

    open spec fn view(&self) -> SpecMemberInfo {
        SpecMemberInfo {
            access_flags: self.access_flags.0,
            name_index: self.name_index,
            descriptor_index: self.descriptor_index,
            attributes: Seq::new(self.attributes@.len(), |i: int| self.attributes@[i]@),
        }
    }
}

/// A decoded class file with its constant-pool indices still unresolved.
pub struct JavaClassFile {
    pub version: Version,
    pub constant_pool: ConstantPool,
    pub access_flags: ClassAccessFlags,
    pub this_class: u16,
    pub super_class: u16,
    pub interfaces: Vec<u16>,
    pub fields: Vec<FieldInfo>,
    pub methods: Vec<MethodInfo>,
    pub attributes: Vec<AttributeInfo>,
}

/// Mathematical model of a decoded class file.
pub struct SpecClassFile {
    pub version: Version,
    pub constant_pool: Seq<SpecCpEntry>,
    pub access_flags: u16,
    pub this_class: u16,
    pub super_class: u16,
    pub interfaces: Seq<u16>,
    pub fields: Seq<SpecMemberInfo>,
    pub methods: Seq<SpecMemberInfo>,
    pub attributes: Seq<SpecAttributeInfo>,
}

impl View for JavaClassFile {
    type V = SpecClassFile;

    open spec fn view(&self) -> SpecClassFile {
        SpecClassFile {
            version: self.version,
            constant_pool: self.constant_pool@,
            access_flags: self.access_flags.0,
            this_class: self.this_class,
            super_class: self.super_class,
            interfaces: self.interfaces@,
            fields: Seq::new(self.fields@.len(), |i: int| self.fields@[i]@),
            methods: Seq::new(self.methods@.len(), |i: int| self.methods@[i]@),
            attributes: Seq::new(self.attributes@.len(), |i: int| self.attributes@[i]@),
        }
    }
}

/// The raw payload of a `ConstantValue` attribute: one pool index.
#[derive(Debug, Clone, Copy, PartialEq, Eq, Structural)]
pub struct ConstantValueAttributeRaw {
    pub value_cp_index: u16,
}

/// The raw payload of a `SourceFile` attribute: one pool index.
#[derive(Debug, Clone, Copy, PartialEq, Eq, Structural)]
pub struct SourceFileAttributeRaw {
    pub file_name_cp_index: u16,
}

/// One entry of a `Code` attribute's exception table.
#[derive(Debug, Clone, Copy, PartialEq, Eq, Structural)]
pub struct CodeExceptionRaw {
    pub start_pc: u16,
    pub end_pc: u16,
    pub handler_pc: u16,
    pub catch_type: u16,
}

/// What reading a length-prefixed modified UTF-8 string yields: the decoded
/// characters and the position after them.
pub open spec fn spec_read_utf8(s: Seq<u8>, pos: int) -> Result<(Seq<char>, int), ()> {
    if pos + 2 <= s.len() {
        let n = u16_at(s, pos) as int;
        if pos + 2 + n <= s.len() {
            let bytes = s.subrange(pos + 2, pos + 2 + n);
            if valid_utf8(bytes) {
                Ok((decode_utf8(bytes), pos + 2 + n))
            } else {
                Err(())
            }
        } else {
            Err(())
        }
    } else {
        Err(())
    }
}

/// What reading one constant-pool entry yields. Tags for method handles,
/// method types, dynamic constants, modules and packages are recognized (the
/// right number of bytes is consumed) but decode to `Invalid`.
pub open spec fn spec_read_cp_entry(s: Seq<u8>, pos: int) -> Result<(SpecCpEntry, int), ()> {
    if pos < 0 || pos >= s.len() {
        Err(())
    } else {
        let tag = s[pos];
        if tag == 1 {
            match spec_read_utf8(s, pos + 1) {
                Ok((cs, end)) => Ok((SpecCpEntry::Utf8(cs), end)),
                Err(e) => Err(e),
            }
        } else if tag == 3 {
            if pos + 5 <= s.len() {
                Ok((SpecCpEntry::Integer(i32_at(s, pos + 1)), pos + 5))
            } else {
                Err(())
            }
        } else if tag == 4 {
            if pos + 5 <= s.len() {
                Ok((SpecCpEntry::Float(u32_at(s, pos + 1)), pos + 5))
            } else {
                Err(())
            }
        } else if tag == 5 {
            if pos + 9 <= s.len() {
                Ok((SpecCpEntry::Long(i64_at(s, pos + 1)), pos + 9))
            } else {
                Err(())
            }
        } else if tag == 6 {
            if pos + 9 <= s.len() {
                Ok((SpecCpEntry::Double(u64_at(s, pos + 1)), pos + 9))
            } else {
                Err(())
            }
        } else if tag == 7 {
            if pos + 3 <= s.len() {
                Ok((SpecCpEntry::Class(u16_at(s, pos + 1)), pos + 3))
            } else {
                Err(())
            }
        } else if tag == 8 {
            if pos + 3 <= s.len() {
                Ok((SpecCpEntry::String(u16_at(s, pos + 1)), pos + 3))
            } else {
                Err(())
            }
        } else if tag == 9 {
            if pos + 5 <= s.len() {
                Ok(
                    (
                        SpecCpEntry::FieldRef {
                            class_index: u16_at(s, pos + 1),
                            name_and_type_index: u16_at(s, pos + 3),
                        },
                        pos + 5,
                    ),
                )
            } else {
                Err(())
            }
        } else if tag == 10 {
            if pos + 5 <= s.len() {
                Ok(
                    (
                        SpecCpEntry::MethodRef {
                            class_index: u16_at(s, pos + 1),
                            name_and_type_index: u16_at(s, pos + 3),
                        },
                        pos + 5,
                    ),
                )
            } else {
                Err(())
            }
        } else if tag == 11 {
            if pos + 5 <= s.len() {
                Ok(
                    (
                        SpecCpEntry::InterfaceMethodRef {
                            class_index: u16_at(s, pos + 1),
                            name_and_type_index: u16_at(s, pos + 3),
                        },
                        pos + 5,
                    ),
                )
            } else {
                Err(())
            }
        } else if tag == 12 {
            if pos + 5 <= s.len() {
                Ok(
                    (
                        SpecCpEntry::NameAndType {
                            name_index: u16_at(s, pos + 1),
                            descriptor_index: u16_at(s, pos + 3),
                        },
                        pos + 5,
                    ),
                )
            } else {
                Err(())
            }
        } else if tag == 15 {
            if pos + 4 <= s.len() {
                Ok((SpecCpEntry::Invalid, pos + 4))
            } else {
                Err(())
            }
        } else if tag == 16 || tag == 19 || tag == 20 {
            if pos + 3 <= s.len() {
                Ok((SpecCpEntry::Invalid, pos + 3))
            } else {
                Err(())
            }
        } else if tag == 17 || tag == 18 {
            if pos + 5 <= s.len() {
                Ok((SpecCpEntry::Invalid, pos + 5))
            } else {
                Err(())
            }
        } else {
            Err(())
        }
    }
}

/// What filling the constant pool from slot `idx` on yields. A `Long` or
/// `Double` entry advances by two slots, leaving the reserved slot
/// `Invalid`; every other entry advances by one.
pub open spec fn spec_parse_cp_entries(
    s: Seq<u8>,
    pos: int,
    idx: int,
    count: int,
    acc: Seq<SpecCpEntry>,
) -> Result<(Seq<SpecCpEntry>, int), ()>
    decreases (if idx < count { count - idx } else { 0 }),
{
    if idx >= count {
        Ok((acc, pos))
    } else {
        match spec_read_cp_entry(s, pos) {
            Err(e) => Err(e),
            Ok((e, p2)) => {
                let step: int = if e is Long || e is Double {
                    2
                } else {
                    1
                };
                spec_parse_cp_entries(s, p2, idx + step, count, acc.update(idx, e))
            },
        }
    }
}

/// What reading the whole constant pool yields: the `count` prefix, then
/// `count - 1` slots filled from index 1 up.
pub open spec fn spec_parse_constant_pool(s: Seq<u8>, pos: int) -> Result<
    (Seq<SpecCpEntry>, int),
    (),
> {
    if pos + 2 <= s.len() {
        let count = u16_at(s, pos) as int;
        spec_parse_cp_entries(
            s,
            pos + 2,
            1,
            count,
            Seq::new(count as nat, |i: int| SpecCpEntry::Invalid),
        )
    } else {
        Err(())
    }
}

/// What reading one raw attribute yields: a name index, a 4-byte length, and
/// that many raw bytes.
pub open spec fn spec_read_attribute(s: Seq<u8>, pos: int) -> Result<(SpecAttributeInfo, int), ()> {
    if pos + 6 <= s.len() {
        let name_index = u16_at(s, pos);
        let n = u32_at(s, pos + 2) as int;
        if pos + 6 + n <= s.len() {
            Ok(
                (
                    SpecAttributeInfo { name_index, data: s.subrange(pos + 6, pos + 6 + n) },
                    pos + 6 + n,
                ),
            )
        } else {
            Err(())
        }
    } else {
        Err(())
    }
}

/// What reading `n` consecutive raw attributes yields.
pub open spec fn spec_parse_attributes(s: Seq<u8>, pos: int, n: int) -> Result<
    (Seq<SpecAttributeInfo>, int),
    (),
>
    decreases n,
{
    if n <= 0 {
        Ok((Seq::empty(), pos))
    } else {
        match spec_read_attribute(s, pos) {
            Err(e) => Err(e),
            Ok((a, p2)) => match spec_parse_attributes(s, p2, n - 1) {
                Err(e) => Err(e),
                Ok((rest, end)) => Ok((seq![a] + rest, end)),
            },
        }
    }
}

/// What reading one member (field or method) yields: access flags, name and
/// descriptor indices, and a counted attribute list.
pub open spec fn spec_read_member(s: Seq<u8>, pos: int) -> Result<(SpecMemberInfo, int), ()> {
    if pos + 8 <= s.len() {
        let access_flags = u16_at(s, pos);
        let name_index = u16_at(s, pos + 2);
        let descriptor_index = u16_at(s, pos + 4);
        let n = u16_at(s, pos + 6) as int;
        match spec_parse_attributes(s, pos + 8, n) {
            Err(e) => Err(e),
            Ok((attributes, end)) => Ok(
                (SpecMemberInfo { access_flags, name_index, descriptor_index, attributes }, end),
            ),
        }
    } else {
        Err(())
    }
}

/// What reading `n` consecutive members yields.
pub open spec fn spec_parse_members(s: Seq<u8>, pos: int, n: int) -> Result<
    (Seq<SpecMemberInfo>, int),
    (),
>
    decreases n,
{
    if n <= 0 {
        Ok((Seq::empty(), pos))
    } else {
        match spec_read_member(s, pos) {
            Err(e) => Err(e),
            Ok((m, p2)) => match spec_parse_members(s, p2, n - 1) {
                Err(e) => Err(e),
                Ok((rest, end)) => Ok((seq![m] + rest, end)),
            },
        }
    }
}

/// What decoding a whole class file yields: magic and version, constant
/// pool, access flags, this/super indices, and the counted interface, field,
/// method and attribute lists. A wrong magic number is a fatal parse error.
pub open spec fn spec_parse_class_file(s: Seq<u8>) -> Result<SpecClassFile, ()> {
    if s.len() < 8 {
        Err(())
    } else if u32_at(s, 0) != JAVA_CLASS_FILE_MAGIC {
        Err(())
    } else {
        let version = Version { magic: u32_at(s, 0), minor: u16_at(s, 4), major: u16_at(s, 6) };
        match spec_parse_constant_pool(s, 8) {
            Err(e) => Err(e),
            Ok((constant_pool, p)) => {
                if p + 8 <= s.len() {
                    let access_flags = u16_at(s, p);
                    let this_class = u16_at(s, p + 2);
                    let super_class = u16_at(s, p + 4);
                    let icount = u16_at(s, p + 6) as int;
                    let p2 = p + 8;
                    if p2 + 2 * icount <= s.len() {
                        let interfaces = Seq::new(icount as nat, |i: int| u16_at(s, p2 + 2 * i));
                        let p3 = p2 + 2 * icount;
                        if p3 + 2 <= s.len() {
                            match spec_parse_members(s, p3 + 2, u16_at(s, p3) as int) {
                                Err(e) => Err(e),
                                Ok((fields, p4)) => {
                                    if p4 + 2 <= s.len() {
                                        match spec_parse_members(s, p4 + 2, u16_at(s, p4) as int) {
                                            Err(e) => Err(e),
                                            Ok((methods, p5)) => {
                                                if p5 + 2 <= s.len() {
                                                    match spec_parse_attributes(
                                                        s,
                                                        p5 + 2,
                                                        u16_at(s, p5) as int,
                                                    ) {
                                                        Err(e) => Err(e),
                                                        Ok((attributes, _end)) => Ok(
                                                            SpecClassFile {
                                                                version,
                                                                constant_pool,
                                                                access_flags,
                                                                this_class,
                                                                super_class,
                                                                interfaces,
                                                                fields,
                                                                methods,
                                                                attributes,
                                                            },
                                                        ),
                                                    }
                                                } else {
                                                    Err(())
                                                }
                                            },
                                        }
                                    } else {
                                        Err(())
                                    }
                                },
                            }
                        } else {
                            Err(())
                        }
                    } else {
                        Err(())
                    }
                } else {
                    Err(())
                }
            },
        }
    }
}

/// The two-slot rule: every slot that follows a `Long` or `Double` entry is
/// unusable.
pub open spec fn two_slot_rule(pool: Seq<SpecCpEntry>) -> bool {
    forall|i: int|
        0 <= i && i + 1 < pool.len() && (#[trigger] pool[i] is Long || pool[i] is Double)
            ==> pool[i + 1] is Invalid
}

#[verifier::rlimit(100)]
#[verifier::spinoff_prover]
proof fn lemma_cp_entries_two_slot(s: Seq<u8>, pos: int, idx: int, count: int, acc: Seq<SpecCpEntry>)
    requires
        1 <= idx,
        acc.len() == count,
        forall|j: int| idx <= j < count ==> (#[trigger] acc[j]) is Invalid,
        0 <= idx - 1 < count ==> !(acc[idx - 1] is Long || acc[idx - 1] is Double),
        forall|i: int|
            0 <= i && i + 1 < count && i + 1 <= idx && (#[trigger] acc[i] is Long
                || acc[i] is Double) ==> acc[i + 1] is Invalid,
        spec_parse_cp_entries(s, pos, idx, count, acc) is Ok,
    ensures
        two_slot_rule(spec_parse_cp_entries(s, pos, idx, count, acc)->Ok_0.0),
    decreases (if idx < count { count - idx } else { 0 }),
{
    if idx >= count {
        assert forall|i: int|
            0 <= i && i + 1 < acc.len() && (#[trigger] acc[i] is Long || acc[i] is Double) implies
            acc[i + 1] is Invalid by {
            if i + 1 > idx {
                assert(acc[i] is Invalid);
            }
        }
    } else {
        let e = spec_read_cp_entry(s, pos)->Ok_0.0;
        let p2 = spec_read_cp_entry(s, pos)->Ok_0.1;
        let step: int = if e is Long || e is Double {
            2
        } else {
            1
        };
        let acc2 = acc.update(idx, e);
        assert forall|i: int|
            0 <= i && i + 1 < count && i + 1 <= idx + step && (#[trigger] acc2[i] is Long
                || acc2[i] is Double) implies acc2[i + 1] is Invalid by {
            if i + 1 < idx {
                assert(acc[i] == acc2[i] && acc[i + 1] == acc2[i + 1]);
            } else if i + 1 == idx {
                assert(acc2[i] == acc[idx - 1]);
            } else if i == idx {
                assert(step == 2 && acc2[i + 1] == acc[idx + 1]);
            } else {
                assert(i == idx + 1 && step == 2 && acc2[i] == acc[idx + 1]);
            }
        }
        lemma_cp_entries_two_slot(s, p2, idx + step, count, acc2);
    }
}

/// The two-slot law: in any constant pool that the class-file decoder
/// accepts, the slot after every `Long` or `Double` entry is unusable.
pub proof fn lemma_pool_two_slot(s: Seq<u8>)
    requires
        spec_parse_class_file(s) is Ok,
    ensures
        two_slot_rule(spec_parse_class_file(s)->Ok_0.constant_pool),
{
    let count = u16_at(s, 8) as int;
    let init = Seq::new(count as nat, |i: int| SpecCpEntry::Invalid);
    lemma_cp_entries_two_slot(s, 10, 1, count, init);
}

/// Relies on `String::from_utf8`: it succeeds exactly on valid UTF-8, and
/// the returned string holds the characters those bytes encode.
#[verifier::external_body]
pub(crate) fn string_from_utf8(bytes: Vec<u8>) -> (r: Option<String>)
    ensures
        r is Some <==> valid_utf8(bytes@),
        r matches Some(s) ==> s@ == decode_utf8(bytes@),
{
    String::from_utf8(bytes).ok()
}

/// Copies `b[from..to]` into a fresh vector.
#[verifier::loop_isolation(false)]
pub fn copy_range(b: &Vec<u8>, from: usize, to: usize) -> (r: Vec<u8>)
    requires
        from <= to <= b@.len(),
    ensures
        r@ == b@.subrange(from as int, to as int),
{
    let mut r: Vec<u8> = Vec::new();
    let mut i: usize = from;
    proof {
        assert(r@ =~= b@.subrange(from as int, from as int));
    }
    while i < to
        invariant
            from <= i <= to,
            r@ == b@.subrange(from as int, i as int),
        decreases to - i,
    {
        r.push(b[i]);
        proof {
            assert(b@.subrange(from as int, i + 1) =~= b@.subrange(from as int, i as int).push(
                b@[i as int],
            ));
        }
        i = i + 1;
    }
    r
}

impl ModifiedUtf8String {
    /// Reads a length-prefixed modified UTF-8 string. Invalid UTF-8 is a
    /// fatal parse error.
    pub fn read(b: &Vec<u8>, pos: usize) -> (r: Result<(ModifiedUtf8String, usize), Error>)
        ensures
            r matches Ok(p) ==> spec_read_utf8(b@, pos as int) == Ok::<_, ()>((p.0@, p.1 as int)),
            r is Err <==> spec_read_utf8(b@, pos as int) is Err,
            r matches Err(e) ==> e is Parse,
    {
        proof {
            vstd::std_specs::vec::axiom_spec_len(b);
        }
        let n = match read_u16_at(b, pos) {
            Some(v) => v,
            None => {
                return Err(Error::Parse("Truncated string in constant pool".to_owned()));
            },
        };
        if b.len() - (pos + 2) < n as usize {
            return Err(Error::Parse("Truncated string in constant pool".to_owned()));
        }
        let bytes = copy_range(b, pos + 2, pos + 2 + n as usize);
        match string_from_utf8(bytes) {
            Some(s) => Ok((ModifiedUtf8String(s), pos + 2 + n as usize)),
            None => Err(Error::Parse("Invalid modified UTF-8".to_owned())),
        }
    }
}

impl ModifiedUtf8String {
    /// Serializes the string: a `u16` byte-length prefix, then the UTF-8
    /// bytes. A string longer than the prefix can count is an error.
    pub fn write(&self) -> (r: Result<Vec<u8>, Error>)
        ensures
            r is Ok <==> vstd::utf8::encode_utf8(self.0@).len() <= 0xFFFF,
            r matches Ok(b) ==> b@ == crate::codec::be_bytes(
                vstd::utf8::encode_utf8(self.0@).len(),
                2,
            ) + vstd::utf8::encode_utf8(self.0@),
            r matches Err(e) ==> e is Parse,
    {
        let bytes = self.0.as_str().as_bytes_vec();
        if bytes.len() > 0xFFFF {
            return Err(Error::Parse("String too long to write as u16 length prefix".to_owned()));
        }
        let mut out: Vec<u8> = Vec::new();
        crate::codec::write_u16_be(&mut out, bytes.len() as u16);
        crate::codec::push_all(&mut out, &bytes);
        Ok(out)
    }
}

impl ConstantPoolEntry {
    /// Reads one tagged constant-pool entry. An unknown tag is a fatal parse
    /// error.
    pub fn read(b: &Vec<u8>, pos: usize) -> (r: Result<(ConstantPoolEntry, usize), Error>)
        ensures
            r matches Ok(p) ==> spec_read_cp_entry(b@, pos as int) == Ok::<_, ()>(
                (p.0@, p.1 as int),
            ),
            r is Err <==> spec_read_cp_entry(b@, pos as int) is Err,
            r matches Err(e) ==> e is Parse,
    {
        proof {
            vstd::std_specs::vec::axiom_spec_len(b);
        }
        let tag = match read_u8_at(b, pos) {
            Some(v) => v,
            None => {
                return Err(Error::Parse("Truncated constant pool entry".to_owned()));
            },
        };
        if tag == 1 {
            match ModifiedUtf8String::read(b, pos + 1) {
                Ok((m, end)) => Ok((ConstantPoolEntry::Utf8(m), end)),
                Err(e) => Err(e),
            }
        } else if tag == 3 {
            match read_i32_at(b, pos + 1) {
                Some(v) => Ok((ConstantPoolEntry::Integer(v), pos + 5)),
                None => Err(Error::Parse("Truncated constant pool entry".to_owned())),
            }
        } else if tag == 4 {
            match read_u32_at(b, pos + 1) {
                Some(v) => Ok((ConstantPoolEntry::Float(v), pos + 5)),
                None => Err(Error::Parse("Truncated constant pool entry".to_owned())),
            }
        } else if tag == 5 {
            match read_i64_at(b, pos + 1) {
                Some(v) => Ok((ConstantPoolEntry::Long(v), pos + 9)),
                None => Err(Error::Parse("Truncated constant pool entry".to_owned())),
            }
        } else if tag == 6 {
            match read_u64_at(b, pos + 1) {
                Some(v) => Ok((ConstantPoolEntry::Double(v), pos + 9)),
                None => Err(Error::Parse("Truncated constant pool entry".to_owned())),
            }
        } else if tag == 7 {
            match read_u16_at(b, pos + 1) {
                Some(v) => Ok((ConstantPoolEntry::Class(CpClass { name_index: v }), pos + 3)),
                None => Err(Error::Parse("Truncated constant pool entry".to_owned())),
            }
        } else if tag == 8 {
            match read_u16_at(b, pos + 1) {
                Some(v) => Ok((ConstantPoolEntry::String(CpString { string_index: v }), pos + 3)),
                None => Err(Error::Parse("Truncated constant pool entry".to_owned())),
            }
        } else if tag == 9 || tag == 10 || tag == 11 {
            match read_u16_at(b, pos + 1) {
                Some(ci) => match read_u16_at(b, pos + 3) {
                    Some(nt) => {
                        let r = CpRef { class_index: ci, name_and_type_index: nt };
                        if tag == 9 {
                            Ok((ConstantPoolEntry::FieldRef(r), pos + 5))
                        } else if tag == 10 {
                            Ok((ConstantPoolEntry::MethodRef(r), pos + 5))
                        } else {
                            Ok((ConstantPoolEntry::InterfaceMethodRef(r), pos + 5))
                        }
                    },
                    None => Err(Error::Parse("Truncated constant pool entry".to_owned())),
                },
                None => Err(Error::Parse("Truncated constant pool entry".to_owned())),
            }
        } else if tag == 12 {
            match read_u16_at(b, pos + 1) {
                Some(ni) => match read_u16_at(b, pos + 3) {
                    Some(di) => Ok(
                        (
                            ConstantPoolEntry::NameAndType(
                                CpNameAndType { name_index: ni, descriptor_index: di },
                            ),
                            pos + 5,
                        ),
                    ),
                    None => Err(Error::Parse("Truncated constant pool entry".to_owned())),
                },
                None => Err(Error::Parse("Truncated constant pool entry".to_owned())),
            }
        } else if tag == 15 {
            if b.len() - pos >= 4 {
                Ok((ConstantPoolEntry::Invalid, pos + 4))
            } else {
                Err(Error::Parse("Truncated constant pool entry".to_owned()))
            }
        } else if tag == 16 || tag == 19 || tag == 20 {
            if b.len() - pos >= 3 {
                Ok((ConstantPoolEntry::Invalid, pos + 3))
            } else {
                Err(Error::Parse("Truncated constant pool entry".to_owned()))
            }
        } else if tag == 17 || tag == 18 {
            if b.len() - pos >= 5 {
                Ok((ConstantPoolEntry::Invalid, pos + 5))
            } else {
                Err(Error::Parse("Truncated constant pool entry".to_owned()))
            }
        } else {
            let mut msg = "Invalid CP tag: ".to_owned();
            crate::codec::append_dec_u8(&mut msg, tag);
            Err(Error::Parse(msg))
        }
    }
}

impl ConstantPool {
    /// Reads the constant pool: a `count` prefix, then entries filling slots
    /// 1 to `count - 1`, where 8-byte constants take two slots.
    #[verifier::loop_isolation(false)]
    pub fn read(b: &Vec<u8>, pos: usize) -> (r: Result<(ConstantPool, usize), Error>)
        ensures
            r matches Ok(p) ==> spec_parse_constant_pool(b@, pos as int) == Ok::<_, ()>(
                (p.0@, p.1 as int),
            ),
            r is Err <==> spec_parse_constant_pool(b@, pos as int) is Err,
            r matches Err(e) ==> e is Parse,
    {
        proof {
            vstd::std_specs::vec::axiom_spec_len(b);
        }
        let count = match read_u16_at(b, pos) {
            Some(v) => v,
            None => {
                return Err(Error::Parse("Truncated constant pool".to_owned()));
            },
        };
        let mut entries: Vec<ConstantPoolEntry> = Vec::new();
        let mut k: usize = 0;
        while k < count as usize
            invariant
                k <= count as usize,
                entries@.len() == k,
                forall|j: int| 0 <= j < k ==> (#[trigger] entries@[j]) is Invalid,
            decreases count as usize - k,
        {
            entries.push(ConstantPoolEntry::Invalid);
            k = k + 1;
        }
        let ghost init = Seq::new(count as nat, |i: int| SpecCpEntry::Invalid);
        proof {
            assert(Seq::new(entries@.len(), |i: int| entries@[i]@) =~= init);
        }
        let mut cursor: usize = pos + 2;
        let mut idx: usize = 1;
        while idx < count as usize
            invariant
                1 <= idx,
                cursor <= usize::MAX,
                entries@.len() == count,
                spec_parse_constant_pool(b@, pos as int) == spec_parse_cp_entries(
                    b@,
                    cursor as int,
                    idx as int,
                    count as int,
                    Seq::new(entries@.len(), |i: int| entries@[i]@),
                ),
            decreases count as usize - idx,
        {
            let ghost before = Seq::new(entries@.len(), |i: int| entries@[i]@);
            match ConstantPoolEntry::read(b, cursor) {
                Err(e) => {
                    return Err(e);
                },
                Ok((entry, p2)) => {
                    let step: usize = match &entry {
                        ConstantPoolEntry::Long(_) => 2,
                        ConstantPoolEntry::Double(_) => 2,
                        _ => 1,
                    };
                    let ghost ev = entry@;
                    entries.set(idx, entry);
                    proof {
                        assert(Seq::new(entries@.len(), |i: int| entries@[i]@) =~= before.update(
                            idx as int,
                            ev,
                        ));
                    }
                    cursor = p2;
                    let next = idx + step;
                    let ghost spec_next = idx + step;
                    idx = if next > count as usize {
                        count as usize
                    } else {
                        next
                    };
                    proof {
                        assert(spec_parse_cp_entries(
                            b@,
                            cursor as int,
                            idx as int,
                            count as int,
                            Seq::new(entries@.len(), |i: int| entries@[i]@),
                        ) == spec_parse_cp_entries(
                            b@,
                            cursor as int,
                            spec_next as int,
                            count as int,
                            Seq::new(entries@.len(), |i: int| entries@[i]@),
                        ));
                    }
                },
            }
        }
        proof {
            assert(spec_parse_cp_entries(
                b@,
                cursor as int,
                idx as int,
                count as int,
                Seq::new(entries@.len(), |i: int| entries@[i]@),
            ) == Ok::<_, ()>(
                (Seq::new(entries@.len(), |i: int| entries@[i]@), cursor as int),
            ));
        }
        Ok((ConstantPool { entries }, cursor))
    }
}

impl AttributeInfo {
    /// Reads one raw attribute: name index, 4-byte length, raw bytes.
    pub fn read(b: &Vec<u8>, pos: usize) -> (r: Result<(AttributeInfo, usize), Error>)
        ensures
            r matches Ok(p) ==> spec_read_attribute(b@, pos as int) == Ok::<_, ()>(
                (p.0@, p.1 as int),
            ),
            r is Err <==> spec_read_attribute(b@, pos as int) is Err,
            r matches Err(e) ==> e is Parse,
    {
        proof {
            vstd::std_specs::vec::axiom_spec_len(b);
        }
        let name_index = match read_u16_at(b, pos) {
            Some(v) => v,
            None => {
                return Err(Error::Parse("Truncated attribute".to_owned()));
            },
        };
        let n = match read_u32_at(b, pos + 2) {
            Some(v) => v,
            None => {
                return Err(Error::Parse("Truncated attribute".to_owned()));
            },
        };
        if ((b.len() - (pos + 6)) as u64) < n as u64 {
            return Err(Error::Parse("Truncated attribute".to_owned()));
        }
        let data = copy_range(b, pos + 6, pos + 6 + n as usize);
        Ok((AttributeInfo { name_index, data }, pos + 6 + n as usize))
    }
}

/// Reads `n` consecutive raw attributes.
#[verifier::loop_isolation(false)]
pub fn read_attributes(b: &Vec<u8>, pos: usize, n: u16) -> (r: Result<
    (Vec<AttributeInfo>, usize),
    Error,
>)
    ensures
        r matches Ok(p) ==> spec_parse_attributes(b@, pos as int, n as int) == Ok::<_, ()>(
            (Seq::new(p.0@.len(), |i: int| p.0@[i]@), p.1 as int),
        ),
        r is Err <==> spec_parse_attributes(b@, pos as int, n as int) is Err,
        r matches Err(e) ==> e is Parse,
{
    let mut out: Vec<AttributeInfo> = Vec::new();
    let mut i: u16 = 0;
    let mut cursor: usize = pos;
    while i < n
        invariant
            i <= n,
            spec_parse_attributes(b@, pos as int, n as int) == match spec_parse_attributes(
                b@,
                cursor as int,
                n - i,
            ) {
                Ok((rest, end)) => Ok::<_, ()>(
                    (Seq::new(out@.len(), |j: int| out@[j]@) + rest, end),
                ),
                Err(e) => Err(e),
            },
        decreases n - i,
    {
        match AttributeInfo::read(b, cursor) {
            Err(e) => {
                return Err(e);
            },
            Ok((a, p2)) => {
                let ghost old_out = Seq::new(out@.len(), |j: int| out@[j]@);
                let ghost av = a@;
                out.push(a);
                proof {
                    assert(Seq::new(out@.len(), |j: int| out@[j]@) =~= old_out.push(av));
                    if spec_parse_attributes(b@, p2 as int, n - i - 1) is Ok {
                        let (rest, end) = spec_parse_attributes(b@, p2 as int, n - i - 1)->Ok_0;
                        assert(old_out + (seq![av] + rest) =~= old_out.push(av) + rest);
                    }
                }
                cursor = p2;
                i = i + 1;
            },
        }
    }
    proof {
        assert(Seq::new(out@.len(), |j: int| out@[j]@) + Seq::<SpecAttributeInfo>::empty()
            =~= Seq::new(out@.len(), |j: int| out@[j]@));
    }
    Ok((out, cursor))
}

/// Reads the shared member shape: access flags, name index, descriptor
/// index, counted attributes.
fn read_member_raw(b: &Vec<u8>, pos: usize) -> (r: Result<
    ((u16, u16, u16, Vec<AttributeInfo>), usize),
    Error,
>)
    ensures
        r matches Ok(p) ==> spec_read_member(b@, pos as int) == Ok::<_, ()>(
            (
                SpecMemberInfo {
                    access_flags: p.0.0,
                    name_index: p.0.1,
                    descriptor_index: p.0.2,
                    attributes: Seq::new(p.0.3@.len(), |i: int| p.0.3@[i]@),
                },
                p.1 as int,
            ),
        ),
        r is Err <==> spec_read_member(b@, pos as int) is Err,
        r matches Err(e) ==> e is Parse,
{
    proof {
        vstd::std_specs::vec::axiom_spec_len(b);
    }
    if b.len() < 8 || pos > b.len() - 8 {
        return Err(Error::Parse("Truncated member".to_owned()));
    }
    let access_flags = match read_u16_at(b, pos) {
        Some(v) => v,
        None => {
            return Err(Error::Parse("Truncated member".to_owned()));
        },
    };
    let name_index = match read_u16_at(b, pos + 2) {
        Some(v) => v,
        None => {
            return Err(Error::Parse("Truncated member".to_owned()));
        },
    };
    let descriptor_index = match read_u16_at(b, pos + 4) {
        Some(v) => v,
        None => {
            return Err(Error::Parse("Truncated member".to_owned()));
        },
    };
    let n = match read_u16_at(b, pos + 6) {
        Some(v) => v,
        None => {
            return Err(Error::Parse("Truncated member".to_owned()));
        },
    };
    match read_attributes(b, pos + 8, n) {
        Err(e) => Err(e),
        Ok((attributes, end)) => Ok(((access_flags, name_index, descriptor_index, attributes), end)),
    }
}

/// Reads `n` consecutive raw fields.
#[verifier::loop_isolation(false)]
pub fn read_fields(b: &Vec<u8>, pos: usize, n: u16) -> (r: Result<(Vec<FieldInfo>, usize), Error>)
    ensures
        r matches Ok(p) ==> spec_parse_members(b@, pos as int, n as int) == Ok::<_, ()>(
            (Seq::new(p.0@.len(), |i: int| p.0@[i]@), p.1 as int),
        ),
        r is Err <==> spec_parse_members(b@, pos as int, n as int) is Err,
        r matches Err(e) ==> e is Parse,
{
    let mut out: Vec<FieldInfo> = Vec::new();
    let mut i: u16 = 0;
    let mut cursor: usize = pos;
    while i < n
        invariant
            i <= n,
            spec_parse_members(b@, pos as int, n as int) == match spec_parse_members(
                b@,
                cursor as int,
                n - i,
            ) {
                Ok((rest, end)) => Ok::<_, ()>(
                    (Seq::new(out@.len(), |j: int| out@[j]@) + rest, end),
                ),
                Err(e) => Err(e),
            },
        decreases n - i,
    {
        match read_member_raw(b, cursor) {
            Err(e) => {
                return Err(e);
            },
            Ok(((access_flags, name_index, descriptor_index, attributes), p2)) => {
                let ghost old_out = Seq::new(out@.len(), |j: int| out@[j]@);
                let f = FieldInfo {
                    access_flags: FieldAccessFlags(access_flags),
                    name_index,
                    descriptor_index,
                    attributes,
                };
                let ghost fv = f@;
                out.push(f);
                proof {
                    assert(Seq::new(out@.len(), |j: int| out@[j]@) =~= old_out.push(fv));
                    if spec_parse_members(b@, p2 as int, n - i - 1) is Ok {
                        let (rest, end) = spec_parse_members(b@, p2 as int, n - i - 1)->Ok_0;
                        assert(old_out + (seq![fv] + rest) =~= old_out.push(fv) + rest);
                    }
                }
                cursor = p2;
                i = i + 1;
            },
        }
    }
    proof {
        assert(Seq::new(out@.len(), |j: int| out@[j]@) + Seq::<SpecMemberInfo>::empty() =~= Seq::new(
            out@.len(),
            |j: int| out@[j]@,
        ));
    }
    Ok((out, cursor))
}

/// Reads `n` consecutive raw methods.
#[verifier::loop_isolation(false)]
pub fn read_methods(b: &Vec<u8>, pos: usize, n: u16) -> (r: Result<
    (Vec<MethodInfo>, usize),
    Error,
>)
    ensures
        r matches Ok(p) ==> spec_parse_members(b@, pos as int, n as int) == Ok::<_, ()>(
            (Seq::new(p.0@.len(), |i: int| p.0@[i]@), p.1 as int),
        ),
        r is Err <==> spec_parse_members(b@, pos as int, n as int) is Err,
        r matches Err(e) ==> e is Parse,
{
    let mut out: Vec<MethodInfo> = Vec::new();
    let mut i: u16 = 0;
    let mut cursor: usize = pos;
    while i < n
        invariant
            i <= n,
            spec_parse_members(b@, pos as int, n as int) == match spec_parse_members(
                b@,
                cursor as int,
                n - i,
            ) {
                Ok((rest, end)) => Ok::<_, ()>(
                    (Seq::new(out@.len(), |j: int| out@[j]@) + rest, end),
                ),
                Err(e) => Err(e),
            },
        decreases n - i,
    {
        match read_member_raw(b, cursor) {
            Err(e) => {
                return Err(e);
            },
            Ok(((access_flags, name_index, descriptor_index, attributes), p2)) => {
                let ghost old_out = Seq::new(out@.len(), |j: int| out@[j]@);
                let m = MethodInfo {
                    access_flags: MethodAccessFlags(access_flags),
                    name_index,
                    descriptor_index,
                    attributes,
                };
                let ghost mv = m@;
                out.push(m);
                proof {
                    assert(Seq::new(out@.len(), |j: int| out@[j]@) =~= old_out.push(mv));
                    if spec_parse_members(b@, p2 as int, n - i - 1) is Ok {
                        let (rest, end) = spec_parse_members(b@, p2 as int, n - i - 1)->Ok_0;
                        assert(old_out + (seq![mv] + rest) =~= old_out.push(mv) + rest);
                    }
                }
                cursor = p2;
                i = i + 1;
            },
        }
    }
    proof {
        assert(Seq::new(out@.len(), |j: int| out@[j]@) + Seq::<SpecMemberInfo>::empty() =~= Seq::new(
            out@.len(),
            |j: int| out@[j]@,
        ));
    }
    Ok((out, cursor))
}

impl JavaClassFile {
    /// Decodes a whole class file. A wrong magic number, an unknown pool
    /// tag or a truncated buffer is a fatal parse error: no partial class is
    /// returned.
    #[verifier::loop_isolation(false)]
    pub fn read(b: &Vec<u8>) -> (r: Result<JavaClassFile, Error>)
        ensures
            r matches Ok(cf) ==> spec_parse_class_file(b@) == Ok::<_, ()>(cf@),
            r is Err <==> spec_parse_class_file(b@) is Err,
            r matches Err(e) ==> e is Parse,
    {
        proof {
            vstd::std_specs::vec::axiom_spec_len(b);
        }
        let magic = match read_u32_at(b, 0) {
            Some(v) => v,
            None => {
                return Err(Error::Parse("Truncated class file header".to_owned()));
            },
        };
        if magic != JAVA_CLASS_FILE_MAGIC {
            return Err(Error::Parse("Bad magic number".to_owned()));
        }
        let minor = match read_u16_at(b, 4) {
            Some(v) => v,
            None => {
                return Err(Error::Parse("Truncated class file header".to_owned()));
            },
        };
        let major = match read_u16_at(b, 6) {
            Some(v) => v,
            None => {
                return Err(Error::Parse("Truncated class file header".to_owned()));
            },
        };
        let version = Version { magic, minor, major };
        let (constant_pool, p) = match ConstantPool::read(b, 8) {
            Ok(v) => v,
            Err(e) => {
                return Err(e);
            },
        };
        if b.len() < 8 || p > b.len() - 8 {
            return Err(Error::Parse("Truncated class file".to_owned()));
        }
        let access_flags = match read_u16_at(b, p) {
            Some(v) => ClassAccessFlags(v),
            None => {
                return Err(Error::Parse("Truncated class file".to_owned()));
            },
        };
        let this_class = match read_u16_at(b, p + 2) {
            Some(v) => v,
            None => {
                return Err(Error::Parse("Truncated class file".to_owned()));
            },
        };
        let super_class = match read_u16_at(b, p + 4) {
            Some(v) => v,
            None => {
                return Err(Error::Parse("Truncated class file".to_owned()));
            },
        };
        let icount = match read_u16_at(b, p + 6) {
            Some(v) => v,
            None => {
                return Err(Error::Parse("Truncated class file".to_owned()));
            },
        };
        let p2 = p + 8;
        if (b.len() - p2) / 2 < icount as usize {
            return Err(Error::Parse("Truncated interface list".to_owned()));
        }
        let mut interfaces: Vec<u16> = Vec::new();
        let mut i: usize = 0;
        proof {
            assert(interfaces@ =~= Seq::new(0, |j: int| u16_at(b@, p2 + 2 * j)));
        }
        while i < icount as usize
            invariant
                i <= icount as usize,
                interfaces@ == Seq::new(i as nat, |j: int| u16_at(b@, p2 + 2 * j)),
            decreases icount as usize - i,
        {
            let v = match read_u16_at(b, p2 + 2 * i) {
                Some(v) => v,
                None => {
                    proof {
                        assert(false);
                    }
                    return Err(Error::Parse("Truncated interface list".to_owned()));
                },
            };
            interfaces.push(v);
            proof {
                assert(interfaces@ =~= Seq::new((i + 1) as nat, |j: int| u16_at(b@, p2 + 2 * j)));
            }
            i = i + 1;
        }
        let p3 = p2 + 2 * icount as usize;
        let fcount = match read_u16_at(b, p3) {
            Some(v) => v,
            None => {
                return Err(Error::Parse("Truncated class file".to_owned()));
            },
        };
        let (fields, p4) = match read_fields(b, p3 + 2, fcount) {
            Ok(v) => v,
            Err(e) => {
                return Err(e);
            },
        };
        let mcount = match read_u16_at(b, p4) {
            Some(v) => v,
            None => {
                return Err(Error::Parse("Truncated class file".to_owned()));
            },
        };
        let (methods, p5) = match read_methods(b, p4 + 2, mcount) {
            Ok(v) => v,
            Err(e) => {
                return Err(e);
            },
        };
        let acount = match read_u16_at(b, p5) {
            Some(v) => v,
            None => {
                return Err(Error::Parse("Truncated class file".to_owned()));
            },
        };
        let (attributes, _p6) = match read_attributes(b, p5 + 2, acount) {
            Ok(v) => v,
            Err(e) => {
                return Err(e);
            },
        };
        let cf = JavaClassFile {
            version,
            constant_pool,
            access_flags,
            this_class,
            super_class,
            interfaces,
            fields,
            methods,
            attributes,
        };
        proof {
            assert(spec_parse_class_file(b@) == Ok::<_, ()>(cf@));
        }
        Ok(cf)
    }
}

impl ConstantPool {
    /// Number of slots in the pool, the reserved index 0 included.
    pub fn len(&self) -> (r: usize)
        ensures
            r == self@.len(),
    {
        self.entries.len()
    }

    /// Typed lookup of a UTF-8 entry. Returns `Some` exactly when the index
    /// is in range and holds a UTF-8 entry.
    pub fn find_utf8(&self, cp_index: u16) -> (r: Option<&str>)
        ensures
            match r {
                Some(s) => cp_index < self@.len() && (self@[cp_index as int] matches
                    SpecCpEntry::Utf8(cs) && s@ == cs),
                None => !(cp_index < self@.len() && self@[cp_index as int] is Utf8),
            },
    {
        if (cp_index as usize) >= self.entries.len() {
            return None;
        }
        match &self.entries[cp_index as usize] {
            ConstantPoolEntry::Utf8(m) => Some(m.0.as_str()),
            _ => None,
        }
    }

    /// Typed lookup of a Class entry.
    pub fn find_class(&self, cp_index: u16) -> (r: Option<&CpClass>)
        ensures
            match r {
                Some(c) => cp_index < self@.len() && self@[cp_index as int] == SpecCpEntry::Class(
                    c.name_index,
                ),
                None => !(cp_index < self@.len() && self@[cp_index as int] is Class),
            },
    {
        if (cp_index as usize) >= self.entries.len() {
            return None;
        }
        match &self.entries[cp_index as usize] {
            ConstantPoolEntry::Class(c) => Some(c),
            _ => None,
        }
    }

    /// Typed lookup of an Integer entry.
    pub fn find_int(&self, cp_index: u16) -> (r: Option<i32>)
        ensures
            match r {
                Some(v) => cp_index < self@.len() && self@[cp_index as int]
                    == SpecCpEntry::Integer(v),
                None => !(cp_index < self@.len() && self@[cp_index as int] is Integer),
            },
    {
        if (cp_index as usize) >= self.entries.len() {
            return None;
        }
        match &self.entries[cp_index as usize] {
            ConstantPoolEntry::Integer(v) => Some(*v),
            _ => None,
        }
    }

    /// An Integer entry narrowed to its low 16 bits, two's complement.
    pub fn find_short(&self, cp_index: u16) -> (r: Option<i16>)
        ensures
            match r {
                Some(v) => cp_index < self@.len() && (self@[cp_index as int] matches
                    SpecCpEntry::Integer(w) && v == i16_of_u16(
                    (u32_of_i32(w) % 0x10000) as u16,
                )),
                None => !(cp_index < self@.len() && self@[cp_index as int] is Integer),
            },
    {
        match self.find_int(cp_index) {
            Some(v) => {
                let low: u16 = (i32_to_u32(v) % 0x10000) as u16;
                Some(u16_to_i16(low))
            },
            None => None,
        }
    }

    /// An Integer entry narrowed to its low 8 bits.
    pub fn find_byte(&self, cp_index: u16) -> (r: Option<u8>)
        ensures
            match r {
                Some(v) => cp_index < self@.len() && (self@[cp_index as int] matches
                    SpecCpEntry::Integer(w) && v == (u32_of_i32(w) % 0x100) as u8),
                None => !(cp_index < self@.len() && self@[cp_index as int] is Integer),
            },
    {
        match self.find_int(cp_index) {
            Some(v) => Some((i32_to_u32(v) % 0x100) as u8),
            None => None,
        }
    }

    /// An Integer entry narrowed to its low byte, read as a character.
    pub fn find_char(&self, cp_index: u16) -> (r: Option<char>)
        ensures
            match r {
                Some(v) => cp_index < self@.len() && (self@[cp_index as int] matches
                    SpecCpEntry::Integer(w) && v == ((u32_of_i32(w) % 0x100) as u8) as char),
                None => !(cp_index < self@.len() && self@[cp_index as int] is Integer),
            },
    {
        match self.find_byte(cp_index) {
            Some(b) => Some(b as char),
            None => None,
        }
    }

    /// An Integer entry read as a boolean: nonzero is true.
    pub fn find_bool(&self, cp_index: u16) -> (r: Option<bool>)
        ensures
            match r {
                Some(v) => cp_index < self@.len() && (self@[cp_index as int] matches
                    SpecCpEntry::Integer(w) && v == (w != 0)),
                None => !(cp_index < self@.len() && self@[cp_index as int] is Integer),
            },
    {
        match self.find_int(cp_index) {
            Some(v) => Some(v != 0),
            None => None,
        }
    }

    /// Typed lookup of a Float entry; the value is its raw IEEE-754 bits.
    pub fn find_float(&self, cp_index: u16) -> (r: Option<u32>)
        ensures
            match r {
                Some(v) => cp_index < self@.len() && self@[cp_index as int] == SpecCpEntry::Float(
                    v,
                ),
                None => !(cp_index < self@.len() && self@[cp_index as int] is Float),
            },
    {
        if (cp_index as usize) >= self.entries.len() {
            return None;
        }
        match &self.entries[cp_index as usize] {
            ConstantPoolEntry::Float(v) => Some(*v),
            _ => None,
        }
    }

    /// Typed lookup of a Long entry.
    pub fn find_long(&self, cp_index: u16) -> (r: Option<i64>)
        ensures
            match r {
                Some(v) => cp_index < self@.len() && self@[cp_index as int] == SpecCpEntry::Long(
                    v,
                ),
                None => !(cp_index < self@.len() && self@[cp_index as int] is Long),
            },
    {
        if (cp_index as usize) >= self.entries.len() {
            return None;
        }
        match &self.entries[cp_index as usize] {
            ConstantPoolEntry::Long(v) => Some(*v),
            _ => None,
        }
    }

    /// Typed lookup of a Double entry; the value is its raw IEEE-754 bits.
    pub fn find_double(&self, cp_index: u16) -> (r: Option<u64>)
        ensures
            match r {
                Some(v) => cp_index < self@.len() && self@[cp_index as int] == SpecCpEntry::Double(
                    v,
                ),
                None => !(cp_index < self@.len() && self@[cp_index as int] is Double),
            },
    {
        if (cp_index as usize) >= self.entries.len() {
            return None;
        }
        match &self.entries[cp_index as usize] {
            ConstantPoolEntry::Double(v) => Some(*v),
            _ => None,
        }
    }

    /// The UTF-8 text behind a String entry: the entry's string index is
    /// followed to a UTF-8 entry, and both lookups must land on the right
    /// kind.
    pub fn find_string_ref(&self, cp_index: u16) -> (r: Option<&str>)
        ensures
            match r {
                Some(s) => cp_index < self@.len() && (self@[cp_index as int] matches
                    SpecCpEntry::String(si) && si < self@.len() && (self@[si as int] matches
                    SpecCpEntry::Utf8(cs) && s@ == cs)),
                None => !(cp_index < self@.len() && (self@[cp_index as int] matches
                    SpecCpEntry::String(si) && si < self@.len() && self@[si as int] is Utf8)),
            },
    {
        if (cp_index as usize) >= self.entries.len() {
            return None;
        }
        let si: u16 = match &self.entries[cp_index as usize] {
            ConstantPoolEntry::String(s) => s.string_index,
            _ => {
                return None;
            },
        };
        self.find_utf8(si)
    }
}

/// Whether the pool resolves `this_class` to a class name: `this_class`
/// holds a Class entry whose name index holds a UTF-8 entry.
pub open spec fn class_name_resolvable(cf: SpecClassFile) -> bool {
    &&& cf.this_class < cf.constant_pool.len()
    &&& cf.constant_pool[cf.this_class as int] matches SpecCpEntry::Class(ni)
    &&& ni < cf.constant_pool.len()
    &&& cf.constant_pool[ni as int] is Utf8
}

/// The class's own name, read through `this_class`.
pub open spec fn spec_class_name(cf: SpecClassFile) -> Seq<char>
    recommends
        class_name_resolvable(cf),
{
    match cf.constant_pool[cf.this_class as int] {
        SpecCpEntry::Class(ni) => match cf.constant_pool[ni as int] {
            SpecCpEntry::Utf8(cs) => cs,
            _ => Seq::empty(),
        },
        _ => Seq::empty(),
    }
}

impl JavaClassFile {
    /// The class's own name, read through `this_class`. Returns `Some`
    /// exactly when both pool lookups land on entries of the right kind.
    pub fn try_get_name(&self) -> (r: Option<&str>)
        ensures
            r is Some <==> class_name_resolvable(self@),
            r matches Some(s) ==> s@ == spec_class_name(self@),
    {
        let ci = match self.constant_pool.find_class(self.this_class) {
            Some(c) => c.name_index,
            None => {
                return None;
            },
        };
        self.constant_pool.find_utf8(ci)
    }

    /// The class's own name. The pool must resolve it; `try_get_name` is the
    /// total variant.
    pub fn get_name(&self) -> (r: &str)
        requires
            class_name_resolvable(self@),
        ensures
            r@ == spec_class_name(self@),
    {
        match self.try_get_name() {
            Some(s) => s,
            None => {
                proof {
                    assert(false);
                }
                ""
            },
        }
    }
}

/// Resolved names point at entries of the expected kind: a resolvable
/// `this_class` means that slot holds a Class entry whose name index holds a
/// UTF-8 entry.
pub proof fn lemma_resolved_name_expected_kinds(cf: SpecClassFile)
    requires
        class_name_resolvable(cf),
    ensures
        cf.this_class < cf.constant_pool.len(),
        cf.constant_pool[cf.this_class as int] is Class,
        cf.constant_pool[cf.this_class as int]->Class_0 < cf.constant_pool.len(),
        cf.constant_pool[cf.constant_pool[cf.this_class as int]->Class_0 as int] is Utf8,
{
}

} // verus!
