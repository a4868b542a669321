//! JDWP framing, reply parsing, and the pure core of the asynchronous
//! client: packet headers, variable-width identifiers, the handshake bytes,
//! request/reply correlation and the identifier-size bootstrap.
//!
//! The transport itself (sockets, tasks, waiting) lives outside this crate;
//! everything here is a function from plain values to plain values.

use crate::codec::be_bytes;
use crate::codec::be_val;
use crate::codec::i32_at;
use crate::codec::read_be;
use crate::codec::read_i32_at;
use crate::codec::read_u32_at;
use crate::codec::read_u16_at;
use crate::codec::read_u8_at;
use crate::codec::u16_at;
use crate::codec::u32_at;
use crate::codec::write_u16_be;
use crate::codec::write_u32_be;
use crate::errors::Error;
use vstd::prelude::*;
use vstd::string::*;
use vstd::utf8::decode_utf8;
use vstd::utf8::valid_utf8;

verus! {

/// The JDWP commands this crate issues, encoded on the wire as
/// `(command set << 8) | command`.
#[derive(Debug, Clone, Copy, PartialEq, Eq, Structural)]
pub enum Command {
    VirtualMachineVersion,
    VirtualMachineAllClasses,
    VirtualMachineIDSizes,
}

/// The 16-bit wire value of a command.
pub open spec fn spec_command_value(c: Command) -> u16 {
    match c {
        Command::VirtualMachineVersion => 0x0101,
        Command::VirtualMachineAllClasses => 0x0103,
        Command::VirtualMachineIDSizes => 0x0107,
    }
}

impl Command {
    /// The 16-bit wire value of this command.
    pub fn value(&self) -> (r: u16)
        ensures
            r == spec_command_value(*self),
    {
        match self {
            Command::VirtualMachineVersion => 0x0101,
            Command::VirtualMachineAllClasses => 0x0103,
            Command::VirtualMachineIDSizes => 0x0107,
        }
    }

    /// Decodes a 16-bit wire value; any value outside the command set is
    /// rejected.
    pub fn from_value(v: u16) -> (r: Option<Command>)
        ensures
            r matches Some(c) ==> spec_command_value(c) == v,
            r is None ==> v != 0x0101 && v != 0x0103 && v != 0x0107,
    {
        if v == 0x0101 {
            Some(Command::VirtualMachineVersion)
        } else if v == 0x0103 {
            Some(Command::VirtualMachineAllClasses)
        } else if v == 0x0107 {
            Some(Command::VirtualMachineIDSizes)
        } else {
            None
        }
    }
}

/// The 11-byte header of a command packet.
#[derive(Debug, Clone, Copy, PartialEq, Eq, Structural)]
pub struct CommandPacketHeader {
    pub length: u32,
    pub id: u32,
    pub flags: u8,
    pub command: Command,
}

/// The big-endian wire form of a command packet header.
pub open spec fn spec_command_header_bytes(h: CommandPacketHeader) -> Seq<u8> {
    be_bytes(h.length as nat, 4) + be_bytes(h.id as nat, 4) + seq![h.flags] + be_bytes(
        spec_command_value(h.command) as nat,
        2,
    )
}

impl CommandPacketHeader {
    /// The header length on the wire.
    pub fn get_length() -> (r: usize)
        ensures
            r == 11,
    {
        4 + 4 + 1 + 2
    }

    /// Serializes the header big-endian.
    pub fn to_bytes(&self) -> (r: Vec<u8>)
        ensures
            r@ == spec_command_header_bytes(*self),
            r@.len() == 11,
    {
        let mut out: Vec<u8> = Vec::new();
        write_u32_be(&mut out, self.length);
        write_u32_be(&mut out, self.id);
        out.push(self.flags);
        write_u16_be(&mut out, self.command.value());
        proof {
            crate::codec::lemma_be_bytes_len(self.length as nat, 4);
            crate::codec::lemma_be_bytes_len(self.id as nat, 4);
            crate::codec::lemma_be_bytes_len(spec_command_value(self.command) as nat, 2);
            assert(out@ =~= spec_command_header_bytes(*self));
        }
        out
    }
}

/// The 11-byte header of a reply packet; `error_code` 0 means success.
#[derive(Debug, Clone, Copy, PartialEq, Eq, Structural)]
pub struct ReplyPacketHeader {
    pub length: u32,
    pub id: u32,
    pub flags: u8,
    pub error_code: u16,
}

impl ReplyPacketHeader {
    /// The placeholder header a failed transport hands to waiting calls.
    pub fn default() -> (r: Self)
        ensures
            r.length == 0,
            r.id == 0xFFFFFFFF,
            r.flags == 0,
            r.error_code == 0,
    {
        ReplyPacketHeader { length: 0, id: 0xFFFFFFFF, flags: 0, error_code: 0 }
    }

    /// The header length on the wire.
    pub fn get_length() -> (r: usize)
        ensures
            r == 11,
    {
        4 + 4 + 1 + 2
    }

    /// Whether the reply reports success.
    pub fn is_success(&self) -> (r: bool)
        ensures
            r == (self.error_code == 0),
    {
        self.error_code == 0
    }

    /// Parses an 11-byte big-endian reply header.
    pub fn read(b: &Vec<u8>, pos: usize) -> (r: Result<(ReplyPacketHeader, usize), Error>)
        ensures
            r is Ok <==> pos + 11 <= b@.len(),
            r matches Ok(p) ==> p.0.length == u32_at(b@, pos as int) && p.0.id == u32_at(
                b@,
                pos + 4,
            ) && p.0.flags == b@[pos + 8] && p.0.error_code == u16_at(b@, pos + 9) && p.1 == pos
                + 11,
            r matches Err(e) ==> e is Parse,
    {
        proof {
            vstd::std_specs::vec::axiom_spec_len(b);
        }
        let length = match read_u32_at(b, pos) {
            Some(v) => v,
            None => {
                return Err(Error::Parse("Truncated reply header".to_owned()));
            },
        };
        let id = match read_u32_at(b, pos + 4) {
            Some(v) => v,
            None => {
                return Err(Error::Parse("Truncated reply header".to_owned()));
            },
        };
        let flags = match read_u8_at(b, pos + 8) {
            Some(v) => v,
            None => {
                return Err(Error::Parse("Truncated reply header".to_owned()));
            },
        };
        let error_code = match read_u16_at(b, pos + 9) {
            Some(v) => v,
            None => {
                return Err(Error::Parse("Truncated reply header".to_owned()));
            },
        };
        Ok((ReplyPacketHeader { length, id, flags, error_code }, pos + 11))
    }
}

/// An object, reference-type, field, method or frame identifier whose wire
/// width was negotiated at runtime.
#[derive(Debug, Clone, Copy, PartialEq, Eq, Structural)]
pub struct VariableLengthId {
    pub value: u64,
}

/// Whether a negotiated identifier width is one this crate can read.
pub open spec fn valid_id_width(w: u8) -> bool {
    w == 1 || w == 2 || w == 4 || w == 8
}

impl VariableLengthId {
    /// Reads a big-endian identifier of the given width; any width outside
    /// {1, 2, 4, 8} is an error.
    pub fn read(b: &Vec<u8>, pos: usize, width: u8) -> (r: Result<(VariableLengthId, usize), Error>)
        ensures
            r is Ok <==> valid_id_width(width) && pos + width <= b@.len(),
            r matches Ok(p) ==> p.0.value == (be_val(b@.subrange(pos as int, pos + width)) as u64)
                && p.1 == pos + width as usize,
            r matches Err(e) ==> e is Parse,
    {
        proof {
            vstd::std_specs::vec::axiom_spec_len(b);
        }
        if !(width == 1 || width == 2 || width == 4 || width == 8) {
            return Err(Error::Parse("Unsupported variable size ID".to_owned()));
        }
        match read_be(b, pos, width as usize) {
            Some(v) => Ok((VariableLengthId { value: v }, pos + width as usize)),
            None => Err(Error::Parse("Truncated identifier".to_owned())),
        }
    }
}

/// A length-prefixed UTF-8 string in a JDWP packet body.
#[derive(Debug, Clone, PartialEq, Eq)]
pub struct JdwpString {
    pub string: String,
}

/// What reading a JDWP string yields: a `u32` byte count, then that many
/// bytes of UTF-8. An empty string is a zero count with no payload.
pub open spec fn spec_read_jdwp_string(s: Seq<u8>, pos: int) -> Result<(Seq<char>, int), ()> {
    if pos + 4 <= s.len() {
        let n = u32_at(s, pos) as int;
        if pos + 4 + n <= s.len() {
            let bytes = s.subrange(pos + 4, pos + 4 + n);
            if valid_utf8(bytes) {
                Ok((decode_utf8(bytes), pos + 4 + n))
            } else {
                Err(())
            }
        } else {
            Err(())
        }
    } else {
        Err(())
    }
}

impl JdwpString {
    /// Reads a length-prefixed UTF-8 string.
    pub fn read(b: &Vec<u8>, pos: usize) -> (r: Result<(JdwpString, usize), Error>)
        ensures
            r matches Ok(p) ==> spec_read_jdwp_string(b@, pos as int) == Ok::<_, ()>(
                (p.0.string@, p.1 as int),
            ),
            r is Err <==> spec_read_jdwp_string(b@, pos as int) is Err,
            r matches Err(e) ==> e is Parse,
    {
        proof {
            vstd::std_specs::vec::axiom_spec_len(b);
        }
        let n = match read_u32_at(b, pos) {
            Some(v) => v,
            None => {
                return Err(Error::Parse("Truncated string".to_owned()));
            },
        };
        if ((b.len() - (pos + 4)) as u64) < n as u64 {
            return Err(Error::Parse("Truncated string".to_owned()));
        }
        let bytes = crate::classfile::copy_range(b, pos + 4, pos + 4 + n as usize);
        match crate::classfile::string_from_utf8(bytes) {
            Some(s) => Ok((JdwpString { string: s }, pos + 4 + n as usize)),
            None => Err(Error::Parse("Invalid UTF-8 in string".to_owned())),
        }
    }

    /// Serializes the string: a `u32` byte count, then the UTF-8 bytes.
    pub fn write(&self) -> (r: Vec<u8>)
        requires
            vstd::utf8::encode_utf8(self.string@).len() <= 0xFFFF_FFFF,
        ensures
            r@ == be_bytes(vstd::utf8::encode_utf8(self.string@).len(), 4)
                + vstd::utf8::encode_utf8(self.string@),
    {
        let bytes = self.string.as_str().as_bytes_vec();
        let mut out: Vec<u8> = Vec::new();
        write_u32_be(&mut out, bytes.len() as u32);
        crate::codec::push_all(&mut out, &bytes);
        out
    }
}

/// The kind of a reference type in an `AllClasses` reply.
#[derive(Debug, Clone, Copy, PartialEq, Eq, Structural)]
pub enum TypeTag {
    Class,
    Interface,
    Array,
}

/// The 8-bit wire value of a type tag.
pub open spec fn spec_type_tag_value(t: TypeTag) -> u8 {
    match t {
        TypeTag::Class => 1,
        TypeTag::Interface => 2,
        TypeTag::Array => 3,
    }
}

impl TypeTag {
    /// Decodes an 8-bit type tag; anything outside {1, 2, 3} is rejected.
    pub fn from_value(v: u8) -> (r: Option<TypeTag>)
        ensures
            r matches Some(t) ==> spec_type_tag_value(t) == v,
            r is None ==> v != 1 && v != 2 && v != 3,
    {
        if v == 1 {
            Some(TypeTag::Class)
        } else if v == 2 {
            Some(TypeTag::Interface)
        } else if v == 3 {
            Some(TypeTag::Array)
        } else {
            None
        }
    }

    /// The 8-bit wire value of this tag.
    pub fn value(&self) -> (r: u8)
        ensures
            r == spec_type_tag_value(*self),
    {
        match self {
            TypeTag::Class => 1,
            TypeTag::Interface => 2,
            TypeTag::Array => 3,
        }
    }
}

/// A class's status bit mask in an `AllClasses` reply.
#[derive(Debug, Clone, Copy, PartialEq, Eq, Structural)]
pub struct ClassStatus(pub i32);

impl ClassStatus {
    pub fn bits(&self) -> (r: i32)
        ensures
            r == self.0,
    {
        self.0
    }
}

/// The `VirtualMachine.Version` reply body.
#[derive(Debug, Clone, PartialEq, Eq)]
pub struct VersionReply {
    pub description: JdwpString,
    pub jdwp_major: i32,
    pub jdwp_minor: i32,
    pub vm_version: JdwpString,
    pub vm_name: JdwpString,
}

/// Mathematical model of a `Version` reply.
pub struct SpecVersionReply {
    pub description: Seq<char>,
    pub jdwp_major: i32,
    pub jdwp_minor: i32,
    pub vm_version: Seq<char>,
    pub vm_name: Seq<char>,
}

impl View for VersionReply {
    type V = SpecVersionReply;

    open spec fn view(&self) -> SpecVersionReply {
        SpecVersionReply {
            description: self.description.string@,
            jdwp_major: self.jdwp_major,
            jdwp_minor: self.jdwp_minor,
            vm_version: self.vm_version.string@,
            vm_name: self.vm_name.string@,
        }
    }
}

/// What parsing a `Version` reply body yields.
pub open spec fn spec_read_version_reply(s: Seq<u8>) -> Result<SpecVersionReply, ()> {
    match spec_read_jdwp_string(s, 0) {
        Err(e) => Err(e),
        Ok((description, p1)) => {
            if p1 + 8 <= s.len() {
                let jdwp_major = i32_at(s, p1);
                let jdwp_minor = i32_at(s, p1 + 4);
                match spec_read_jdwp_string(s, p1 + 8) {
                    Err(e) => Err(e),
                    Ok((vm_version, p2)) => match spec_read_jdwp_string(s, p2) {
                        Err(e) => Err(e),
                        Ok((vm_name, _p3)) => Ok(
                            SpecVersionReply {
                                description,
                                jdwp_major,
                                jdwp_minor,
                                vm_version,
                                vm_name,
                            },
                        ),
                    },
                }
            } else {
                Err(())
            }
        },
    }
}

impl VersionReply {
    /// Parses a `Version` reply body.
    pub fn read(b: &Vec<u8>) -> (r: Result<VersionReply, Error>)
        ensures
            r matches Ok(v) ==> spec_read_version_reply(b@) == Ok::<_, ()>(v@),
            r is Err <==> spec_read_version_reply(b@) is Err,
            r matches Err(e) ==> e is Parse,
    {
        proof {
            vstd::std_specs::vec::axiom_spec_len(b);
        }
        let (description, p1) = match JdwpString::read(b, 0) {
            Ok(v) => v,
            Err(e) => {
                return Err(e);
            },
        };
        proof {
            assert(p1 <= b@.len());
        }
        let jdwp_major = match read_i32_at(b, p1) {
            Some(v) => v,
            None => {
                return Err(Error::Parse("Truncated Version reply".to_owned()));
            },
        };
        let jdwp_minor = match read_i32_at(b, p1 + 4) {
            Some(v) => v,
            None => {
                return Err(Error::Parse("Truncated Version reply".to_owned()));
            },
        };
        let (vm_version, p2) = match JdwpString::read(b, p1 + 8) {
            Ok(v) => v,
            Err(e) => {
                return Err(e);
            },
        };
        proof {
            assert(p2 <= b@.len());
        }
        let (vm_name, _p3) = match JdwpString::read(b, p2) {
            Ok(v) => v,
            Err(e) => {
                return Err(e);
            },
        };
        Ok(VersionReply { description, jdwp_major, jdwp_minor, vm_version, vm_name })
    }
}

/// The `VirtualMachine.IDSizes` reply body: five widths as `i32`s.
#[derive(Debug, Clone, Copy, PartialEq, Eq, Structural)]
pub struct IdSizesReply {
    pub field_id_size: i32,
    pub method_id_size: i32,
    pub object_id_size: i32,
    pub reference_type_id_size: i32,
    pub frame_id_size: i32,
}

impl IdSizesReply {
    /// Parses an `IDSizes` reply body: five big-endian `i32`s.
    pub fn read(b: &Vec<u8>) -> (r: Result<IdSizesReply, Error>)
        ensures
            r is Ok <==> b@.len() >= 20,
            r matches Ok(v) ==> v.field_id_size == i32_at(b@, 0) && v.method_id_size == i32_at(
                b@,
                4,
            ) && v.object_id_size == i32_at(b@, 8) && v.reference_type_id_size == i32_at(b@, 12)
                && v.frame_id_size == i32_at(b@, 16),
            r matches Err(e) ==> e is Parse,
    {
        let field_id_size = match read_i32_at(b, 0) {
            Some(v) => v,
            None => {
                return Err(Error::Parse("Truncated IDSizes reply".to_owned()));
            },
        };
        let method_id_size = match read_i32_at(b, 4) {
            Some(v) => v,
            None => {
                return Err(Error::Parse("Truncated IDSizes reply".to_owned()));
            },
        };
        let object_id_size = match read_i32_at(b, 8) {
            Some(v) => v,
            None => {
                return Err(Error::Parse("Truncated IDSizes reply".to_owned()));
            },
        };
        let reference_type_id_size = match read_i32_at(b, 12) {
            Some(v) => v,
            None => {
                return Err(Error::Parse("Truncated IDSizes reply".to_owned()));
            },
        };
        let frame_id_size = match read_i32_at(b, 16) {
            Some(v) => v,
            None => {
                return Err(Error::Parse("Truncated IDSizes reply".to_owned()));
            },
        };
        Ok(
            IdSizesReply {
                field_id_size,
                method_id_size,
                object_id_size,
                reference_type_id_size,
                frame_id_size,
            },
        )
    }
}

/// The negotiated identifier widths, each in {1, 2, 4, 8}: fieldID,
/// methodID, objectID, referenceTypeID and frameID. Learned once per session
/// from an `IDSizes` exchange, then required for parsing any reply whose
/// body contains identifiers.
#[derive(Debug, Clone, Copy, PartialEq, Eq, Structural)]
pub struct JdwpIdSizes {
    pub field_id_size: u8,
    pub method_id_size: u8,
    pub object_id_size: u8,
    pub reference_type_id_size: u8,
    pub frame_id_size: u8,
}

/// Whether every negotiated width is one this crate can read.
pub open spec fn valid_id_sizes(s: JdwpIdSizes) -> bool {
    &&& valid_id_width(s.field_id_size)
    &&& valid_id_width(s.method_id_size)
    &&& valid_id_width(s.object_id_size)
    &&& valid_id_width(s.reference_type_id_size)
    &&& valid_id_width(s.frame_id_size)
}

/// One class in an `AllClasses` reply.
#[derive(Debug, Clone, PartialEq, Eq)]
pub struct AllClassesReplyClass {
    pub ref_type_tag: TypeTag,
    pub type_id: VariableLengthId,
    pub signature: JdwpString,
    pub status: ClassStatus,
}

/// Mathematical model of one `AllClasses` entry.
pub struct SpecAllClassesReplyClass {
    pub ref_type_tag: TypeTag,
    pub type_id: u64,
    pub signature: Seq<char>,
    pub status: i32,
}

impl View for AllClassesReplyClass {
    type V = SpecAllClassesReplyClass;

    open spec fn view(&self) -> SpecAllClassesReplyClass {
        SpecAllClassesReplyClass {
            ref_type_tag: self.ref_type_tag,
            type_id: self.type_id.value,
            signature: self.signature.string@,
            status: self.status.0,
        }
    }
}

/// What parsing one `AllClasses` entry yields: a type tag in {1, 2, 3}, a
/// reference-type identifier of the negotiated width, a signature string and
/// a status mask.
pub open spec fn spec_read_all_classes_entry(s: Seq<u8>, pos: int, w: u8) -> Result<
    (SpecAllClassesReplyClass, int),
    (),
> {
    if pos < 0 || pos >= s.len() {
        Err(())
    } else {
        let tag_raw = s[pos];
        if tag_raw == 1 || tag_raw == 2 || tag_raw == 3 {
            let tag = if tag_raw == 1 {
                TypeTag::Class
            } else if tag_raw == 2 {
                TypeTag::Interface
            } else {
                TypeTag::Array
            };
            if valid_id_width(w) && pos + 1 + w <= s.len() {
                let type_id = be_val(s.subrange(pos + 1, pos + 1 + w)) as u64;
                match spec_read_jdwp_string(s, pos + 1 + w) {
                    Err(e) => Err(e),
                    Ok((signature, p2)) => {
                        if p2 + 4 <= s.len() {
                            Ok(
                                (
                                    SpecAllClassesReplyClass {
                                        ref_type_tag: tag,
                                        type_id,
                                        signature,
                                        status: i32_at(s, p2),
                                    },
                                    p2 + 4,
                                ),
                            )
                        } else {
                            Err(())
                        }
                    },
                }
            } else {
                Err(())
            }
        } else {
            Err(())
        }
    }
}

impl AllClassesReplyClass {
    /// Parses one `AllClasses` entry with the negotiated reference-type
    /// identifier width.
    pub fn read(b: &Vec<u8>, pos: usize, sizes: JdwpIdSizes) -> (r: Result<
        (AllClassesReplyClass, usize),
        Error,
    >)
        ensures
            r matches Ok(p) ==> spec_read_all_classes_entry(
                b@,
                pos as int,
                sizes.reference_type_id_size,
            ) == Ok::<_, ()>((p.0@, p.1 as int)),
            r is Err <==> spec_read_all_classes_entry(
                b@,
                pos as int,
                sizes.reference_type_id_size,
            ) is Err,
            r matches Err(e) ==> e is Parse,
    {
        proof {
            vstd::std_specs::vec::axiom_spec_len(b);
        }
        let tag_raw = match read_u8_at(b, pos) {
            Some(v) => v,
            None => {
                return Err(Error::Parse("Truncated AllClasses entry".to_owned()));
            },
        };
        let ref_type_tag = match TypeTag::from_value(tag_raw) {
            Some(t) => t,
            None => {
                return Err(Error::Parse("Invalid type tag".to_owned()));
            },
        };
        let (type_id, p1) = match VariableLengthId::read(b, pos + 1, sizes.reference_type_id_size) {
            Ok(v) => v,
            Err(e) => {
                return Err(e);
            },
        };
        let (signature, p2) = match JdwpString::read(b, p1) {
            Ok(v) => v,
            Err(e) => {
                return Err(e);
            },
        };
        proof {
            assert(p2 <= b@.len());
        }
        let status = match read_i32_at(b, p2) {
            Some(v) => ClassStatus(v),
            None => {
                return Err(Error::Parse("Truncated AllClasses entry".to_owned()));
            },
        };
        Ok((AllClassesReplyClass { ref_type_tag, type_id, signature, status }, p2 + 4))
    }
}

/// The `VirtualMachine.AllClasses` reply body.
#[derive(Debug, Clone, PartialEq, Eq)]
pub struct AllClassesReply {
    pub classes: Vec<AllClassesReplyClass>,
}

/// What parsing `n` consecutive `AllClasses` entries yields.
pub open spec fn spec_read_all_classes_entries(s: Seq<u8>, pos: int, w: u8, n: int) -> Result<
    (Seq<SpecAllClassesReplyClass>, int),
    (),
>
    decreases n,
{
    if n <= 0 {
        Ok((Seq::empty(), pos))
    } else {
        match spec_read_all_classes_entry(s, pos, w) {
            Err(e) => Err(e),
            Ok((c, p2)) => match spec_read_all_classes_entries(s, p2, w, n - 1) {
                Err(e) => Err(e),
                Ok((rest, end)) => Ok((seq![c] + rest, end)),
            },
        }
    }
}

/// What parsing a whole `AllClasses` reply body yields: an `i32` count, then
/// that many entries. A negative count yields no entries.
pub open spec fn spec_read_all_classes_reply(s: Seq<u8>, w: u8) -> Result<
    Seq<SpecAllClassesReplyClass>,
    (),
> {
    if s.len() < 4 {
        Err(())
    } else {
        let n = if i32_at(s, 0) >= 0 {
            i32_at(s, 0) as int
        } else {
            0
        };
        match spec_read_all_classes_entries(s, 4, w, n) {
            Err(e) => Err(e),
            Ok((cs, _end)) => Ok(cs),
        }
    }
}

impl AllClassesReply {
    /// Parses an `AllClasses` reply body with the negotiated identifier
    /// widths.
    #[verifier::loop_isolation(false)]
    pub fn read(b: &Vec<u8>, sizes: JdwpIdSizes) -> (r: Result<AllClassesReply, Error>)
        ensures
            r matches Ok(v) ==> spec_read_all_classes_reply(b@, sizes.reference_type_id_size)
                == Ok::<_, ()>(Seq::new(v.classes@.len(), |i: int| v.classes@[i]@)),
            r is Err <==> spec_read_all_classes_reply(b@, sizes.reference_type_id_size) is Err,
            r matches Err(e) ==> e is Parse,
    {
        let w = sizes.reference_type_id_size;
        let count_raw = match read_i32_at(b, 0) {
            Some(v) => v,
            None => {
                return Err(Error::Parse("Truncated AllClasses reply".to_owned()));
            },
        };
        let count: u32 = if count_raw < 0 {
            0
        } else {
            count_raw as u32
        };
        let mut classes: Vec<AllClassesReplyClass> = Vec::new();
        let mut i: u32 = 0;
        let mut pos: usize = 4;
        while i < count
            invariant
                i <= count,
                spec_read_all_classes_reply(b@, w) == match spec_read_all_classes_entries(
                    b@,
                    pos as int,
                    w,
                    count - i,
                ) {
                    Ok((rest, _end)) => Ok::<_, ()>(
                        Seq::new(classes@.len(), |k: int| classes@[k]@) + rest,
                    ),
                    Err(e) => Err(e),
                },
            decreases count - i,
        {
            match AllClassesReplyClass::read(b, pos, sizes) {
                Err(e) => {
                    return Err(e);
                },
                Ok((c, p2)) => {
                    let ghost old_cs = Seq::new(classes@.len(), |k: int| classes@[k]@);
                    let ghost cv = c@;
                    classes.push(c);
                    proof {
                        assert(Seq::new(classes@.len(), |k: int| classes@[k]@) =~= old_cs.push(cv));
                        if spec_read_all_classes_entries(b@, p2 as int, w, count - i - 1) is Ok {
                            let (rest, _end) = spec_read_all_classes_entries(
                                b@,
                                p2 as int,
                                w,
                                count - i - 1,
                            )->Ok_0;
                            assert(old_cs + (seq![cv] + rest) =~= old_cs.push(cv) + rest);
                        }
                    }
                    pos = p2;
                    i = i + 1;
                },
            }
        }
        proof {
            assert(Seq::new(classes@.len(), |k: int| classes@[k]@)
                + Seq::<SpecAllClassesReplyClass>::empty() =~= Seq::new(
                classes@.len(),
                |k: int| classes@[k]@,
            ));
        }
        Ok(AllClassesReply { classes })
    }
}

/// The 14 ASCII bytes of `JDWP-Handshake`.
pub open spec fn jdwp_handshake_bytes() -> Seq<u8> {
    seq![
        0x4au8,
        0x44u8,
        0x57u8,
        0x50u8,
        0x2du8,
        0x48u8,
        0x61u8,
        0x6eu8,
        0x64u8,
        0x73u8,
        0x68u8,
        0x61u8,
        0x6bu8,
        0x65u8,
    ]
}

/// The bytes a client writes to open the handshake.
pub fn handshake_bytes() -> (r: Vec<u8>)
    ensures
        r@ == jdwp_handshake_bytes(),
        r@.len() == 14,
{
    let mut out: Vec<u8> = Vec::new();
    out.push(0x4a);
    out.push(0x44);
    out.push(0x57);
    out.push(0x50);
    out.push(0x2d);
    out.push(0x48);
    out.push(0x61);
    out.push(0x6e);
    out.push(0x64);
    out.push(0x73);
    out.push(0x68);
    out.push(0x61);
    out.push(0x6b);
    out.push(0x65);
    proof {
        assert(out@ =~= jdwp_handshake_bytes());
    }
    out
}

/// Checks the peer's 14 handshake bytes against `JDWP-Handshake`: a
/// byte-for-byte mismatch is fatal.
#[verifier::loop_isolation(false)]
pub fn verify_handshake(reply: &Vec<u8>) -> (r: Result<(), Error>)
    ensures
        r is Ok <==> reply@ == jdwp_handshake_bytes(),
        r matches Err(e) ==> e is HandshakeMismatch,
{
    let expected = handshake_bytes();
    if reply.len() != expected.len() {
        proof {
            assert(reply@ != jdwp_handshake_bytes());
        }
        return Err(Error::HandshakeMismatch);
    }
    let mut i: usize = 0;
    while i < expected.len()
        invariant
            i <= expected@.len(),
            reply@.len() == expected@.len(),
            expected@ == jdwp_handshake_bytes(),
            forall|j: int| 0 <= j < i ==> reply@[j] == expected@[j],
        decreases expected@.len() - i,
    {
        if reply[i] != expected[i] {
            return Err(Error::HandshakeMismatch);
        }
        i = i + 1;
    }
    proof {
        assert(reply@ =~= jdwp_handshake_bytes());
    }
    Ok(())
}

} // verus!
