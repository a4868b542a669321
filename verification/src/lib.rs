//! A Java debugger toolkit: a decoder for the Java class file binary format
//! (constant pool, member tables, attributes, bytecode) and the pure core of
//! a client for the Java Debug Wire Protocol (JDWP).

pub mod classfile;
pub mod client;
pub mod codec;
pub mod descriptors;
pub mod errors;
pub mod instructions;
pub mod jdwp;
pub mod linker;
