//! Tests of the bytecode instruction decoder: switch alignment, variable
//! tables, canonicalized variants, unknown opcodes.

use xjvmdbg::instructions::parse_instructions;
use xjvmdbg::instructions::read_instruction;
use xjvmdbg::instructions::read_lookup_switch;
use xjvmdbg::instructions::read_table_switch;
use xjvmdbg::instructions::read_wide_instruction;
use xjvmdbg::instructions::Instruction;
use xjvmdbg::instructions::WideInstruction;

// The switch readers take the position just after the opcode byte; each
// buffer below carries its opcode so that the padding is computed relative
// to the code-array origin.

#[test]
fn test_table_switch_no_padding() {
    // Opcode at offset 3: the next read is already 4-byte aligned.
    let data = vec![
        0xFF, 0xFF, 0xFF, 0xAA, // opcode at offset 3
        0x00, 0x00, 0x00, 0x10, // default = 16
        0x00, 0x00, 0x00, 0x01, // low = 1
        0x00, 0x00, 0x00, 0x03, // high = 3
        0x00, 0x00, 0x00, 0x20, // offset[0] = 32
        0x00, 0x00, 0x00, 0x30, // offset[1] = 48
        0x00, 0x00, 0x00, 0x40, // offset[2] = 64
    ];
    let (result, _end) = read_table_switch(&data, 4).unwrap();
    if let Instruction::Tableswitch { default, low, high, offsets } = result {
        assert_eq!(default, 16);
        assert_eq!(low, 1);
        assert_eq!(high, 3);
        assert_eq!(offsets, vec![32, 48, 64]);
    } else {
        panic!("Expected Tableswitch instruction");
    }
}

#[test]
fn test_table_switch_with_1_padding() {
    // Opcode at offset 2: one padding byte.
    let data = vec![
        0xFF, 0xFF, 0xAA, 0x00, // opcode at offset 2, 1 byte padding
        0x00, 0x00, 0x00, 0x10, // default = 16
        0x00, 0x00, 0x00, 0x02, // low = 2
        0x00, 0x00, 0x00, 0x02, // high = 2 (single case)
        0x00, 0x00, 0x00, 0x25, // offset[0] = 37
    ];
    let (result, _end) = read_table_switch(&data, 3).unwrap();
    if let Instruction::Tableswitch { default, low, high, offsets } = result {
        assert_eq!(default, 16);
        assert_eq!(low, 2);
        assert_eq!(high, 2);
        assert_eq!(offsets, vec![37]);
    } else {
        panic!("Expected Tableswitch instruction");
    }
}

#[test]
fn test_table_switch_with_2_padding() {
    // Opcode at offset 1: two padding bytes.
    let data = vec![
        0xFF, 0xAA, 0x00, 0x00, // opcode at offset 1, 2 bytes padding
        0x00, 0x00, 0x00, 0x05, // default = 5
        0xFF, 0xFF, 0xFF, 0xFF, // low = -1
        0x00, 0x00, 0x00, 0x01, // high = 1
        0x00, 0x00, 0x00, 0x10, // offset[0] = 16 (for -1)
        0x00, 0x00, 0x00, 0x20, // offset[1] = 32 (for 0)
        0x00, 0x00, 0x00, 0x30, // offset[2] = 48 (for 1)
    ];
    let (result, _end) = read_table_switch(&data, 2).unwrap();
    if let Instruction::Tableswitch { default, low, high, offsets } = result {
        assert_eq!(default, 5);
        assert_eq!(low, -1);
        assert_eq!(high, 1);
        assert_eq!(offsets, vec![16, 32, 48]);
    } else {
        panic!("Expected Tableswitch instruction");
    }
}

#[test]
fn test_table_switch_with_3_padding() {
    // Opcode at offset 0: three padding bytes.
    let data = vec![
        0xAA, 0x00, 0x00, 0x00, // opcode at offset 0, 3 bytes padding
        0x00, 0x00, 0x00, 0x00, // default = 0
        0x00, 0x00, 0x00, 0x05, // low = 5
        0x00, 0x00, 0x00, 0x07, // high = 7
        0x00, 0x00, 0x00, 0x15, // offset[0] = 21 (for 5)
        0x00, 0x00, 0x00, 0x25, // offset[1] = 37 (for 6)
        0x00, 0x00, 0x00, 0x35, // offset[2] = 53 (for 7)
    ];
    let (result, _end) = read_table_switch(&data, 1).unwrap();
    if let Instruction::Tableswitch { default, low, high, offsets } = result {
        assert_eq!(default, 0);
        assert_eq!(low, 5);
        assert_eq!(high, 7);
        assert_eq!(offsets, vec![21, 37, 53]);
    } else {
        panic!("Expected Tableswitch instruction");
    }
}

#[test]
fn test_table_switch_empty_range() {
    // high < low: the offset list must be empty, without panicking.
    let data = vec![
        0xFF, 0xFF, 0xFF, 0xAA, 0x00, 0x00, 0x00, 0x10, // default = 16
        0x00, 0x00, 0x00, 0x05, // low = 5
        0x00, 0x00, 0x00, 0x03, // high = 3 (< low)
    ];
    let (result, _end) = read_table_switch(&data, 4).unwrap();
    if let Instruction::Tableswitch { default, low, high, offsets } = result {
        assert_eq!(default, 16);
        assert_eq!(low, 5);
        assert_eq!(high, 3);
        assert_eq!(offsets, Vec::<i32>::new());
    } else {
        panic!("Expected Tableswitch instruction");
    }
}

#[test]
fn test_lookup_switch_no_padding() {
    let data = vec![
        0xFF, 0xFF, 0xFF, 0xAB, 0x00, 0x00, 0x00, 0x10, // default = 16
        0x00, 0x00, 0x00, 0x03, // npairs = 3
        0x00, 0x00, 0x00, 0x05, 0x00, 0x00, 0x00, 0x14, // 5 -> 20
        0x00, 0x00, 0x00, 0x0A, 0x00, 0x00, 0x00, 0x1E, // 10 -> 30
        0x00, 0x00, 0x00, 0x0F, 0x00, 0x00, 0x00, 0x28, // 15 -> 40
    ];
    let (result, _end) = read_lookup_switch(&data, 4).unwrap();
    if let Instruction::Lookupswitch { default_offset, matches } = result {
        assert_eq!(default_offset, 16);
        assert_eq!(matches.len(), 3);
        assert_eq!(matches.get(&5), Some(&20));
        assert_eq!(matches.get(&10), Some(&30));
        assert_eq!(matches.get(&15), Some(&40));
    } else {
        panic!("Expected Lookupswitch instruction");
    }
}

#[test]
fn test_lookup_switch_with_padding() {
    // Opcode at offset 1: two padding bytes.
    let data = vec![
        0xFF, 0xAB, 0x00, 0x00, // opcode at offset 1, 2 bytes padding
        0xFF, 0xFF, 0xFF, 0xF0, // default = -16
        0x00, 0x00, 0x00, 0x02, // npairs = 2
        0xFF, 0xFF, 0xFF, 0xFB, 0x00, 0x00, 0x00, 0x64, // -5 -> 100
        0x00, 0x00, 0x03, 0xE8, 0xFF, 0xFF, 0xFF, 0xCE, // 1000 -> -50
    ];
    let (result, _end) = read_lookup_switch(&data, 2).unwrap();
    if let Instruction::Lookupswitch { default_offset, matches } = result {
        assert_eq!(default_offset, -16);
        assert_eq!(matches.len(), 2);
        assert_eq!(matches.get(&-5), Some(&100));
        assert_eq!(matches.get(&1000), Some(&-50));
    } else {
        panic!("Expected Lookupswitch instruction");
    }
}

#[test]
fn test_lookup_switch_zero_pairs() {
    let data = vec![
        0xFF, 0xFF, 0xFF, 0xAB, 0x00, 0x00, 0x00, 0x08, // default = 8
        0x00, 0x00, 0x00, 0x00, // npairs = 0
    ];
    let (result, _end) = read_lookup_switch(&data, 4).unwrap();
    if let Instruction::Lookupswitch { default_offset, matches } = result {
        assert_eq!(default_offset, 8);
        assert_eq!(matches.len(), 0);
        assert!(matches.is_empty());
    } else {
        panic!("Expected Lookupswitch instruction");
    }
}

#[test]
fn test_lookup_switch_duplicate_keys() {
    // On duplicate match keys the later pair wins.
    let data = vec![
        0xFF, 0xFF, 0xFF, 0xAB, 0x00, 0x00, 0x00, 0x00, // default = 0
        0x00, 0x00, 0x00, 0x02, // npairs = 2
        0x00, 0x00, 0x00, 0x05, 0x00, 0x00, 0x00, 0x14, // 5 -> 20
        0x00, 0x00, 0x00, 0x05, 0x00, 0x00, 0x00, 0x1E, // 5 -> 30 (duplicate)
    ];
    let (result, _end) = read_lookup_switch(&data, 4).unwrap();
    if let Instruction::Lookupswitch { default_offset, matches } = result {
        assert_eq!(default_offset, 0);
        assert_eq!(matches.len(), 1);
        assert_eq!(matches.get(&5), Some(&30));
    } else {
        panic!("Expected Lookupswitch instruction");
    }
}

#[test]
fn test_table_switch_insufficient_data() {
    let data = vec![
        0xFF, 0xFF, 0xFF, 0xAA, 0x00, 0x00, 0x00, 0x10, // default = 16
        0x00, 0x00, 0x00, 0x01, // low = 1
        0x00, 0x00, 0x00, 0x03, // high = 3 (expects 3 offsets)
        0x00, 0x00, 0x00, 0x20, // offset[0] = 32, the rest missing
    ];
    let result = read_table_switch(&data, 4);
    assert!(result.is_err(), "Should fail with insufficient data");
}

#[test]
fn test_lookup_switch_insufficient_data() {
    let data = vec![
        0xFF, 0xFF, 0xFF, 0xAB, 0x00, 0x00, 0x00, 0x00, // default = 0
        0x00, 0x00, 0x00, 0x02, // npairs = 2
        0x00, 0x00, 0x00, 0x05, // match = 5, the rest missing
    ];
    let result = read_lookup_switch(&data, 4);
    assert!(result.is_err(), "Should fail with insufficient data");
}

#[test]
fn test_padding_calculation() {
    // The padding formula: the read after an opcode at `pos` starts at the
    // next 4-byte boundary.
    assert_eq!((4 - ((0 + 1) % 4)) % 4, 3);
    assert_eq!((4 - ((1 + 1) % 4)) % 4, 2);
    assert_eq!((4 - ((2 + 1) % 4)) % 4, 1);
    assert_eq!((4 - ((3 + 1) % 4)) % 4, 0);
    assert_eq!((4 - ((4 + 1) % 4)) % 4, 3);
}

#[test]
fn table_switch_aligns_regardless_of_offset() {
    // The same tableswitch decodes identically whether the opcode sits at
    // code offset 0 or 4: padding depends only on the offset modulo 4.
    let operands = [
        0x00u8, 0x00, 0x00, 0x00, // default = 0
        0x00, 0x00, 0x00, 0x05, // low = 5
        0x00, 0x00, 0x00, 0x07, // high = 7
        0x00, 0x00, 0x00, 0x15, // 21
        0x00, 0x00, 0x00, 0x25, // 37
        0x00, 0x00, 0x00, 0x35, // 53
    ];
    let mut at0 = vec![0xAA, 0x00, 0x00, 0x00];
    at0.extend_from_slice(&operands);
    let mut at4 = vec![0x00, 0x01, 0x02, 0x00, 0xAA, 0x00, 0x00, 0x00];
    at4.extend_from_slice(&operands);
    let (i0, _) = read_instruction(&at0, 0).unwrap();
    let (i4, _) = read_instruction(&at4, 4).unwrap();
    for i in [i0, i4] {
        if let Instruction::Tableswitch { default, low, high, offsets } = i {
            assert_eq!(default, 0);
            assert_eq!(low, 5);
            assert_eq!(high, 7);
            assert_eq!(offsets, vec![21, 37, 53]);
        } else {
            panic!("Expected Tableswitch instruction");
        }
    }
}

#[test]
fn unknown_opcode_reports_and_continues() {
    // 0xFE is not in the instruction set: it decodes to Unknown with the
    // exact message, and the following byte decodes as a new instruction.
    let code = vec![0xFEu8, 0x00];
    let instructions = parse_instructions(&code);
    assert_eq!(instructions.len(), 2);
    if let Instruction::Unknown { error } = &instructions[0] {
        assert_eq!(error, "Invalid opcode: 254");
    } else {
        panic!("Expected Unknown instruction");
    }
    assert!(matches!(instructions[1], Instruction::Nop));
}

#[test]
fn canonical_variants_decode_with_immediates() {
    // iconst_m1, aload_2, iload with an operand, bipush.
    let code = vec![0x02u8, 0x2C, 0x15, 0x07, 0x10, 0xFB];
    let instructions = parse_instructions(&code);
    assert_eq!(instructions.len(), 4);
    assert!(matches!(instructions[0], Instruction::Iconst { value: -1 }));
    assert!(matches!(instructions[1], Instruction::Aload { index: 2 }));
    assert!(matches!(instructions[2], Instruction::Iload { index: 7 }));
    assert!(matches!(instructions[3], Instruction::Bipush { byte: -5 }));
}

#[test]
fn wide_instructions_decode() {
    // wide iinc with a 16-bit index and constant.
    let data = vec![0xC4u8, 0x84, 0x01, 0x00, 0xFF, 0x38];
    let (instr, end) = read_wide_instruction(&data, 1);
    assert_eq!(end, 6);
    if let Instruction::Wide(w) = instr {
        assert_eq!(*w, WideInstruction::Iinc { index: 256, const_value: -200 });
    } else {
        panic!("Expected Wide instruction");
    }
    // wide aload with a 16-bit index.
    let data2 = vec![0xC4u8, 0x19, 0x01, 0x02];
    let (instr2, end2) = read_wide_instruction(&data2, 1);
    assert_eq!(end2, 4);
    if let Instruction::Wide(w) = instr2 {
        assert_eq!(*w, WideInstruction::Aload { index: 258 });
    } else {
        panic!("Expected Wide instruction");
    }
    // wide on an opcode that cannot be widened.
    let data3 = vec![0xC4u8, 0x00];
    let (instr3, end3) = read_wide_instruction(&data3, 1);
    assert_eq!(end3, 2);
    if let Instruction::Unknown { error } = instr3 {
        assert_eq!(error, "Invalid wide opcode: 0");
    } else {
        panic!("Expected Unknown instruction");
    }
}

#[test]
fn invokeinterface_and_goto_w() {
    let code = vec![
        0xB9u8, 0x00, 0x10, 0x02, // invokeinterface index 16 count 2
        0xC8, 0x00, 0x00, 0x01, 0x00, // goto_w offset 256
    ];
    let instructions = parse_instructions(&code);
    assert_eq!(instructions.len(), 2);
    assert!(matches!(instructions[0], Instruction::Invokeinterface { index: 16, count: 2 }));
    assert!(matches!(instructions[1], Instruction::GotoW { offset: 256 }));
}
