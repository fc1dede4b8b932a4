use anotherps4::gpu::command_processor::CommandProcessor;
use anotherps4::gpu::pm4::{parse_pm4_header, Pm4Opcode, Pm4Type};

#[test]
fn test_parse_nop() {
    // Type 3, Opcode 0x10 (NOP), count=0
    let header: u32 = 0xC000_1000;
    let parsed = parse_pm4_header(header);
    assert_eq!(parsed.packet_type, Pm4Type::Type3);
    assert_eq!(parsed.opcode, Some(Pm4Opcode::Nop));
}

#[test]
fn pm4_header_fields() {
    let h = parse_pm4_header(0xC003_6900);
    assert_eq!(h.packet_type, Pm4Type::Type3);
    assert_eq!(h.count, 3);
    assert_eq!(h.opcode, Some(Pm4Opcode::SetContextReg));
    let t0 = parse_pm4_header(0x0001_2345);
    assert_eq!(t0.packet_type, Pm4Type::Type0);
    assert_eq!(t0.opcode, None);
    let t1 = parse_pm4_header(0x4000_0000);
    assert_eq!(t1.packet_type, Pm4Type::Type2);
    let t2 = parse_pm4_header(0x8000_0000);
    assert_eq!(t2.packet_type, Pm4Type::Type2);
    let unknown = parse_pm4_header(0xC000_FF00);
    assert_eq!(unknown.opcode, None);
}

#[test]
fn pm4_opcode_codes_round_trip() {
    for code in 0u32..256 {
        if let Some(op) = Pm4Opcode::from_u32(code) {
            assert_eq!(op.code(), code);
        }
    }
    assert_eq!(Pm4Opcode::from_u32(0x88), Some(Pm4Opcode::WaitOnDeCounterDiff));
    assert_eq!(Pm4Opcode::from_u32(0x14), None);
}

#[test]
fn command_processor_sets_index_registers() {
    let mut cp = CommandProcessor::new();
    let dcb = [
        0x8000_0000,             // type 2 filler
        0xC000_2F00, 4,          // NUM_INSTANCES 4
        0xC001_2600, 0x1000, 0x2, // INDEX_BASE 0x2_0000_1000
        0xC000_2A00, 1,          // INDEX_TYPE 1
        0xC000_1300, 99,         // INDEX_BUFFER_SIZE 99
        0xC000_FF00, 7,          // unknown opcode, skipped whole
        0xC001_6900, 0x10, 0x20, // SET_CONTEXT_REG (not decoded)
    ];
    cp.process_command_buffer(&dcb);
    assert_eq!(cp.submit_count, 1);
    assert_eq!(cp.regs.num_instances, 4);
    assert_eq!(cp.regs.index_base, 0x2_0000_1000);
    assert_eq!(cp.regs.index_type, 1);
    assert_eq!(cp.regs.index_size, 99);
}

#[test]
fn command_processor_truncated_packet() {
    let mut cp = CommandProcessor::default();
    // INDEX_BASE claims two words but the buffer ends after one: nothing is set.
    cp.process_command_buffer(&[0xC001_2600, 0x1234]);
    assert_eq!(cp.regs.index_base, 0);
    cp.process_command_buffer(&[]);
    assert_eq!(cp.submit_count, 2);
}
