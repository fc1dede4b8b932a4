//! The GPU command processor: walks PM4 command buffers packet by packet and applies each
//! type-3 packet to the register state.
use vstd::prelude::*;
use crate::gpu::pm4::{Pm4Opcode, Pm4Type, header_of, parse_pm4_header};
use crate::gpu::regs::{GpuRegs, regs_cleared};

verus! {

/// The registers that packets set, as values: number of instances, index buffer base, index
/// buffer size and index type.
pub type IndexState = (u32, u64, u32, u32);

/// The index-buffer registers of a register state.
pub open spec fn index_state(r: GpuRegs) -> IndexState {
    (r.num_instances, r.index_base, r.index_size, r.index_type)
}

/// What a type-3 packet does to the index-buffer registers: `NUM_INSTANCES`, `INDEX_TYPE` and
/// `INDEX_BUFFER_SIZE` set theirs from the first body word, `INDEX_BASE` its base from the
/// first two (low word first); a body too short changes nothing, and other packets change
/// none of them.
pub open spec fn apply_packet(s: IndexState, op: Pm4Opcode, body: Seq<u32>) -> IndexState {
    match op {
        Pm4Opcode::NumInstances => if body.len() >= 1 {
            (body[0], s.1, s.2, s.3)
        } else {
            s
        },
        Pm4Opcode::IndexBase => if body.len() >= 2 {
            (s.0, (body[0] as u64) | ((body[1] as u64) << 32u64), s.2, s.3)
        } else {
            s
        },
        Pm4Opcode::IndexBufferSize => if body.len() >= 1 {
            (s.0, s.1, body[0], s.3)
        } else {
            s
        },
        Pm4Opcode::IndexType => if body.len() >= 1 {
            (s.0, s.1, s.2, body[0])
        } else {
            s
        },
        _ => s,
    }
}

/// Where the type-3 packet at `off` ends: past its header and `count + 1` body words, or at the
/// end of the buffer.
pub open spec fn packet_end(dcb: Seq<u32>, off: int) -> int {
    let want = off + 1 + header_of(dcb[off]).count + 1;
    if want < dcb.len() {
        want
    } else {
        dcb.len() as int
    }
}

/// The index-buffer registers after walking the buffer from `off`: a type-3 packet is applied
/// (when its opcode is known) and skipped whole; any other header word is skipped alone.
pub open spec fn walk(dcb: Seq<u32>, off: int, s: IndexState) -> IndexState
    decreases dcb.len() - off,
{
    if off < 0 || off >= dcb.len() {
        s
    } else {
        let h = header_of(dcb[off]);
        if h.packet_type == Pm4Type::Type3 {
            let end = packet_end(dcb, off);
            let s2 = match h.opcode {
                Some(op) => apply_packet(s, op, dcb.subrange(off + 1, end)),
                None => s,
            };
            walk(dcb, end, s2)
        } else {
            walk(dcb, off + 1, s)
        }
    }
}

/// The GPU command processor state.
#[derive(Debug)]
pub struct CommandProcessor {
    /// GPU register state.
    pub regs: GpuRegs,
    /// Number of processed command buffers.
    pub submit_count: u64,
}

impl CommandProcessor {
    pub fn new() -> (r: Self)
        ensures
            r.submit_count == 0,
            regs_cleared(r.regs),
            index_state(r.regs) == (0u32, 0u64, 0u32, 0u32),
    {
        CommandProcessor { regs: GpuRegs::default(), submit_count: 0 }
    }

    /// Processes a command buffer (a draw command buffer): applies its type-3 packets in order
    /// and counts the buffer.
    pub fn process_command_buffer(&mut self, dcb: &[u32])
        requires
            old(self).submit_count < u64::MAX,
        ensures
            final(self).submit_count == old(self).submit_count + 1,
            index_state(final(self).regs) == walk(dcb@, 0, index_state(old(self).regs)),
            final(self).regs.context == old(self).regs.context,
            final(self).regs.shader == old(self).regs.shader,
    {
        let mut offset: usize = 0;
        while offset < dcb.len()
            invariant
                offset <= dcb@.len(),
                self.submit_count == old(self).submit_count,
                self.submit_count < u64::MAX,
                self.regs.context == old(self).regs.context,
                self.regs.shader == old(self).regs.shader,
                walk(dcb@, offset as int, index_state(self.regs)) == walk(
                    dcb@,
                    0,
                    index_state(old(self).regs),
                ),
            decreases dcb.len() - offset,
        {
            let header_word = dcb[offset];
            let header = parse_pm4_header(header_word);
            match header.packet_type {
                Pm4Type::Type3 => {
                    let body_dwords = header.count as usize + 1;
                    let end = if body_dwords < dcb.len() - offset - 1 {
                        offset + 1 + body_dwords
                    } else {
                        dcb.len()
                    };
                    let body = &dcb[offset + 1..end];
                    match header.opcode {
                        Some(opcode) => {
                            self.process_type3_packet(opcode, body);
                        },
                        None => {},
                    }
                    offset = end;
                },
                _ => {
                    offset = offset + 1;
                },
            }
        }
        self.submit_count = self.submit_count + 1;
    }

    /// Applies a type-3 packet with its body to the register state.
    pub fn process_type3_packet(&mut self, opcode: Pm4Opcode, body: &[u32])
        ensures
            index_state(final(self).regs) == apply_packet(
                index_state(old(self).regs),
                opcode,
                body@,
            ),
            final(self).regs.context == old(self).regs.context,
            final(self).regs.shader == old(self).regs.shader,
            final(self).submit_count == old(self).submit_count,
    {
        match opcode {
            Pm4Opcode::SetContextReg => {
                if body.len() >= 2 {
                    let reg_offset = body[0];
                    let mut i: usize = 1;
                    while i < body.len()
                        invariant
                            1 <= i <= body@.len(),
                            self.regs == old(self).regs,
                            self.submit_count == old(self).submit_count,
                        decreases body.len() - i,
                    {
                        self.regs.write_context_reg(reg_offset.wrapping_add((i - 1) as u32), body[i]);
                        i = i + 1;
                    }
                }
            },
            Pm4Opcode::SetShReg => {
                if body.len() >= 2 {
                    let reg_offset = body[0];
                    let mut i: usize = 1;
                    while i < body.len()
                        invariant
                            1 <= i <= body@.len(),
                            self.regs == old(self).regs,
                            self.submit_count == old(self).submit_count,
                        decreases body.len() - i,
                    {
                        self.regs.write_sh_reg(reg_offset.wrapping_add((i - 1) as u32), body[i]);
                        i = i + 1;
                    }
                }
            },
            Pm4Opcode::SetConfigReg => {
                if body.len() >= 2 {
                    let reg_offset = body[0];
                    let mut i: usize = 1;
                    while i < body.len()
                        invariant
                            1 <= i <= body@.len(),
                            self.regs == old(self).regs,
                            self.submit_count == old(self).submit_count,
                        decreases body.len() - i,
                    {
                        self.regs.write_config_reg(reg_offset.wrapping_add((i - 1) as u32), body[i]);
                        i = i + 1;
                    }
                }
            },
            Pm4Opcode::SetUconfigReg => {
                if body.len() >= 2 {
                    let reg_offset = body[0];
                    let mut i: usize = 1;
                    while i < body.len()
                        invariant
                            1 <= i <= body@.len(),
                            self.regs == old(self).regs,
                            self.submit_count == old(self).submit_count,
                        decreases body.len() - i,
                    {
                        self.regs.write_uconfig_reg(reg_offset.wrapping_add((i - 1) as u32), body[i]);
                        i = i + 1;
                    }
                }
            },
            Pm4Opcode::NumInstances => {
                if body.len() >= 1 {
                    self.regs.num_instances = body[0];
                }
            },
            Pm4Opcode::IndexBase => {
                if body.len() >= 2 {
                    self.regs.index_base = (body[0] as u64) | ((body[1] as u64) << 32);
                }
            },
            Pm4Opcode::IndexType => {
                if body.len() >= 1 {
                    self.regs.index_type = body[0];
                }
            },
            Pm4Opcode::IndexBufferSize => {
                if body.len() >= 1 {
                    self.regs.index_size = body[0];
                }
            },
            _ => {},
        }
    }
}

impl Default for CommandProcessor {
    fn default() -> (r: Self)
        ensures
            r.submit_count == 0,
            regs_cleared(r.regs),
            index_state(r.regs) == (0u32, 0u64, 0u32, 0u32),
    {
        Self::new()
    }
}

} // verus!
