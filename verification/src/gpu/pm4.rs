//! PM4 packets: the command protocol of the guest's GPU. A command buffer is a sequence of
//! packets, each a header word followed by its body.
use vstd::prelude::*;

verus! {

/// PM4 type-3 opcodes.
#[derive(Debug, Clone, Copy, PartialEq, Eq, Structural)]
pub enum Pm4Opcode {
    Nop,
    SetBase,
    ClearState,
    IndexBufferSize,
    DispatchDirect,
    DispatchIndirect,
    AtomicGds,
    OcclusionQuery,
    SetPredication,
    RegRmw,
    DrawIndirect,
    DrawIndexIndirect,
    IndexBase,
    DrawIndex2,
    ContextControl,
    IndexType,
    DrawIndexAuto,
    NumInstances,
    DrawIndexMultiAuto,
    IndirectBufferConst,
    DrawIndexOffset2,
    WriteData,
    MemSemaphore,
    WaitRegMem,
    IndirectBuffer,
    CopyData,
    PfpSyncMe,
    SurfaceSync,
    EventWrite,
    EventWriteEop,
    EventWriteEos,
    ReleaseMem,
    DmaData,
    AcquireMem,
    LoadShReg,
    LoadContextReg,
    SetConfigReg,
    SetContextReg,
    SetShReg,
    SetUconfigReg,
    LoadConstRam,
    WriteConstRam,
    DumpConstRam,
    IncrementCeCounter,
    IncrementDeCounter,
    WaitOnCeCounter,
    WaitOnDeCounterDiff,
}

/// The opcode number of each opcode.
pub open spec fn opcode_code(o: Pm4Opcode) -> u32 {
    match o {
        Pm4Opcode::Nop => 0x10u32,
        Pm4Opcode::SetBase => 0x11u32,
        Pm4Opcode::ClearState => 0x12u32,
        Pm4Opcode::IndexBufferSize => 0x13u32,
        Pm4Opcode::DispatchDirect => 0x15u32,
        Pm4Opcode::DispatchIndirect => 0x16u32,
        Pm4Opcode::AtomicGds => 0x1Du32,
        Pm4Opcode::OcclusionQuery => 0x1Fu32,
        Pm4Opcode::SetPredication => 0x20u32,
        Pm4Opcode::RegRmw => 0x21u32,
        Pm4Opcode::DrawIndirect => 0x24u32,
        Pm4Opcode::DrawIndexIndirect => 0x25u32,
        Pm4Opcode::IndexBase => 0x26u32,
        Pm4Opcode::DrawIndex2 => 0x27u32,
        Pm4Opcode::ContextControl => 0x28u32,
        Pm4Opcode::IndexType => 0x2Au32,
        Pm4Opcode::DrawIndexAuto => 0x2Du32,
        Pm4Opcode::NumInstances => 0x2Fu32,
        Pm4Opcode::DrawIndexMultiAuto => 0x30u32,
        Pm4Opcode::IndirectBufferConst => 0x33u32,
        Pm4Opcode::DrawIndexOffset2 => 0x35u32,
        Pm4Opcode::WriteData => 0x37u32,
        Pm4Opcode::MemSemaphore => 0x39u32,
        Pm4Opcode::WaitRegMem => 0x3Cu32,
        Pm4Opcode::IndirectBuffer => 0x3Fu32,
        Pm4Opcode::CopyData => 0x40u32,
        Pm4Opcode::PfpSyncMe => 0x42u32,
        Pm4Opcode::SurfaceSync => 0x43u32,
        Pm4Opcode::EventWrite => 0x46u32,
        Pm4Opcode::EventWriteEop => 0x47u32,
        Pm4Opcode::EventWriteEos => 0x48u32,
        Pm4Opcode::ReleaseMem => 0x49u32,
        Pm4Opcode::DmaData => 0x50u32,
        Pm4Opcode::AcquireMem => 0x58u32,
        Pm4Opcode::LoadShReg => 0x5Fu32,
        Pm4Opcode::LoadContextReg => 0x61u32,
        Pm4Opcode::SetConfigReg => 0x68u32,
        Pm4Opcode::SetContextReg => 0x69u32,
        Pm4Opcode::SetShReg => 0x76u32,
        Pm4Opcode::SetUconfigReg => 0x79u32,
        Pm4Opcode::LoadConstRam => 0x80u32,
        Pm4Opcode::WriteConstRam => 0x81u32,
        Pm4Opcode::DumpConstRam => 0x83u32,
        Pm4Opcode::IncrementCeCounter => 0x84u32,
        Pm4Opcode::IncrementDeCounter => 0x85u32,
        Pm4Opcode::WaitOnCeCounter => 0x86u32,
        Pm4Opcode::WaitOnDeCounterDiff => 0x88u32,
    }
}

/// The opcode with number `v`, if there is one.
pub open spec fn opcode_of(v: u32) -> Option<Pm4Opcode> {
    if v == 0x10 {
        Some(Pm4Opcode::Nop)
    } else if v == 0x11 {
        Some(Pm4Opcode::SetBase)
    } else if v == 0x12 {
        Some(Pm4Opcode::ClearState)
    } else if v == 0x13 {
        Some(Pm4Opcode::IndexBufferSize)
    } else if v == 0x15 {
        Some(Pm4Opcode::DispatchDirect)
    } else if v == 0x16 {
        Some(Pm4Opcode::DispatchIndirect)
    } else if v == 0x1D {
        Some(Pm4Opcode::AtomicGds)
    } else if v == 0x1F {
        Some(Pm4Opcode::OcclusionQuery)
    } else if v == 0x20 {
        Some(Pm4Opcode::SetPredication)
    } else if v == 0x21 {
        Some(Pm4Opcode::RegRmw)
    } else if v == 0x24 {
        Some(Pm4Opcode::DrawIndirect)
    } else if v == 0x25 {
        Some(Pm4Opcode::DrawIndexIndirect)
    } else if v == 0x26 {
        Some(Pm4Opcode::IndexBase)
    } else if v == 0x27 {
        Some(Pm4Opcode::DrawIndex2)
    } else if v == 0x28 {
        Some(Pm4Opcode::ContextControl)
    } else if v == 0x2A {
        Some(Pm4Opcode::IndexType)
    } else if v == 0x2D {
        Some(Pm4Opcode::DrawIndexAuto)
    } else if v == 0x2F {
        Some(Pm4Opcode::NumInstances)
    } else if v == 0x30 {
        Some(Pm4Opcode::DrawIndexMultiAuto)
    } else if v == 0x33 {
        Some(Pm4Opcode::IndirectBufferConst)
    } else if v == 0x35 {
        Some(Pm4Opcode::DrawIndexOffset2)
    } else if v == 0x37 {
        Some(Pm4Opcode::WriteData)
    } else if v == 0x39 {
        Some(Pm4Opcode::MemSemaphore)
    } else if v == 0x3C {
        Some(Pm4Opcode::WaitRegMem)
    } else if v == 0x3F {
        Some(Pm4Opcode::IndirectBuffer)
    } else if v == 0x40 {
        Some(Pm4Opcode::CopyData)
    } else if v == 0x42 {
        Some(Pm4Opcode::PfpSyncMe)
    } else if v == 0x43 {
        Some(Pm4Opcode::SurfaceSync)
    } else if v == 0x46 {
        Some(Pm4Opcode::EventWrite)
    } else if v == 0x47 {
        Some(Pm4Opcode::EventWriteEop)
    } else if v == 0x48 {
        Some(Pm4Opcode::EventWriteEos)
    } else if v == 0x49 {
        Some(Pm4Opcode::ReleaseMem)
    } else if v == 0x50 {
        Some(Pm4Opcode::DmaData)
    } else if v == 0x58 {
        Some(Pm4Opcode::AcquireMem)
    } else if v == 0x5F {
        Some(Pm4Opcode::LoadShReg)
    } else if v == 0x61 {
        Some(Pm4Opcode::LoadContextReg)
    } else if v == 0x68 {
        Some(Pm4Opcode::SetConfigReg)
    } else if v == 0x69 {
        Some(Pm4Opcode::SetContextReg)
    } else if v == 0x76 {
        Some(Pm4Opcode::SetShReg)
    } else if v == 0x79 {
        Some(Pm4Opcode::SetUconfigReg)
    } else if v == 0x80 {
        Some(Pm4Opcode::LoadConstRam)
    } else if v == 0x81 {
        Some(Pm4Opcode::WriteConstRam)
    } else if v == 0x83 {
        Some(Pm4Opcode::DumpConstRam)
    } else if v == 0x84 {
        Some(Pm4Opcode::IncrementCeCounter)
    } else if v == 0x85 {
        Some(Pm4Opcode::IncrementDeCounter)
    } else if v == 0x86 {
        Some(Pm4Opcode::WaitOnCeCounter)
    } else if v == 0x88 {
        Some(Pm4Opcode::WaitOnDeCounterDiff)
    } else {
        None
    }
}

impl Pm4Opcode {
    /// The opcode with number `value`, if there is one.
    pub fn from_u32(value: u32) -> (r: Option<Self>)
        ensures
            r == opcode_of(value),
    {
        let v = value;
    if v == 0x10 {
        Some(Pm4Opcode::Nop)
    } else if v == 0x11 {
        Some(Pm4Opcode::SetBase)
    } else if v == 0x12 {
        Some(Pm4Opcode::ClearState)
    } else if v == 0x13 {
        Some(Pm4Opcode::IndexBufferSize)
    } else if v == 0x15 {
        Some(Pm4Opcode::DispatchDirect)
    } else if v == 0x16 {
        Some(Pm4Opcode::DispatchIndirect)
    } else if v == 0x1D {
        Some(Pm4Opcode::AtomicGds)
    } else if v == 0x1F {
        Some(Pm4Opcode::OcclusionQuery)
    } else if v == 0x20 {
        Some(Pm4Opcode::SetPredication)
    } else if v == 0x21 {
        Some(Pm4Opcode::RegRmw)
    } else if v == 0x24 {
        Some(Pm4Opcode::DrawIndirect)
    } else if v == 0x25 {
        Some(Pm4Opcode::DrawIndexIndirect)
    } else if v == 0x26 {
        Some(Pm4Opcode::IndexBase)
    } else if v == 0x27 {
        Some(Pm4Opcode::DrawIndex2)
    } else if v == 0x28 {
        Some(Pm4Opcode::ContextControl)
    } else if v == 0x2A {
        Some(Pm4Opcode::IndexType)
    } else if v == 0x2D {
        Some(Pm4Opcode::DrawIndexAuto)
    } else if v == 0x2F {
        Some(Pm4Opcode::NumInstances)
    } else if v == 0x30 {
        Some(Pm4Opcode::DrawIndexMultiAuto)
    } else if v == 0x33 {
        Some(Pm4Opcode::IndirectBufferConst)
    } else if v == 0x35 {
        Some(Pm4Opcode::DrawIndexOffset2)
    } else if v == 0x37 {
        Some(Pm4Opcode::WriteData)
    } else if v == 0x39 {
        Some(Pm4Opcode::MemSemaphore)
    } else if v == 0x3C {
        Some(Pm4Opcode::WaitRegMem)
    } else if v == 0x3F {
        Some(Pm4Opcode::IndirectBuffer)
    } else if v == 0x40 {
        Some(Pm4Opcode::CopyData)
    } else if v == 0x42 {
        Some(Pm4Opcode::PfpSyncMe)
    } else if v == 0x43 {
        Some(Pm4Opcode::SurfaceSync)
    } else if v == 0x46 {
        Some(Pm4Opcode::EventWrite)
    } else if v == 0x47 {
        Some(Pm4Opcode::EventWriteEop)
    } else if v == 0x48 {
        Some(Pm4Opcode::EventWriteEos)
    } else if v == 0x49 {
        Some(Pm4Opcode::ReleaseMem)
    } else if v == 0x50 {
        Some(Pm4Opcode::DmaData)
    } else if v == 0x58 {
        Some(Pm4Opcode::AcquireMem)
    } else if v == 0x5F {
        Some(Pm4Opcode::LoadShReg)
    } else if v == 0x61 {
        Some(Pm4Opcode::LoadContextReg)
    } else if v == 0x68 {
        Some(Pm4Opcode::SetConfigReg)
    } else if v == 0x69 {
        Some(Pm4Opcode::SetContextReg)
    } else if v == 0x76 {
        Some(Pm4Opcode::SetShReg)
    } else if v == 0x79 {
        Some(Pm4Opcode::SetUconfigReg)
    } else if v == 0x80 {
        Some(Pm4Opcode::LoadConstRam)
    } else if v == 0x81 {
        Some(Pm4Opcode::WriteConstRam)
    } else if v == 0x83 {
        Some(Pm4Opcode::DumpConstRam)
    } else if v == 0x84 {
        Some(Pm4Opcode::IncrementCeCounter)
    } else if v == 0x85 {
        Some(Pm4Opcode::IncrementDeCounter)
    } else if v == 0x86 {
        Some(Pm4Opcode::WaitOnCeCounter)
    } else if v == 0x88 {
        Some(Pm4Opcode::WaitOnDeCounterDiff)
        } else {
            None
        }
    }

    /// The opcode's number.
    pub fn code(self) -> (r: u32)
        ensures
            r == opcode_code(self),
    {
        match self {
            Pm4Opcode::Nop => 0x10u32,
            Pm4Opcode::SetBase => 0x11u32,
            Pm4Opcode::ClearState => 0x12u32,
            Pm4Opcode::IndexBufferSize => 0x13u32,
            Pm4Opcode::DispatchDirect => 0x15u32,
            Pm4Opcode::DispatchIndirect => 0x16u32,
            Pm4Opcode::AtomicGds => 0x1Du32,
            Pm4Opcode::OcclusionQuery => 0x1Fu32,
            Pm4Opcode::SetPredication => 0x20u32,
            Pm4Opcode::RegRmw => 0x21u32,
            Pm4Opcode::DrawIndirect => 0x24u32,
            Pm4Opcode::DrawIndexIndirect => 0x25u32,
            Pm4Opcode::IndexBase => 0x26u32,
            Pm4Opcode::DrawIndex2 => 0x27u32,
            Pm4Opcode::ContextControl => 0x28u32,
            Pm4Opcode::IndexType => 0x2Au32,
            Pm4Opcode::DrawIndexAuto => 0x2Du32,
            Pm4Opcode::NumInstances => 0x2Fu32,
            Pm4Opcode::DrawIndexMultiAuto => 0x30u32,
            Pm4Opcode::IndirectBufferConst => 0x33u32,
            Pm4Opcode::DrawIndexOffset2 => 0x35u32,
            Pm4Opcode::WriteData => 0x37u32,
            Pm4Opcode::MemSemaphore => 0x39u32,
            Pm4Opcode::WaitRegMem => 0x3Cu32,
            Pm4Opcode::IndirectBuffer => 0x3Fu32,
            Pm4Opcode::CopyData => 0x40u32,
            Pm4Opcode::PfpSyncMe => 0x42u32,
            Pm4Opcode::SurfaceSync => 0x43u32,
            Pm4Opcode::EventWrite => 0x46u32,
            Pm4Opcode::EventWriteEop => 0x47u32,
            Pm4Opcode::EventWriteEos => 0x48u32,
            Pm4Opcode::ReleaseMem => 0x49u32,
            Pm4Opcode::DmaData => 0x50u32,
            Pm4Opcode::AcquireMem => 0x58u32,
            Pm4Opcode::LoadShReg => 0x5Fu32,
            Pm4Opcode::LoadContextReg => 0x61u32,
            Pm4Opcode::SetConfigReg => 0x68u32,
            Pm4Opcode::SetContextReg => 0x69u32,
            Pm4Opcode::SetShReg => 0x76u32,
            Pm4Opcode::SetUconfigReg => 0x79u32,
            Pm4Opcode::LoadConstRam => 0x80u32,
            Pm4Opcode::WriteConstRam => 0x81u32,
            Pm4Opcode::DumpConstRam => 0x83u32,
            Pm4Opcode::IncrementCeCounter => 0x84u32,
            Pm4Opcode::IncrementDeCounter => 0x85u32,
            Pm4Opcode::WaitOnCeCounter => 0x86u32,
            Pm4Opcode::WaitOnDeCounterDiff => 0x88u32,
        }
    }
}

/// An opcode's number names it.
pub proof fn law_opcode_round_trip(o: Pm4Opcode)
    ensures
        opcode_of(opcode_code(o)) == Some(o),
{
}

/// PM4 packet header type.
#[derive(Debug, Clone, Copy, PartialEq, Eq, Structural)]
pub enum Pm4Type {
    /// Type 0: register writes.
    Type0,
    /// Type 2: NOP filler.
    Type2,
    /// Type 3: IT (indirect transfer) commands.
    Type3,
}

/// A parsed PM4 packet header.
#[derive(Debug, Clone, Copy, PartialEq, Eq, Structural)]
pub struct Pm4Header {
    pub packet_type: Pm4Type,
    pub count: u16,
    pub opcode: Option<Pm4Opcode>,
}

/// The packet type of a header: bits 30-31 (type 1 is treated as filler).
pub open spec fn type_of(header: u32) -> Pm4Type {
    let t = (header >> 30u32) & 3;
    if t == 0 {
        Pm4Type::Type0
    } else if t == 3 {
        Pm4Type::Type3
    } else {
        Pm4Type::Type2
    }
}

/// What a header word says: its type (bits 30-31), body count (bits 16-29) and, for a type-3
/// packet, its opcode (bits 8-15).
pub open spec fn header_of(header: u32) -> Pm4Header {
    Pm4Header {
        packet_type: type_of(header),
        count: ((header >> 16u32) & 0x3FFF) as u16,
        opcode: if type_of(header) == Pm4Type::Type3 {
            opcode_of((header >> 8u32) & 0xFF)
        } else {
            None
        },
    }
}

/// Parse a PM4 header word.
pub fn parse_pm4_header(header: u32) -> (r: Pm4Header)
    ensures
        r == header_of(header),
{
    let t = (header >> 30) & 0x3;
    let packet_type = if t == 0 {
        Pm4Type::Type0
    } else if t == 3 {
        Pm4Type::Type3
    } else {
        Pm4Type::Type2
    };
    let c = (header >> 16) & 0x3FFF;
    assert(c <= 0x3FFF) by (bit_vector)
        requires
            c == (header >> 16u32) & 0x3FFF,
    ;
    let count = c as u16;
    let opcode = if t == 3 {
        Pm4Opcode::from_u32((header >> 8) & 0xFF)
    } else {
        None
    };
    Pm4Header { packet_type, count, opcode }
}

} // verus!
