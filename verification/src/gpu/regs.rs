//! GPU register state set by PM4 commands (render targets, shaders, viewport, index buffer).
//! Floating-point registers are held as their IEEE-754 bit patterns.
use vstd::prelude::*;

verus! {

/// The complete GPU register state.
#[derive(Debug)]
pub struct GpuRegs {
    /// Context registers (0xA000 - 0xAFFF range).
    pub context: ContextRegs,
    /// Shader registers (0x2C00 - 0x2FFF range).
    pub shader: ShaderRegs,
    /// Number of instances for instanced rendering.
    pub num_instances: u32,
    /// Index buffer base address.
    pub index_base: u64,
    /// Index buffer size.
    pub index_size: u32,
    /// Index type (16-bit or 32-bit).
    pub index_type: u32,
}

/// Context registers (render state).
#[derive(Debug)]
pub struct ContextRegs {
    /// Color buffer 0-7 base addresses.
    pub cb_color_base: [u32; 8],
    /// Color buffer 0-7 sizes.
    pub cb_color_size: [u32; 8],
    /// Color buffer 0-7 info.
    pub cb_color_info: [u32; 8],
    /// Depth buffer Z info.
    pub db_z_info: u32,
    /// Depth buffer stencil info.
    pub db_stencil_info: u32,
    /// Viewport scale X (bit pattern).
    pub pa_cl_vport_xscale: u32,
    /// Viewport scale Y (bit pattern).
    pub pa_cl_vport_yscale: u32,
    /// Viewport scale Z (bit pattern).
    pub pa_cl_vport_zscale: u32,
    /// Viewport offset X (bit pattern).
    pub pa_cl_vport_xoffset: u32,
    /// Viewport offset Y (bit pattern).
    pub pa_cl_vport_yoffset: u32,
    /// Viewport offset Z (bit pattern).
    pub pa_cl_vport_zoffset: u32,
    /// Scissor top-left.
    pub pa_sc_screen_scissor_tl: u32,
    /// Scissor bottom-right.
    pub pa_sc_screen_scissor_br: u32,
}

/// Shader program registers.
#[derive(Debug)]
pub struct ShaderRegs {
    /// Vertex shader program address.
    pub vs_program_addr: u64,
    /// Pixel shader program address.
    pub ps_program_addr: u64,
    /// Compute shader program address.
    pub cs_program_addr: u64,
    /// Geometry shader program address.
    pub gs_program_addr: u64,
    /// Hull shader program address.
    pub hs_program_addr: u64,
    /// VS user data registers (16 slots).
    pub vs_user_data: [u32; 16],
    /// PS user data registers (16 slots).
    pub ps_user_data: [u32; 16],
    /// CS user data registers (16 slots).
    pub cs_user_data: [u32; 16],
}

/// Every context register is zero.
pub open spec fn context_cleared(r: ContextRegs) -> bool {
    &&& r.db_z_info == 0 && r.db_stencil_info == 0
    &&& forall|i: int| 0 <= i < 8 ==> r.cb_color_base[i] == 0 && r.cb_color_size[i] == 0
        && r.cb_color_info[i] == 0
    &&& r.pa_cl_vport_xscale == 0 && r.pa_cl_vport_yscale == 0 && r.pa_cl_vport_zscale == 0
    &&& r.pa_cl_vport_xoffset == 0 && r.pa_cl_vport_yoffset == 0 && r.pa_cl_vport_zoffset == 0
    &&& r.pa_sc_screen_scissor_tl == 0 && r.pa_sc_screen_scissor_br == 0
}

/// Every shader register is zero.
pub open spec fn shader_cleared(r: ShaderRegs) -> bool {
    &&& r.vs_program_addr == 0 && r.ps_program_addr == 0 && r.cs_program_addr == 0
    &&& r.gs_program_addr == 0 && r.hs_program_addr == 0
    &&& forall|i: int| 0 <= i < 16 ==> r.vs_user_data[i] == 0 && r.ps_user_data[i] == 0
        && r.cs_user_data[i] == 0
}

/// Every register of the GPU state is zero.
pub open spec fn regs_cleared(r: GpuRegs) -> bool {
    &&& context_cleared(r.context)
    &&& shader_cleared(r.shader)
    &&& r.num_instances == 0 && r.index_base == 0 && r.index_size == 0 && r.index_type == 0
}

impl Default for ContextRegs {
    fn default() -> (r: Self)
        ensures
            context_cleared(r),
    {
        ContextRegs {
            cb_color_base: [0; 8],
            cb_color_size: [0; 8],
            cb_color_info: [0; 8],
            db_z_info: 0,
            db_stencil_info: 0,
            pa_cl_vport_xscale: 0,
            pa_cl_vport_yscale: 0,
            pa_cl_vport_zscale: 0,
            pa_cl_vport_xoffset: 0,
            pa_cl_vport_yoffset: 0,
            pa_cl_vport_zoffset: 0,
            pa_sc_screen_scissor_tl: 0,
            pa_sc_screen_scissor_br: 0,
        }
    }
}

impl Default for ShaderRegs {
    fn default() -> (r: Self)
        ensures
            shader_cleared(r),
    {
        ShaderRegs {
            vs_program_addr: 0,
            ps_program_addr: 0,
            cs_program_addr: 0,
            gs_program_addr: 0,
            hs_program_addr: 0,
            vs_user_data: [0; 16],
            ps_user_data: [0; 16],
            cs_user_data: [0; 16],
        }
    }
}

impl Default for GpuRegs {
    fn default() -> (r: Self)
        ensures
            regs_cleared(r),
    {
        GpuRegs {
            context: ContextRegs::default(),
            shader: ShaderRegs::default(),
            num_instances: 0,
            index_base: 0,
            index_size: 0,
            index_type: 0,
        }
    }
}

impl GpuRegs {
    /// Write a context register. Context registers are not decoded yet: the state is unchanged.
    pub fn write_context_reg(&mut self, offset: u32, value: u32)
        ensures
            *final(self) == *old(self),
    {
    }

    /// Write a shader register. Not decoded yet: the state is unchanged.
    pub fn write_sh_reg(&mut self, offset: u32, value: u32)
        ensures
            *final(self) == *old(self),
    {
    }

    /// Write a config register. Not decoded yet: the state is unchanged.
    pub fn write_config_reg(&mut self, offset: u32, value: u32)
        ensures
            *final(self) == *old(self),
    {
    }

    /// Write a uconfig register. Not decoded yet: the state is unchanged.
    pub fn write_uconfig_reg(&mut self, offset: u32, value: u32)
        ensures
            *final(self) == *old(self),
    {
    }
}

} // verus!
