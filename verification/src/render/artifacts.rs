//! Descriptions of the shader artifacts generated at build time for every backend.
use super::interface::Pipeline;
use core::marker::PhantomData;
use vstd::prelude::*;

verus! {

/// One binding of a generated shader interface.
#[derive(Clone, Copy)]
pub struct GeneratedBinding {
    pub binding: u32,
    pub visibility: u32,
    pub kind: GeneratedBindingKind,
}

/// What a generated binding holds.
#[derive(Clone, Copy)]
pub enum GeneratedBindingKind {
    Uniform(u64),
    StorageRead(u64),
    Texture2dFloat,
    FilteringSampler,
    /// Downlevel only: the `rgba32uint` scene-data texture.
    DataTexture,
    /// Downlevel only: the per-draw batch base uniform, bound with a dynamic offset.
    RangeUniform,
}

/// D3D11 bytecode generated from HLSL at build time; both stages travel together.
#[derive(Clone, Copy)]
pub struct Dx11Bytecode {
    pub vertex: &'static [u8],
    pub fragment: &'static [u8],
    /// Present for every pipeline whose vertex shader reads `instance_index`: Direct3D 11
    /// does not add the start instance to `SV_InstanceID`, so the renderer uploads
    /// `Dx11DrawConstants` to this register before every draw.
    pub draw_constants: Option<Dx11DrawConstantsBinding>,
}

/// Where an instanced pipeline expects its `Dx11DrawConstants`.
#[derive(Clone, Copy, Debug, PartialEq, Eq, Structural)]
pub struct Dx11DrawConstantsBinding {
    /// Constant-buffer register (`b<register>`), bound to the vertex stage.
    pub register: u32,
}

/// The per-draw constant buffer of Naga's HLSL backend, padded to the 16-byte granule.
#[derive(Clone, Copy, Debug, PartialEq, Eq, Structural)]
pub struct Dx11DrawConstants {
    /// Added to `SV_VertexID` to form `vertex_index`.
    pub first_vertex: i32,
    /// Added to `SV_InstanceID` to form `instance_index`.
    pub first_instance: i32,
    /// Unused by graphics pipelines; reserved for compute dispatch sizes.
    pub other: u32,
    pub padding: u32,
}

impl Dx11DrawConstants {
    /// Constants for a draw whose instances start at `first_instance` in the bound buffer.
    ///
    /// Instance bases are bounded by the D3D11 buffer limit, so they fit an `i32`.
    pub fn for_instances(first_instance: u32) -> (r: Self)
        requires
            first_instance <= i32::MAX,
        ensures
            r == (Dx11DrawConstants {
                first_vertex: 0,
                first_instance: first_instance as i32,
                other: 0,
                padding: 0,
            }),
    {
        Dx11DrawConstants {
            first_vertex: 0,
            first_instance: first_instance as i32,
            other: 0,
            padding: 0,
        }
    }
}

impl Default for Dx11DrawConstants {
    /// All zero.
    fn default() -> (r: Self)
        ensures
            r == (Dx11DrawConstants { first_vertex: 0, first_instance: 0, other: 0, padding: 0 }),
    {
        Dx11DrawConstants { first_vertex: 0, first_instance: 0, other: 0, padding: 0 }
    }
}

/// The D3D11 artifact state for this build host: bytecode exists only when the shaders
/// were compiled on Windows.
#[derive(Clone, Copy)]
pub enum Dx11Shader {
    Sm50(Dx11Bytecode),
    NativeWindowsBuildRequired,
}

/// One stage of a GLSL program generated from the downlevel shader dialect.
pub struct GlslShaderStage {
    pub source: &'static str,
}

/// Desktop core GLSL 3.30 profile marker; never constructed.
pub struct Glsl330 {
    unconstructible: (),
}

/// OpenGL ES 3.00 profile marker; never constructed.
pub struct Gles300 {
    unconstructible: (),
}

/// A pair of GLSL stages generated from validated WGSL for one profile.
pub struct GlslShader<Profile> {
    pub vertex: GlslShaderStage,
    pub fragment: GlslShaderStage,
    pub profile: PhantomData<Profile>,
}

impl<Profile> GlslShader<Profile> {
    /// The program made of `vertex` and `fragment`.
    pub fn new(vertex: GlslShaderStage, fragment: GlslShaderStage) -> (r: Self)
        ensures
            r.vertex == vertex,
            r.fragment == fragment,
    {
        GlslShader { vertex, fragment, profile: PhantomData }
    }
}

/// Every generated artifact of one pipeline.
pub struct NativeShader {
    pub label: &'static str,
    /// The shared pipeline description this shader was generated for.
    pub pipeline: &'static Pipeline,
    pub vertex_entry: &'static str,
    pub fragment_entry: &'static str,
    pub dx11: Dx11Shader,
    /// GLSL 3.30 core, using the data-texture downlevel transport.
    pub glsl_330: GlslShader<Glsl330>,
    /// GLSL ES 3.00, using the same downlevel transport.
    pub gles_300: GlslShader<Gles300>,
    pub msl: &'static str,
}

} // verus!
