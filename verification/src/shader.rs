//! Shader descriptions.
//!
//! Compiling and linking the program, and setting its uniforms, belong to
//! the graphics layer; the library holds the shader's source paths and
//! the driver-side program id the graphics layer reports back.

use vstd::prelude::*;

verus! {

/// A shader program: its two source paths and the linked program's id.
pub struct Shader {
    pub vertex_path: String,
    pub fragment_path: String,
    pub program: u32,
}

impl Shader {
    pub fn new(vertex_path: String, fragment_path: String, program: u32) -> (r: Self)
        ensures
            r.vertex_path == vertex_path,
            r.fragment_path == fragment_path,
            r.program == program,
    {
        Shader { vertex_path, fragment_path, program }
    }
}

} // verus!
