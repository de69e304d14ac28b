//! What the compute pass that rebuilds vertex attributes binds: the buffers
//! of a model, each under a fixed number, and a small block of push
//! constants.

use vstd::prelude::*;

verus! {

/// How a pass reaches a buffer.
#[derive(Clone, Copy, Debug, Eq, Hash, PartialEq, Structural)]
pub enum Access {
    ReadOnly,
    ReadWrite,
}

/// The four buffers of the pass.
#[derive(Clone, Copy, Debug, Eq, Hash, PartialEq, Structural)]
pub enum CalcVertexAttrsBuffer {
    /// The index buffer of the model.
    Indices,
    /// The vertex buffer of the model.
    Source,
    /// The vertex buffer that the pass fills.
    Destination,
    /// The write mask of the model.
    WriteMask,
}

/// The number of buffers that the pass binds.
pub const CALC_VERTEX_ATTRS_BINDINGS: usize = 4;

/// The bytes of push constants that the pass takes: two 32-bit counts.
pub const CALC_VERTEX_ATTRS_PUSH_CONSTS: u32 = 8;

impl CalcVertexAttrsBuffer {
    /// The number under which the buffer is bound.
    pub open spec fn spec_binding(self) -> u32 {
        match self {
            CalcVertexAttrsBuffer::Indices => 0,
            CalcVertexAttrsBuffer::Source => 1,
            CalcVertexAttrsBuffer::Destination => 2,
            CalcVertexAttrsBuffer::WriteMask => 3,
        }
    }

    /// The number under which the buffer is bound.
    #[verifier::when_used_as_spec(spec_binding)]
    pub fn binding(self) -> (number: u32)
        ensures
            number == self.spec_binding(),
            number < CALC_VERTEX_ATTRS_BINDINGS,
    {
        match self {
            CalcVertexAttrsBuffer::Indices => 0,
            CalcVertexAttrsBuffer::Source => 1,
            CalcVertexAttrsBuffer::Destination => 2,
            CalcVertexAttrsBuffer::WriteMask => 3,
        }
    }

    /// How the pass reaches the buffer: it writes to the destination and only
    /// reads the others.
    pub fn access(self) -> (access: Access)
        ensures
            access == Access::ReadWrite <==> self == CalcVertexAttrsBuffer::Destination,
    {
        match self {
            CalcVertexAttrsBuffer::Destination => Access::ReadWrite,
            _ => Access::ReadOnly,
        }
    }

    /// The buffer that is bound under `number`.
    pub fn at(number: u32) -> (buffer: Option<CalcVertexAttrsBuffer>)
        ensures
            match buffer {
                Some(buffer) => buffer.spec_binding() == number,
                None => number >= CALC_VERTEX_ATTRS_BINDINGS,
            },
    {
        match number {
            0 => Some(CalcVertexAttrsBuffer::Indices),
            1 => Some(CalcVertexAttrsBuffer::Source),
            2 => Some(CalcVertexAttrsBuffer::Destination),
            3 => Some(CalcVertexAttrsBuffer::WriteMask),
            _ => None,
        }
    }
}

} // verus!
