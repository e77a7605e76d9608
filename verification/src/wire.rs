//! The binary contract with the device-resident kernel and the view layer.
//!
//! Three fixed layouts are load-bearing for interoperability: the 64-byte
//! cell record (defined with the cell), the 64-byte simulation parameter
//! block, and the 48-byte render parameter block. Every field is serialized
//! little-endian in declaration order, padded with zero words to the block
//! size. Fractional fields carry IEEE-754 single-precision bit patterns as
//! plain 32-bit words; converting a floating-point value to its bit pattern
//! is the caller's concern.

use vstd::prelude::*;

verus! {

/// The bit pattern of the IEEE-754 single-precision value one.
pub const F32_ONE_BITS: u32 = 0x3F80_0000;

/// The four little-endian bytes of a 32-bit word.
pub open spec fn le_bytes32(x: u32) -> Seq<u8> {
    seq![
        (x & 0xFF) as u8,
        ((x >> 8) & 0xFF) as u8,
        ((x >> 16) & 0xFF) as u8,
        ((x >> 24) & 0xFF) as u8,
    ]
}

/// Append the four little-endian bytes of `x`.
pub fn push_u32_le(out: &mut Vec<u8>, x: u32)
    ensures
        final(out)@ == old(out)@ + le_bytes32(x),
{
    proof {
        assert((x & 0xFF) < 256 && ((x >> 8) & 0xFF) < 256 && ((x >> 16) & 0xFF) < 256 && ((x
            >> 24) & 0xFF) < 256) by (bit_vector);
    }
    out.push((x & 0xFF) as u8);
    out.push(((x >> 8) & 0xFF) as u8);
    out.push(((x >> 16) & 0xFF) as u8);
    out.push(((x >> 24) & 0xFF) as u8);
    proof {
        assert(out@ =~= old(out)@ + le_bytes32(x));
    }
}

/// Simulation parameter block handed to the compute kernel: 64 bytes.
/// The first three words are plain integers; the remaining ones are
/// single-precision bit patterns.
#[derive(Clone, Copy, Debug, PartialEq)]
pub struct SimParams {
    pub grid_width: u32,
    pub grid_height: u32,
    pub frame_number: u32,
    pub randomness_factor: u32,
    pub base_dt: u32,
    pub wave_speed: u32,
    pub damping: u32,
    pub light_speed: u32,
    pub mutation_probability: u32,
}

impl SimParams {
    /// The 64 bytes of the block: the nine fields in order, little-endian,
    /// followed by 28 bytes of reserved zero padding.
    pub open spec fn bytes_spec(self) -> Seq<u8> {
        le_bytes32(self.grid_width) + le_bytes32(self.grid_height) + le_bytes32(self.frame_number)
            + le_bytes32(self.randomness_factor) + le_bytes32(self.base_dt) + le_bytes32(
            self.wave_speed,
        ) + le_bytes32(self.damping) + le_bytes32(self.light_speed) + le_bytes32(
            self.mutation_probability,
        ) + le_bytes32(0) + le_bytes32(0) + le_bytes32(0) + le_bytes32(0) + le_bytes32(0)
            + le_bytes32(0) + le_bytes32(0)
    }

    /// Serialize the block to its exact 64-byte wire form.
    pub fn encode(&self) -> (bytes: Vec<u8>)
        ensures
            bytes@ == self.bytes_spec(),
            bytes@.len() == 64,
    {
        let mut out: Vec<u8> = Vec::new();
        push_u32_le(&mut out, self.grid_width);
        push_u32_le(&mut out, self.grid_height);
        push_u32_le(&mut out, self.frame_number);
        push_u32_le(&mut out, self.randomness_factor);
        push_u32_le(&mut out, self.base_dt);
        push_u32_le(&mut out, self.wave_speed);
        push_u32_le(&mut out, self.damping);
        push_u32_le(&mut out, self.light_speed);
        push_u32_le(&mut out, self.mutation_probability);
        push_u32_le(&mut out, 0);
        push_u32_le(&mut out, 0);
        push_u32_le(&mut out, 0);
        push_u32_le(&mut out, 0);
        push_u32_le(&mut out, 0);
        push_u32_le(&mut out, 0);
        push_u32_le(&mut out, 0);
        proof {
            assert(out@ =~= self.bytes_spec());
        }
        out
    }
}

/// Render parameter block handed to the view layer: 48 bytes. The first
/// four words are plain integers (dimensions, render-mode flag: 0 flat,
/// 1 disk-projected, phase-visualization flag); the next four are
/// single-precision bit patterns; 16 bytes of reserved zero padding follow.
#[derive(Clone, Copy, Debug, PartialEq)]
pub struct RenderParams {
    pub grid_width: u32,
    pub grid_height: u32,
    pub render_mode: u32,
    pub phase_visualization: u32,
    pub view_center_x: u32,
    pub view_center_y: u32,
    pub view_zoom: u32,
    pub time_viz_strength: u32,
}

impl RenderParams {
    /// The 48 bytes of the block: the eight fields in order, little-endian,
    /// followed by 16 bytes of reserved zero padding.
    pub open spec fn bytes_spec(self) -> Seq<u8> {
        le_bytes32(self.grid_width) + le_bytes32(self.grid_height) + le_bytes32(self.render_mode)
            + le_bytes32(self.phase_visualization) + le_bytes32(self.view_center_x) + le_bytes32(
            self.view_center_y,
        ) + le_bytes32(self.view_zoom) + le_bytes32(self.time_viz_strength) + le_bytes32(0)
            + le_bytes32(0) + le_bytes32(0) + le_bytes32(0)
    }

    /// Serialize the block to its exact 48-byte wire form.
    pub fn encode(&self) -> (bytes: Vec<u8>)
        ensures
            bytes@ == self.bytes_spec(),
            bytes@.len() == 48,
    {
        let mut out: Vec<u8> = Vec::new();
        push_u32_le(&mut out, self.grid_width);
        push_u32_le(&mut out, self.grid_height);
        push_u32_le(&mut out, self.render_mode);
        push_u32_le(&mut out, self.phase_visualization);
        push_u32_le(&mut out, self.view_center_x);
        push_u32_le(&mut out, self.view_center_y);
        push_u32_le(&mut out, self.view_zoom);
        push_u32_le(&mut out, self.time_viz_strength);
        push_u32_le(&mut out, 0);
        push_u32_le(&mut out, 0);
        push_u32_le(&mut out, 0);
        push_u32_le(&mut out, 0);
        proof {
            assert(out@ =~= self.bytes_spec());
        }
        out
    }
}

} // verus!
