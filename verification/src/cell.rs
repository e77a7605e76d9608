//! The per-site state records: the probability representation of the host
//! path and the extended wave-representation wire record of the device
//! path, with its exact 64-byte layout.

use vstd::prelude::*;
use crate::codec::encode_partner;
use crate::codec::encode_partner_spec;
use crate::probability::StateVector;
use crate::wire::le_bytes32;
use crate::wire::push_u32_le;
use crate::wire::F32_ONE_BITS;

verus! {

/// One grid site: a four-way probability distribution and an optional
/// entangled partner, stored as an `(x, y)` coordinate where `x` is the
/// column and `y` is the row.
#[derive(Clone, Copy, Debug, PartialEq)]
pub struct Cell {
    pub state_probabilities: StateVector,
    pub entangled_partner: Option<(u32, u32)>,
}

impl Cell {
    /// The cell invariant: its distribution is a valid probability vector.
    pub open spec fn wf(self) -> bool {
        self.state_probabilities.wf()
    }

    /// The stored partner coordinate, if any, lies inside a grid of the
    /// given dimensions.
    pub open spec fn partner_in_bounds(self, width: int, height: int) -> bool {
        match self.entangled_partner {
            Some((x, y)) => x < width && y < height,
            None => true,
        }
    }

    /// Build a cell from its parts.
    pub fn new(
        state_probabilities: StateVector,
        entangled_partner: Option<(u32, u32)>,
    ) -> (cell: Cell)
        ensures
            cell.state_probabilities == state_probabilities,
            cell.entangled_partner == entangled_partner,
    {
        Cell { state_probabilities, entangled_partner }
    }
}

/// The device-path cell record: 64 bytes, fields in declaration order. The
/// wave fields (`amplitudes`, `phases`, `velocities`, `local_time`,
/// `time_dilation`) hold IEEE-754 single-precision bit patterns as plain
/// 32-bit words — an amplitude is the square root of the matching
/// probability. This crate produces the initial values and the exact
/// binary layout; the wave arithmetic itself belongs to the external
/// kernel.
#[derive(Clone, Copy, Debug, PartialEq)]
pub struct GpuCell {
    /// Wave amplitude bit patterns for the four basic states.
    pub amplitudes: (u32, u32, u32, u32),
    /// Phase angle bit patterns, angles in `[0, 2*pi)`.
    pub phases: (u32, u32, u32, u32),
    /// Amplitude-velocity bit patterns.
    pub velocities: (u32, u32, u32, u32),
    /// Proper-time accumulator bit pattern.
    pub local_time: u32,
    /// Evolution-rate scalar bit pattern, value in `[0.1, 1.0]`.
    pub time_dilation: u32,
    /// Packed partner coordinate, or the all-ones sentinel.
    pub entangled_partner: u32,
    /// Opaque per-cell pseudo-random generator state.
    pub rng_state: u32,
}

impl GpuCell {
    /// Create a cell at rest: the given amplitude bit patterns, zero
    /// phases, zero velocities, zero local time, unit time dilation, the
    /// packed partner coordinate, and the given pseudo-random state.
    pub fn new(amplitudes: (u32, u32, u32, u32), partner: Option<(u32, u32)>, rng_seed: u32) -> (
        cell: GpuCell)
        ensures
            cell.amplitudes == amplitudes,
            cell.phases == (0u32, 0u32, 0u32, 0u32),
            cell.velocities == (0u32, 0u32, 0u32, 0u32),
            cell.local_time == 0,
            cell.time_dilation == F32_ONE_BITS,
            cell.entangled_partner == encode_partner_spec(partner),
            cell.rng_state == rng_seed,
    {
        GpuCell {
            amplitudes,
            phases: (0, 0, 0, 0),
            velocities: (0, 0, 0, 0),
            local_time: 0,
            time_dilation: F32_ONE_BITS,
            entangled_partner: encode_partner(partner),
            rng_state: rng_seed,
        }
    }

    /// Create a cell with explicit amplitudes and phases, otherwise at
    /// rest.
    pub fn new_with_phases(
        amplitudes: (u32, u32, u32, u32),
        phases: (u32, u32, u32, u32),
        partner: Option<(u32, u32)>,
        rng_seed: u32,
    ) -> (cell: GpuCell)
        ensures
            cell.amplitudes == amplitudes,
            cell.phases == phases,
            cell.velocities == (0u32, 0u32, 0u32, 0u32),
            cell.local_time == 0,
            cell.time_dilation == F32_ONE_BITS,
            cell.entangled_partner == encode_partner_spec(partner),
            cell.rng_state == rng_seed,
    {
        GpuCell {
            amplitudes,
            phases,
            velocities: (0, 0, 0, 0),
            local_time: 0,
            time_dilation: F32_ONE_BITS,
            entangled_partner: encode_partner(partner),
            rng_state: rng_seed,
        }
    }

    /// The 64 bytes of the record: all sixteen words in field order,
    /// little-endian.
    pub open spec fn bytes_spec(self) -> Seq<u8> {
        le_bytes32(self.amplitudes.0) + le_bytes32(self.amplitudes.1) + le_bytes32(
            self.amplitudes.2,
        ) + le_bytes32(self.amplitudes.3) + le_bytes32(self.phases.0) + le_bytes32(self.phases.1)
            + le_bytes32(self.phases.2) + le_bytes32(self.phases.3) + le_bytes32(
            self.velocities.0,
        ) + le_bytes32(self.velocities.1) + le_bytes32(self.velocities.2) + le_bytes32(
            self.velocities.3,
        ) + le_bytes32(self.local_time) + le_bytes32(self.time_dilation) + le_bytes32(
            self.entangled_partner,
        ) + le_bytes32(self.rng_state)
    }

    /// Serialize the record to its exact 64-byte wire form.
    pub fn to_bytes(&self) -> (bytes: Vec<u8>)
        ensures
            bytes@ == self.bytes_spec(),
            bytes@.len() == 64,
    {
        let mut out: Vec<u8> = Vec::new();
        push_u32_le(&mut out, self.amplitudes.0);
        push_u32_le(&mut out, self.amplitudes.1);
        push_u32_le(&mut out, self.amplitudes.2);
        push_u32_le(&mut out, self.amplitudes.3);
        push_u32_le(&mut out, self.phases.0);
        push_u32_le(&mut out, self.phases.1);
        push_u32_le(&mut out, self.phases.2);
        push_u32_le(&mut out, self.phases.3);
        push_u32_le(&mut out, self.velocities.0);
        push_u32_le(&mut out, self.velocities.1);
        push_u32_le(&mut out, self.velocities.2);
        push_u32_le(&mut out, self.velocities.3);
        push_u32_le(&mut out, self.local_time);
        push_u32_le(&mut out, self.time_dilation);
        push_u32_le(&mut out, self.entangled_partner);
        push_u32_le(&mut out, self.rng_state);
        proof {
            assert(out@ =~= self.bytes_spec());
        }
        out
    }
}

/// Law: each field of the cell record sits at its fixed byte offset.
pub proof fn lemma_gpu_cell_layout(c: GpuCell)
    ensures
        c.bytes_spec().len() == 64,
        c.bytes_spec().subrange(0, 4) == le_bytes32(c.amplitudes.0),
        c.bytes_spec().subrange(12, 16) == le_bytes32(c.amplitudes.3),
        c.bytes_spec().subrange(16, 20) == le_bytes32(c.phases.0),
        c.bytes_spec().subrange(32, 36) == le_bytes32(c.velocities.0),
        c.bytes_spec().subrange(48, 52) == le_bytes32(c.local_time),
        c.bytes_spec().subrange(52, 56) == le_bytes32(c.time_dilation),
        c.bytes_spec().subrange(56, 60) == le_bytes32(c.entangled_partner),
        c.bytes_spec().subrange(60, 64) == le_bytes32(c.rng_state),
{
    assert(c.bytes_spec().subrange(0, 4) =~= le_bytes32(c.amplitudes.0));
    assert(c.bytes_spec().subrange(12, 16) =~= le_bytes32(c.amplitudes.3));
    assert(c.bytes_spec().subrange(16, 20) =~= le_bytes32(c.phases.0));
    assert(c.bytes_spec().subrange(32, 36) =~= le_bytes32(c.velocities.0));
    assert(c.bytes_spec().subrange(48, 52) =~= le_bytes32(c.local_time));
    assert(c.bytes_spec().subrange(52, 56) =~= le_bytes32(c.time_dilation));
    assert(c.bytes_spec().subrange(56, 60) =~= le_bytes32(c.entangled_partner));
    assert(c.bytes_spec().subrange(60, 64) =~= le_bytes32(c.rng_state));
}

} // verus!
