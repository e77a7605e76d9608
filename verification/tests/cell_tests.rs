//! Tests of the device-path cell record and the parameter blocks.

use quantum_life::cell::GpuCell;
use quantum_life::codec::NO_ENTANGLEMENT;
use quantum_life::wire::RenderParams;
use quantum_life::wire::SimParams;

#[test]
fn test_cell_size() {
    let cell = GpuCell::new((0, 0, 0, 0), None, 0);
    assert_eq!(cell.to_bytes().len(), 64);
}

#[test]
fn test_cell_fields_initialized() {
    let amp = 0.5f32;
    let cell = GpuCell::new(
        (amp.to_bits(), amp.to_bits(), amp.to_bits(), amp.to_bits()),
        Some((3, 4)),
        77,
    );
    let phases = [cell.phases.0, cell.phases.1, cell.phases.2, cell.phases.3];
    for phase in &phases {
        assert_eq!(f32::from_bits(*phase), 0.0, "Phases should be initialized to 0");
    }
    let velocities = [
        cell.velocities.0,
        cell.velocities.1,
        cell.velocities.2,
        cell.velocities.3,
    ];
    for vel in &velocities {
        assert_eq!(f32::from_bits(*vel), 0.0, "Velocities should be initialized to 0");
    }
    assert_eq!(f32::from_bits(cell.local_time), 0.0, "Local time should be 0");
    assert_eq!(f32::from_bits(cell.time_dilation), 1.0, "Time dilation should be 1.0");
}

#[test]
fn test_cell_partner_and_rng_in_record() {
    let cell = GpuCell::new((0, 0, 0, 0), Some((500, 300)), 0xDEAD_BEEF);
    assert_eq!(cell.entangled_partner, (500 << 16) | 300);
    let bytes = cell.to_bytes();
    assert_eq!(&bytes[56..60], &((500u32 << 16) | 300).to_le_bytes());
    assert_eq!(&bytes[60..64], &0xDEAD_BEEFu32.to_le_bytes());
}

#[test]
fn test_cell_without_partner_has_sentinel() {
    let cell = GpuCell::new_with_phases((1, 2, 3, 4), (5, 6, 7, 8), None, 9);
    assert_eq!(cell.entangled_partner, NO_ENTANGLEMENT);
    assert_eq!(cell.amplitudes, (1, 2, 3, 4));
    assert_eq!(cell.phases, (5, 6, 7, 8));
    let bytes = cell.to_bytes();
    assert_eq!(&bytes[0..4], &1u32.to_le_bytes());
    assert_eq!(&bytes[16..20], &5u32.to_le_bytes());
    assert_eq!(&bytes[32..36], &0u32.to_le_bytes());
    assert_eq!(&bytes[56..60], &[0xFF, 0xFF, 0xFF, 0xFF]);
}

#[test]
fn test_sim_params_layout() {
    let params = SimParams {
        grid_width: 512,
        grid_height: 512,
        frame_number: 7,
        randomness_factor: 0.01f32.to_bits(),
        base_dt: 0.1f32.to_bits(),
        wave_speed: 1.2f32.to_bits(),
        damping: 0.05f32.to_bits(),
        light_speed: 1.5f32.to_bits(),
        mutation_probability: 0.002f32.to_bits(),
    };
    let bytes = params.encode();
    assert_eq!(bytes.len(), 64);
    assert_eq!(&bytes[0..4], &512u32.to_le_bytes());
    assert_eq!(&bytes[8..12], &7u32.to_le_bytes());
    assert_eq!(&bytes[12..16], &0x3C23_D70Au32.to_le_bytes());
    // the reserved tail is zero padding
    assert!(bytes[36..64].iter().all(|b| *b == 0));
}

#[test]
fn test_render_params_layout() {
    let params = RenderParams {
        grid_width: 512,
        grid_height: 256,
        render_mode: 1,
        phase_visualization: 0,
        view_center_x: 256.0f32.to_bits(),
        view_center_y: 128.0f32.to_bits(),
        view_zoom: 256.0f32.to_bits(),
        time_viz_strength: 0.5f32.to_bits(),
    };
    let bytes = params.encode();
    assert_eq!(bytes.len(), 48);
    assert_eq!(&bytes[0..4], &512u32.to_le_bytes());
    assert_eq!(&bytes[4..8], &256u32.to_le_bytes());
    assert_eq!(&bytes[8..12], &1u32.to_le_bytes());
    assert_eq!(&bytes[16..20], &256.0f32.to_bits().to_le_bytes());
    assert!(bytes[32..48].iter().all(|b| *b == 0));
}
