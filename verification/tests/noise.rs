use heightgrid::NoiseError;
use heightgrid::NoiseFieldGenerator;
use heightgrid::TerrainChunk;

fn filled_buffer(seed: u32, frequency_millis: u32, side: usize) -> Vec<u8> {
    let mut g = TerrainChunk::create(side).unwrap();
    let gen = NoiseFieldGenerator::create(seed, frequency_millis).unwrap();
    gen.fill(&mut g);
    g.to_byte_buffer()
}

#[test]
fn determinism_across_runs() {
    let a = filled_buffer(42, 5000, 8);
    let b = filled_buffer(42, 5000, 8);
    assert_eq!(a, b);
}

#[test]
fn scenario_seed_123_frequency_3() {
    // a 4×4 grid, seed 123, frequency 3.0 (3000 thousandths)
    let mut g = TerrainChunk::create(4).unwrap();
    let gen = NoiseFieldGenerator::create(123, 3000).unwrap();
    gen.fill(&mut g);
    assert_eq!(g.side(), 4);
    let buf = g.to_byte_buffer();
    assert_eq!(buf.len(), 64);
    // exact sample values of this parameterization
    assert_eq!(g.get(0, 0), 0xbf3bf630);
    assert_eq!(f32::from_bits(g.get(0, 0)), -0.7342253);
    assert_eq!(g.get(3, 3), 0x3ebdd130);
    assert_eq!(f32::from_bits(g.get(3, 3)), 0.3707366);
    // a fresh zeroed grid of the same size reproduces the same 64 bytes
    let again = filled_buffer(123, 3000, 4);
    assert_eq!(buf, again);
}

#[test]
fn samples_stay_signed_normalized() {
    let mut g = TerrainChunk::create(16).unwrap();
    let gen = NoiseFieldGenerator::create(7, 250000).unwrap();
    gen.fill(&mut g);
    for y in 0..16 {
        for x in 0..16 {
            let v = f32::from_bits(g.get(x, y));
            assert!(v.is_finite());
            assert!((-1.0..=1.0).contains(&v));
        }
    }
}

#[test]
fn seed_sensitivity() {
    let a = filled_buffer(1, 3000, 4);
    let b = filled_buffer(2, 3000, 4);
    assert_ne!(a, b);
}

#[test]
fn coordinates_in_one_noise_cell_agree() {
    let mut g = TerrainChunk::create(4).unwrap();
    let gen = NoiseFieldGenerator::create(123, 3000).unwrap();
    gen.fill(&mut g);
    // at scale 0.12 and frequency 3.0, coordinates 0..=2 land in noise cell 0
    assert_eq!(g.get(0, 0), g.get(1, 1));
    assert_eq!(g.get(1, 1), g.get(2, 2));
    // coordinate 3 lands in the next cell and varies
    assert_ne!(g.get(2, 2), g.get(3, 3));
}

#[test]
fn fill_keeps_grid_shape() {
    let mut g = TerrainChunk::create(5).unwrap();
    let gen = NoiseFieldGenerator::create(9, 1000).unwrap();
    gen.fill(&mut g);
    assert_eq!(g.side(), 5);
    assert_eq!(g.to_byte_buffer().len(), 100);
}

#[test]
fn generator_rejects_bad_parameters() {
    assert_eq!(NoiseFieldGenerator::create(1, 0).err(), Some(NoiseError::FrequencyZero));
    assert_eq!(NoiseFieldGenerator::create(1, 1000001).err(), Some(NoiseError::FrequencyTooLarge));
    assert_eq!(
        NoiseFieldGenerator::with_scale(1, 1000, 0).err(),
        Some(NoiseError::ScaleZero)
    );
    assert_eq!(
        NoiseFieldGenerator::with_scale(1, 1000, 1000001).err(),
        Some(NoiseError::ScaleTooLarge)
    );
    assert!(NoiseFieldGenerator::with_scale(1, 1000000, 1000000).is_ok());
}

#[test]
fn generator_reports_its_parameters() {
    let gen = NoiseFieldGenerator::create(123, 3000).unwrap();
    assert_eq!(gen.seed(), 123);
    assert_eq!(gen.frequency_millis(), 3000);
    assert_eq!(gen.scale_millis(), 120);
    let custom = NoiseFieldGenerator::with_scale(5, 2000, 500).unwrap();
    assert_eq!(custom.scale_millis(), 500);
}
