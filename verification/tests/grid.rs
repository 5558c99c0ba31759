use heightgrid::GridError;
use heightgrid::TerrainChunk;

#[test]
fn zero_initialization_create() {
    let g = TerrainChunk::create(4).unwrap();
    assert_eq!(g.side(), 4);
    for y in 0..4 {
        for x in 0..4 {
            assert_eq!(g.get(x, y), 0);
            assert_eq!(f32::from_bits(g.get(x, y)), 0.0);
        }
    }
}

#[test]
fn zero_initialization_square() {
    let g = TerrainChunk::zero();
    assert_eq!(g.side(), 128);
    assert_eq!(f32::from_bits(g.get(0, 0)), 0.0);
    assert_eq!(f32::from_bits(g.get(127, 127)), 0.0);
    assert_eq!(f32::from_bits(g.get(64, 31)), 0.0);
}

#[test]
fn set_then_get_round_trip() {
    let mut g = TerrainChunk::create(3).unwrap();
    g.set(1, 2, 1.5f32.to_bits());
    g.set(0, 0, (-0.25f32).to_bits());
    assert_eq!(f32::from_bits(g.get(1, 2)), 1.5);
    assert_eq!(f32::from_bits(g.get(0, 0)), -0.25);
    assert_eq!(f32::from_bits(g.get(2, 2)), 0.0);
}

#[test]
fn bounds_refused_on_get() {
    let g = TerrainChunk::create(4).unwrap();
    assert!(g.try_get(4, 0).is_none());
    assert!(g.try_get(0, 4).is_none());
    assert!(g.try_get(4, 4).is_none());
    assert!(g.try_get(usize::MAX, 0).is_none());
    assert!(g.try_get(3, 3).is_some());
}

#[test]
fn bounds_refused_on_set() {
    let mut g = TerrainChunk::create(4).unwrap();
    assert_eq!(g.try_set(4, 0, 1.0f32.to_bits()), Err(GridError::OutOfBounds));
    assert_eq!(g.try_set(0, 4, 1.0f32.to_bits()), Err(GridError::OutOfBounds));
    assert_eq!(g.try_set(3, 3, 1.0f32.to_bits()), Ok(()));
    assert_eq!(f32::from_bits(g.get(3, 3)), 1.0);
    // the refused writes left every other cell untouched
    for y in 0..4 {
        for x in 0..4 {
            if (x, y) != (3, 3) {
                assert_eq!(g.get(x, y), 0);
            }
        }
    }
}

#[test]
fn create_rejects_bad_sides() {
    assert_eq!(TerrainChunk::create(0).err(), Some(GridError::SideZero));
    assert_eq!(TerrainChunk::create(4097).err(), Some(GridError::SideTooLarge));
    assert!(TerrainChunk::create(1).is_ok());
    assert!(TerrainChunk::create(4096).is_ok());
}
