use heightgrid::GridError;
use heightgrid::TerrainChunk;

#[test]
fn buffer_is_little_endian_float32() {
    let mut g = TerrainChunk::create(1).unwrap();
    g.set(0, 0, 1.0f32.to_bits());
    let buf = g.to_byte_buffer();
    assert_eq!(buf, vec![0, 0, 128, 63]);
    assert_eq!(buf, 1.0f32.to_le_bytes().to_vec());
}

#[test]
fn buffer_length_is_four_per_cell() {
    let g = TerrainChunk::create(7).unwrap();
    assert_eq!(g.to_byte_buffer().len(), 4 * 7 * 7);
    let z = TerrainChunk::zero();
    assert_eq!(z.to_byte_buffer().len(), 4 * 128 * 128);
}

#[test]
fn round_trip_reconstructs_written_values() {
    let values = [0.0f32, 1.0, -1.0, 0.5, -0.25, 0.7342253, f32::MIN_POSITIVE, 3.25e-20];
    let mut g = TerrainChunk::create(3).unwrap();
    let mut i: usize = 0;
    for y in 0..3 {
        for x in 0..3 {
            if i < values.len() {
                g.set(x, y, values[i].to_bits());
                i += 1;
            }
        }
    }
    let buf = g.to_byte_buffer();
    // decoding the buffer as little-endian float32 words, row-major,
    // reproduces exactly what was written
    for y in 0..3 {
        for x in 0..3 {
            let k: usize = 4 * (y * 3 + x);
            let word = [buf[k], buf[k + 1], buf[k + 2], buf[k + 3]];
            assert_eq!(f32::from_le_bytes(word).to_bits(), g.get(x, y));
        }
    }
    let h = TerrainChunk::from_byte_buffer(&buf, 3).unwrap();
    for y in 0..3 {
        for x in 0..3 {
            assert_eq!(h.get(x, y), g.get(x, y));
        }
    }
}

#[test]
fn from_byte_buffer_rejects_bad_input() {
    let g = TerrainChunk::create(2).unwrap();
    let buf = g.to_byte_buffer();
    assert_eq!(buf.len(), 16);
    assert_eq!(TerrainChunk::from_byte_buffer(&buf, 0).err(), Some(GridError::SideZero));
    assert_eq!(TerrainChunk::from_byte_buffer(&buf, 4097).err(), Some(GridError::SideTooLarge));
    assert_eq!(TerrainChunk::from_byte_buffer(&buf, 3).err(), Some(GridError::BufferSize));
    let mut short = buf.clone();
    short.pop();
    assert_eq!(TerrainChunk::from_byte_buffer(&short, 2).err(), Some(GridError::BufferSize));
    assert!(TerrainChunk::from_byte_buffer(&buf, 2).is_ok());
}
