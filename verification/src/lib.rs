pub mod codec;
pub mod grid;
pub mod noise;

pub use grid::GridError;
pub use grid::TerrainChunk;
pub use noise::NoiseError;
pub use noise::NoiseFieldGenerator;
