use vstd::prelude::*;

use crate::grid::GridError;
use crate::grid::MAX_SIDE;
use crate::grid::TerrainChunk;

verus! {

/// The four little-endian bytes of one stored bit pattern.
pub open spec fn le_bytes_of_word(w: u32) -> Seq<u8> {
    seq![
        (w as int % 256) as u8,
        (w as int / 256 % 256) as u8,
        (w as int / 65536 % 256) as u8,
        (w as int / 16777216 % 256) as u8,
    ]
}

/// The bit pattern rebuilt from four little-endian bytes.
pub open spec fn word_of_le_bytes(b0: u8, b1: u8, b2: u8, b3: u8) -> u32 {
    (b0 as int + 256 * b1 as int + 65536 * b2 as int + 16777216 * b3 as int) as u32
}

/// The little-endian serialization of a cell sequence, four bytes per cell,
/// in storage order.
pub open spec fn bytes_of_words(s: Seq<u32>) -> Seq<u8>
    decreases s.len(),
{
    if s.len() == 0 {
        Seq::empty()
    } else {
        le_bytes_of_word(s[0]) + bytes_of_words(s.skip(1))
    }
}

/// The cell sequence read back from a little-endian serialization; a trailing
/// fragment shorter than four bytes is ignored.
pub open spec fn words_of_bytes(b: Seq<u8>) -> Seq<u32>
    decreases b.len(),
{
    if b.len() < 4 {
        Seq::empty()
    } else {
        seq![word_of_le_bytes(b[0], b[1], b[2], b[3])] + words_of_bytes(b.skip(4))
    }
}

/// Serialization always yields four bytes per cell.
pub proof fn lemma_bytes_of_words_len(s: Seq<u32>)
    ensures
        bytes_of_words(s).len() == 4 * s.len(),
    decreases s.len(),
{
    if s.len() != 0 {
        lemma_bytes_of_words_len(s.skip(1));
    }
}

/// Rebuilding a bit pattern from its own four little-endian bytes gives the
/// pattern back.
proof fn lemma_word_round_trip(w: u32)
    ensures
        word_of_le_bytes(
            (w as int % 256) as u8,
            (w as int / 256 % 256) as u8,
            (w as int / 65536 % 256) as u8,
            (w as int / 16777216 % 256) as u8,
        ) == w,
{
    assert(w % 256 + 256 * (w / 256 % 256) + 65536 * (w / 65536 % 256) + 16777216 * (w
        / 16777216 % 256) == w) by (bit_vector);
}

/// Serializing one more cell appends exactly its four bytes.
proof fn lemma_bytes_of_words_push(s: Seq<u32>, w: u32)
    ensures
        bytes_of_words(s.push(w)) == bytes_of_words(s) + le_bytes_of_word(w),
    decreases s.len(),
{
    if s.len() == 0 {
        assert(s.push(w)[0] == w);
        assert(s.push(w).skip(1) =~= Seq::<u32>::empty());
        assert(bytes_of_words(s.push(w).skip(1)) == Seq::<u8>::empty());
        assert(bytes_of_words(s) == Seq::<u8>::empty());
        assert(bytes_of_words(s.push(w)) =~= bytes_of_words(s) + le_bytes_of_word(w));
    } else {
        assert(s.push(w)[0] == s[0]);
        assert(s.push(w).skip(1) =~= s.skip(1).push(w));
        lemma_bytes_of_words_push(s.skip(1), w);
        assert(bytes_of_words(s.push(w)) =~= bytes_of_words(s) + le_bytes_of_word(w));
    }
}

/// Decoding one more word consumes exactly the four appended bytes.
proof fn lemma_words_of_bytes_append(b: Seq<u8>, b0: u8, b1: u8, b2: u8, b3: u8)
    requires
        b.len() % 4 == 0,
    ensures
        words_of_bytes(b + seq![b0, b1, b2, b3]) == words_of_bytes(b).push(
            word_of_le_bytes(b0, b1, b2, b3),
        ),
    decreases b.len(),
{
    let ext = b + seq![b0, b1, b2, b3];
    assert(ext.len() == b.len() + 4);
    if b.len() == 0 {
        assert(ext[0] == b0 && ext[1] == b1 && ext[2] == b2 && ext[3] == b3);
        assert(ext.skip(4) =~= Seq::<u8>::empty());
        assert(words_of_bytes(ext.skip(4)) == Seq::<u32>::empty());
        assert(words_of_bytes(b) == Seq::<u32>::empty());
        assert(words_of_bytes(ext) =~= words_of_bytes(b).push(word_of_le_bytes(b0, b1, b2, b3)));
    } else {
        assert(b.len() >= 4);
        assert(ext[0] == b[0] && ext[1] == b[1] && ext[2] == b[2] && ext[3] == b[3]);
        assert(ext.skip(4) =~= b.skip(4) + seq![b0, b1, b2, b3]);
        assert(b.skip(4).len() % 4 == 0);
        lemma_words_of_bytes_append(b.skip(4), b0, b1, b2, b3);
        assert(words_of_bytes(ext) =~= words_of_bytes(b).push(word_of_le_bytes(b0, b1, b2, b3)));
    }
}

/// Decoding a serialized cell sequence as little-endian 32-bit words gives
/// back exactly the cells that were serialized.
pub proof fn lemma_byte_buffer_round_trip(cells: Seq<u32>)
    ensures
        words_of_bytes(bytes_of_words(cells)) == cells,
    decreases cells.len(),
{
    if cells.len() == 0 {
    } else {
        let rest = bytes_of_words(cells.skip(1));
        lemma_bytes_of_words_len(cells.skip(1));
        assert(bytes_of_words(cells).skip(4) =~= rest);
        lemma_byte_buffer_round_trip(cells.skip(1));
        lemma_word_round_trip(cells[0]);
        assert(words_of_bytes(bytes_of_words(cells)) =~= cells);
    }
}

impl TerrainChunk {
    /// Serializes every cell in row-major order, four bytes per cell, little
    /// endian. Reading the buffer back as 32-bit float words reproduces the
    /// stored samples exactly.
    pub fn to_byte_buffer(&self) -> (r: Vec<u8>)
        ensures
            r@ == bytes_of_words(self@),
            r@.len() == 4 * self@.len(),
    {
        let n: usize = self.len_cells();
        let mut buf: Vec<u8> = Vec::new();
        let mut i: usize = 0;
        proof {
            assert(self@.take(0) =~= Seq::<u32>::empty());
        }
        while i < n
            invariant
                i <= n,
                n == self@.len(),
                buf@ == bytes_of_words(self@.take(i as int)),
            decreases n - i,
        {
            let w: u32 = self.cell_at(i);
            buf.push((w % 256) as u8);
            buf.push((w / 256 % 256) as u8);
            buf.push((w / 65536 % 256) as u8);
            buf.push((w / 16777216 % 256) as u8);
            proof {
                assert(self@.take(i + 1) =~= self@.take(i as int).push(self@[i as int]));
                lemma_bytes_of_words_push(self@.take(i as int), self@[i as int]);
                assert(buf@ =~= bytes_of_words(self@.take(i + 1)));
            }
            i = i + 1;
        }
        proof {
            assert(self@.take(n as int) =~= self@);
            lemma_bytes_of_words_len(self@);
        }
        buf
    }

    /// Rebuilds a grid of the given side length from a serialized buffer.
    /// Succeeds exactly on an acceptable side length together with a buffer
    /// of exactly 4·side·side bytes.
    pub fn from_byte_buffer(bytes: &Vec<u8>, side: usize) -> (r: Result<TerrainChunk, GridError>)
        ensures
            (1 <= side <= MAX_SIDE && bytes@.len() == 4 * (side * side)) <==> r is Ok,
            r matches Ok(g) ==> g.wf() && g.side_spec() == side && g@ == words_of_bytes(bytes@),
            side == 0 ==> r == Result::<TerrainChunk, GridError>::Err(GridError::SideZero),
            side > MAX_SIDE ==> r == Result::<TerrainChunk, GridError>::Err(
                GridError::SideTooLarge,
            ),
            (1 <= side <= MAX_SIDE && bytes@.len() != 4 * (side * side)) ==> r == Result::<
                TerrainChunk,
                GridError,
            >::Err(GridError::BufferSize),
    {
        if side == 0 {
            return Err(GridError::SideZero);
        }
        if side > MAX_SIDE {
            return Err(GridError::SideTooLarge);
        }
        proof {
            crate::grid::lemma_grid_index(0, side - 1, side as int);
        }
        let n: usize = side * side;
        if bytes.len() != 4 * n {
            return Err(GridError::BufferSize);
        }
        let mut g = TerrainChunk::zeros(side);
        let mut i: usize = 0;
        proof {
            assert(bytes@.take(0) =~= Seq::<u8>::empty());
        }
        while i < n
            invariant
                i <= n,
                n == side * side,
                n <= 16777216,
                1 <= side <= MAX_SIDE,
                bytes@.len() == 4 * n,
                g.wf(),
                g.side_spec() == side,
                g@.len() == n,
                g@.take(i as int) == words_of_bytes(bytes@.take(4 * i)),
            decreases n - i,
        {
            proof {
                lemma_index4(i as int, n as int);
            }
            let b0: u8 = bytes[4 * i];
            let b1: u8 = bytes[4 * i + 1];
            let b2: u8 = bytes[4 * i + 2];
            let b3: u8 = bytes[4 * i + 3];
            let w: u32 = b0 as u32 + 256 * (b1 as u32) + 65536 * (b2 as u32) + 16777216 * (
            b3 as u32);
            g.set_flat(i, w);
            proof {
                assert(bytes@.take(4 * i + 4) =~= bytes@.take(4 * i) + seq![b0, b1, b2, b3]);
                lemma_words_of_bytes_len(bytes@.take(4 * i));
                lemma_words_of_bytes_append(bytes@.take(4 * i), b0, b1, b2, b3);
                assert(g@.take(i + 1) =~= g@.take(i as int).push(w));
            }
            i = i + 1;
        }
        proof {
            assert(bytes@.take(4 * n) =~= bytes@);
            assert(g@.take(n as int) =~= g@);
        }
        Ok(g)
    }
}

/// Four bytes per decoded word.
proof fn lemma_words_of_bytes_len(b: Seq<u8>)
    requires
        b.len() % 4 == 0,
    ensures
        words_of_bytes(b).len() == b.len() / 4,
    decreases b.len(),
{
    if b.len() >= 4 {
        lemma_words_of_bytes_len(b.skip(4));
    }
}

/// The four byte positions of cell i stay inside a 4·n byte buffer.
proof fn lemma_index4(i: int, n: int)
    by (nonlinear_arith)
    requires
        0 <= i < n,
        n <= 16777216,
    ensures
        0 <= 4 * i,
        4 * i + 3 < 4 * n,
{
}

} // verus!
