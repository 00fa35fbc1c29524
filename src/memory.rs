use vstd::prelude::*;

verus! {

/// Capacity of the machine's RAM in bytes.
pub const RAM_SIZE: usize = 4096;

/// Flat byte-addressable RAM of fixed capacity.
pub struct Memory([u8; RAM_SIZE]);

impl View for Memory {
    type V = Seq<u8>;

    closed spec fn view(&self) -> Seq<u8> {
        self.0@
    }
}

/// Every memory holds exactly `RAM_SIZE` bytes.
pub broadcast proof fn lemma_memory_len(m: &Memory)
    ensures
        #[trigger] m@.len() == RAM_SIZE,
{
}

/// The big-endian word stored at `pos` and `pos + 1`.
pub open spec fn word_at(m: Seq<u8>, pos: int) -> u16 {
    (m[pos] as int * 256 + m[pos + 1] as int) as u16
}

/// `m` with `val` stored big-endian at `pos`: high byte first, low byte after it.
pub open spec fn with_word(m: Seq<u8>, pos: int, val: u16) -> Seq<u8> {
    m.update(pos, (val as int / 256) as u8).update(pos + 1, (val as int % 256) as u8)
}

/// `m` with the bytes of `src` copied in from `pos` on, every other byte kept.
pub open spec fn loaded(m: Seq<u8>, src: Seq<u8>, pos: int) -> Seq<u8> {
    Seq::new(m.len(), |k: int| if pos <= k < pos + src.len() { src[k - pos] } else { m[k] })
}

impl Memory {
    pub fn new() -> (r: Memory)
        ensures
            r@ == Seq::new(RAM_SIZE as nat, |k: int| 0u8),
    {
        let r = Memory([0u8; RAM_SIZE]);
        assert(r@ =~= Seq::new(RAM_SIZE as nat, |k: int| 0u8));
        r
    }

    pub fn size(&self) -> (r: usize)
        ensures
            r == self@.len(),
            r == RAM_SIZE,
    {
        self.0.len()
    }

    /// Copies `src` into memory starting at address `pos`.
    pub fn load(&mut self, src: &[u8], pos: u16)
        requires
            pos as int + src@.len() <= RAM_SIZE,
        ensures
            final(self)@ == loaded(old(self)@, src@, pos as int),
    {
        let start = pos as usize;
        let mut k: usize = 0;
        while k < src.len()
            invariant
                start == pos as usize,
                start + src@.len() <= RAM_SIZE,
                k <= src@.len(),
                self@.len() == RAM_SIZE,
                forall|a: int|
                    0 <= a < RAM_SIZE ==> #[trigger] self@[a] == (if start <= a < start + k {
                        src@[a - start]
                    } else {
                        old(self)@[a]
                    }),
            decreases src@.len() - k,
        {
            self.0[start + k] = src[k];
            k = k + 1;
        }
        assert(self@ =~= loaded(old(self)@, src@, pos as int));
    }

    /// Reads the big-endian word at `pos`.
    pub fn read_u16(&self, pos: u16) -> (r: u16)
        requires
            (pos as int) + 1 < RAM_SIZE,
        ensures
            r == word_at(self@, pos as int),
    {
        let b1 = self.0[pos as usize] as u16;
        let b2 = self.0[(pos + 1) as usize] as u16;
        assert((b1 << 8u16) | b2 == b1 * 256 + b2) by (bit_vector)
            requires
                b1 < 256,
                b2 < 256,
        ;
        (b1 << 8) | b2
    }

    pub fn read_u8(&self, pos: u16) -> (r: u8)
        requires
            (pos as int) < RAM_SIZE,
        ensures
            r == self@[pos as int],
    {
        self.0[pos as usize]
    }

    /// Writes `val` big-endian at `pos`: the high byte at `pos`, the low byte at `pos + 1`.
    pub fn write_u16(&mut self, pos: u16, val: u16)
        requires
            (pos as int) + 1 < RAM_SIZE,
        ensures
            final(self)@ == with_word(old(self)@, pos as int, val),
    {
        let b1 = (val >> 8) as u8;
        let b2 = val as u8;
        assert(b1 == val / 256) by (bit_vector)
            requires
                b1 == (val >> 8) as u8,
        ;
        assert(b2 == val % 256) by (bit_vector)
            requires
                b2 == val as u8,
        ;
        self.0[pos as usize] = b1;
        self.0[(pos + 1) as usize] = b2;
        assert(self@ =~= with_word(old(self)@, pos as int, val));
    }

    pub fn write_u8(&mut self, pos: u16, val: u8)
        requires
            (pos as int) < RAM_SIZE,
        ensures
            final(self)@ == old(self)@.update(pos as int, val),
    {
        self.0[pos as usize] = val;
        assert(self@ =~= old(self)@.update(pos as int, val));
    }
}

/// A word written at an address reads back unchanged, and its two bytes sit
/// big-endian in the two cells from that address on.
pub proof fn lemma_word_round_trip(m: Seq<u8>, pos: int, val: u16)
    requires
        m.len() == RAM_SIZE,
        0 <= pos,
        pos + 1 < RAM_SIZE,
    ensures
        word_at(with_word(m, pos, val), pos) == val,
        with_word(m, pos, val)[pos] == val as int / 256,
        with_word(m, pos, val)[pos + 1] == val as int % 256,
        forall|a: int|
            0 <= a < m.len() && a != pos && a != pos + 1 ==> #[trigger] with_word(m, pos, val)[a]
                == m[a],
{
}

/// After a load, the loaded range reads back as the source bytes, and every
/// cell outside it, the one just past its end included, keeps its value.
pub proof fn lemma_load_reads_back(m: Seq<u8>, src: Seq<u8>, pos: int)
    requires
        m.len() == RAM_SIZE,
        0 <= pos,
        pos + src.len() <= RAM_SIZE,
    ensures
        loaded(m, src, pos).len() == RAM_SIZE,
        forall|k: int| 0 <= k < src.len() ==> #[trigger] loaded(m, src, pos)[pos + k] == src[k],
        forall|a: int|
            0 <= a < RAM_SIZE && !(pos <= a < pos + src.len()) ==> #[trigger] loaded(
                m,
                src,
                pos,
            )[a] == m[a],
{
}

} // verus!
