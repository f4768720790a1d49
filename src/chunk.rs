//! Fixed-size chunks of a flash sector used as an append-only log: a chunk
//! of all `0xff` bytes is erased, the last written chunk holds the newest
//! record, and a full sector is erased before the next write.

use vstd::prelude::*;

verus! {

/// The value of an erased flash byte.
pub const ERASED: u8 = 0xff;

/// Every byte is erased.
pub open spec fn all_erased(data: Seq<u8>) -> bool {
    forall|i: int| 0 <= i < data.len() ==> data[i] == ERASED
}

/// One record of `C` bytes.
pub struct Chunk<const C: usize> {
    pub data: [u8; C],
}

impl<const C: usize> Chunk<C> {
    /// A chunk of zero bytes.
    pub fn new() -> (r: Self)
        ensures
            r.data@ == Seq::new(C as nat, |i: int| 0u8),
    {
        let r = Chunk { data: [0u8; C] };
        proof {
            assert(r.data@ =~= Seq::new(C as nat, |i: int| 0u8));
        }
        r
    }

    /// The chunk holds no record.
    pub fn is_empty(&self) -> (r: bool)
        ensures
            r == all_erased(self.data@),
    {
        Self::slice_is_empty(self.data.as_slice())
    }

    /// Every byte of `data` is erased.
    pub fn slice_is_empty(data: &[u8]) -> (r: bool)
        ensures
            r == all_erased(data@),
    {
        let mut i: usize = 0;
        while i < data.len()
            invariant
                i <= data@.len(),
                forall|k: int| 0 <= k < i ==> data@[k] == ERASED,
            decreases data@.len() - i,
        {
            if data[i] != ERASED {
                return false;
            }
            i = i + 1;
        }
        true
    }

    /// Overwrites the chunk with `data`, which has the chunk's length.
    pub fn copy_from_slice(&mut self, data: &[u8])
        requires
            data@.len() == C,
        ensures
            final(self).data@ == data@,
    {
        let mut i: usize = 0;
        while i < C
            invariant
                data@.len() == C,
                i <= C,
                self.data@.len() == C,
                forall|k: int| 0 <= k < i ==> self.data@[k] == data@[k],
            decreases C - i,
        {
            self.data[i] = data[i];
            i = i + 1;
        }
        proof {
            assert(self.data@ =~= data@);
        }
    }
}

/// The big-endian 32-bit word at word position `i` of `bytes`.
pub open spec fn word_at(bytes: Seq<u8>, i: int) -> int {
    bytes[4 * i] as int * 0x1000000 + bytes[4 * i + 1] as int * 0x10000 + bytes[4 * i + 2] as int
        * 0x100 + bytes[4 * i + 3] as int
}

/// The four bytes of `w`, high byte first.
pub open spec fn word_bytes(w: u32) -> Seq<u8> {
    seq![
        (w / 0x1000000) as u8,
        ((w / 0x10000) % 0x100) as u8,
        ((w / 0x100) % 0x100) as u8,
        (w % 0x100) as u8,
    ]
}

impl<const C: usize> Chunk<C> {
    /// The chunk read as `N` big-endian 32-bit words: the words that the
    /// chunk holds whole, then zeros.
    pub fn to_words<const N: usize>(&self) -> (r: [u32; N])
        requires
            C / 4 <= N,
        ensures
            forall|i: int|
                0 <= i < N ==> #[trigger] r@[i] == if i < C / 4 {
                    word_at(self.data@, i)
                } else {
                    0
                },
    {
        let mut words = [0u32; N];
        let count: usize = C / 4;
        let mut i: usize = 0;
        while i < count
            invariant
                count == C / 4,
                count <= N,
                i <= count,
                self.data@.len() == C,
                words@.len() == N,
                forall|k: int|
                    0 <= k < N ==> #[trigger] words@[k] == if k < i {
                        word_at(self.data@, k)
                    } else {
                        0
                    },
            decreases count - i,
        {
            let b = 4 * i;
            let w: u32 = self.data[b] as u32 * 0x1000000 + self.data[b + 1] as u32 * 0x10000
                + self.data[b + 2] as u32 * 0x100 + self.data[b + 3] as u32;
            words[i] = w;
            i = i + 1;
        }
        words
    }

    /// A chunk holding `words` big-endian from its start, then zeros.
    pub fn from_words<const N: usize>(words: [u32; N]) -> (r: Self)
        requires
            4 * N <= C,
        ensures
            forall|i: int|
                0 <= i < N ==> #[trigger] r.data@.subrange(4 * i, 4 * i + 4) == word_bytes(
                    words@[i],
                ),
            forall|k: int| 4 * N <= k < C ==> #[trigger] r.data@[k] == 0,
    {
        let mut bytes = [0u8; C];
        let mut i: usize = 0;
        while i < N
            invariant
                4 * N <= C,
                i <= N,
                bytes@.len() == C,
                words@.len() == N,
                forall|j: int|
                    0 <= j < i ==> #[trigger] bytes@.subrange(4 * j, 4 * j + 4) == word_bytes(
                        words@[j],
                    ),
                forall|k: int| 4 * i <= k < C ==> #[trigger] bytes@[k] == 0,
            decreases N - i,
        {
            let w = words[i];
            let b = 4 * i;
            let ghost before = bytes@;
            bytes[b] = (w / 0x1000000) as u8;
            bytes[b + 1] = ((w / 0x10000) % 0x100) as u8;
            bytes[b + 2] = ((w / 0x100) % 0x100) as u8;
            bytes[b + 3] = (w % 0x100) as u8;
            proof {
                assert forall|j: int| 0 <= j < i + 1 implies #[trigger] bytes@.subrange(
                    4 * j,
                    4 * j + 4,
                ) == word_bytes(words@[j]) by {
                    if j < i {
                        assert(bytes@.subrange(4 * j, 4 * j + 4) =~= before.subrange(
                            4 * j,
                            4 * j + 4,
                        ));
                    } else {
                        assert(bytes@.subrange(4 * j, 4 * j + 4) =~= word_bytes(words@[j]));
                    }
                }
            }
            i = i + 1;
        }
        Chunk { data: bytes }
    }
}

/// The sector layout: where the sector starts, how long it is, and how long
/// one chunk is.
#[derive(Debug, Clone, Copy, PartialEq, Eq, Structural)]
pub struct SectorLayout {
    pub offset: usize,
    pub size: usize,
    pub chunk_size: usize,
}

impl SectorLayout {
    /// Chunks have a length, and every address in the sector fits; bytes
    /// past the last whole chunk belong to no chunk.
    pub open spec fn wf(&self) -> bool {
        &&& self.chunk_size > 0
        &&& self.offset + self.size <= usize::MAX
    }

    /// The number of whole chunks in the sector.
    pub open spec fn chunks(&self) -> int {
        self.size as int / self.chunk_size as int
    }

    /// The bytes of chunk `k` of a sector image.
    pub open spec fn chunk_bytes(&self, image: Seq<u8>, k: int) -> Seq<u8> {
        image.subrange(k * self.chunk_size, (k + 1) * self.chunk_size)
    }

    /// The address of chunk `k`.
    pub open spec fn chunk_pos(&self, k: int) -> int {
        self.offset + k * self.chunk_size
    }
}

proof fn lemma_chunk_bounds(layout: SectorLayout, k: int)
    requires
        layout.wf(),
        0 <= k < layout.chunks(),
    ensures
        (k + 1) * layout.chunk_size <= layout.size,
        k * layout.chunk_size + layout.chunk_size <= layout.size,
        (k + 1) * layout.chunk_size == k * layout.chunk_size + layout.chunk_size,
        0 <= k * layout.chunk_size,
        layout.chunks() * layout.chunk_size <= layout.size,
{
    let c = layout.chunk_size as int;
    let n = layout.size as int / c;
    assert(n * c <= layout.size as int) by (nonlinear_arith)
        requires
            c > 0,
            n == layout.size as int / c,
    ;
    assert((k + 1) * c <= n * c) by (nonlinear_arith)
        requires
            k + 1 <= n,
            c > 0,
    ;
    assert(0 <= k * c) by (nonlinear_arith)
        requires
            0 <= k,
            c > 0,
    ;
    assert((k + 1) * c == k * c + c) by (nonlinear_arith);
}

/// The address of the first erased chunk of a sector image, if any.
pub fn find_first_empty_chunk_pos(layout: SectorLayout, image: &[u8]) -> (r: Option<usize>)
    requires
        layout.wf(),
        image@.len() == layout.size,
    ensures
        r is None ==> forall|k: int|
            0 <= k < layout.chunks() ==> !all_erased(#[trigger] layout.chunk_bytes(image@, k)),
        r is Some ==> exists|k: int|
            0 <= k < layout.chunks() && r->Some_0 == layout.chunk_pos(k) && all_erased(
                #[trigger] layout.chunk_bytes(image@, k),
            ) && forall|j: int|
                0 <= j < k ==> !all_erased(#[trigger] layout.chunk_bytes(image@, j)),
{
    let count = layout.size / layout.chunk_size;
    let mut k: usize = 0;
    while k < count
        invariant
            layout.wf(),
            image@.len() == layout.size,
            count == layout.chunks(),
            k <= count,
            forall|j: int| 0 <= j < k ==> !all_erased(#[trigger] layout.chunk_bytes(image@, j)),
        decreases count - k,
    {
        proof {
            lemma_chunk_bounds(layout, k as int);
        }
        let start = k * layout.chunk_size;
        let end = start + layout.chunk_size;
        let mut i: usize = start;
        let mut erased = true;
        while i < end
            invariant
                start <= i <= end,
                end <= image@.len(),
                erased == forall|m: int| start <= m < i ==> image@[m] == ERASED,
            decreases end - i,
        {
            if image[i] != ERASED {
                erased = false;
            }
            i = i + 1;
        }
        proof {
            let b = layout.chunk_bytes(image@, k as int);
            assert(b =~= image@.subrange(start as int, end as int));
            if erased {
                assert(all_erased(b));
            } else {
                let m = choose|m: int| start <= m < end && image@[m] != ERASED;
                assert(b[m - start] != ERASED);
            }
        }
        if erased {
            proof {
                assert(layout.chunk_pos(k as int) == layout.offset + k * layout.chunk_size);
            }
            return Some(layout.offset + start);
        }
        k = k + 1;
    }
    None
}

/// The address of the last written chunk of a sector image: the one before
/// the first erased chunk; an erased first chunk means the sector holds no
/// record, and a sector without an erased chunk is full, its last record
/// ending at the end of the sector.
pub fn find_last_chunk_pos(layout: SectorLayout, image: &[u8]) -> (r: Option<usize>)
    requires
        layout.wf(),
        layout.size >= layout.chunk_size,
        image@.len() == layout.size,
    ensures
        all_erased(layout.chunk_bytes(image@, 0)) ==> r is None,
        (forall|k: int|
            0 <= k < layout.chunks() ==> !all_erased(#[trigger] layout.chunk_bytes(image@, k)))
            ==> r == Some((layout.offset + layout.size - layout.chunk_size) as usize),
        r is Some && r != Some((layout.offset + layout.size - layout.chunk_size) as usize)
            ==> exists|k: int|
            1 <= k < layout.chunks() && r->Some_0 == layout.chunk_pos(k - 1) && !all_erased(
                #[trigger] layout.chunk_bytes(image@, k - 1),
            ) && all_erased(layout.chunk_bytes(image@, k)),
{
    proof {
        assert(layout.size as int / layout.chunk_size as int >= 1) by (nonlinear_arith)
            requires
                layout.size >= layout.chunk_size,
                layout.chunk_size > 0,
        ;
        lemma_chunk_bounds(layout, 0);
    }
    match find_first_empty_chunk_pos(layout, image) {
        Some(pos) => {
            proof {
                let k = choose|k: int|
                    0 <= k < layout.chunks() && pos == layout.chunk_pos(k) && all_erased(
                        #[trigger] layout.chunk_bytes(image@, k),
                    ) && forall|j: int|
                        0 <= j < k ==> !all_erased(#[trigger] layout.chunk_bytes(image@, j));
                if k == 0 {
                    assert(pos == layout.offset);
                } else {
                    assert(k * layout.chunk_size > 0) by (nonlinear_arith)
                        requires
                            k >= 1,
                            layout.chunk_size > 0,
                    ;
                    assert(pos != layout.offset);
                }
            }
            if pos == layout.offset {
                proof {
                    let k = choose|k: int|
                        0 <= k < layout.chunks() && pos == layout.chunk_pos(k) && all_erased(
                            #[trigger] layout.chunk_bytes(image@, k),
                        ) && forall|j: int|
                            0 <= j < k ==> !all_erased(#[trigger] layout.chunk_bytes(image@, j));
                    assert(k == 0) by (nonlinear_arith)
                        requires
                            k * layout.chunk_size == 0,
                            layout.chunk_size > 0,
                            k >= 0,
                    ;
                }
                return None;
            }
            proof {
                let k = choose|k: int|
                    0 <= k < layout.chunks() && pos == layout.chunk_pos(k) && all_erased(
                        #[trigger] layout.chunk_bytes(image@, k),
                    ) && forall|j: int|
                        0 <= j < k ==> !all_erased(#[trigger] layout.chunk_bytes(image@, j));
                assert(k != 0);
                assert((k - 1) * layout.chunk_size == k * layout.chunk_size - layout.chunk_size)
                    by (nonlinear_arith);
                assert(!all_erased(layout.chunk_bytes(image@, k - 1)));
                assert(layout.chunk_pos(k - 1) == pos - layout.chunk_size);
                lemma_chunk_bounds(layout, k);
                assert(pos - layout.chunk_size != layout.offset + layout.size - layout.chunk_size);
            }
            Some(pos - layout.chunk_size)
        },
        None => Some(layout.offset + layout.size - layout.chunk_size),
    }
}

} // verus!
