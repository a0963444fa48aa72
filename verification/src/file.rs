//! File logic: searching a sequence block by block, reading through the
//! cache with the changes applied, and the block plan of inserting bytes.
use std::collections::BTreeMap;
use vstd::prelude::*;
use vstd::std_specs::iter::IteratorSpec;

verus! {

broadcast use {vstd::std_specs::btree::group_btree_axioms, vstd::laws_cmp::group_laws_cmp};

/// Size of the block for read/write operations (and of the cache).
pub const BLOCK_SIZE: usize = 4096;

/// Progress handler interface for long time operations.
pub trait ProgressHandler {
    /// Update progress (percent of completion); `false` if the operation is
    /// aborted by the user.
    fn update(&mut self, percent: u8) -> bool;
}

/// The sequence occurs in the data at position `i`.
pub open spec fn matches_at(data: Seq<u8>, seq: Seq<u8>, i: int) -> bool {
    0 <= i && i + seq.len() <= data.len() && data.subrange(i, i + seq.len()) == seq
}

/// Position of the first (or, `backward`, the last) occurrence of the
/// sequence in the data.
pub open spec fn is_window_position(data: Seq<u8>, seq: Seq<u8>, backward: bool, i: int) -> bool {
    &&& matches_at(data, seq, i)
    &&& forall|j: int| #[trigger] matches_at(data, seq, j) ==> if backward {
        j <= i
    } else {
        i <= j
    }
}

/// Whether the sequence at `data[i..]` equals `seq`.
fn window_equals(data: &[u8], seq: &[u8], i: usize) -> (r: bool)
    requires
        i + seq@.len() <= data@.len(),
    ensures
        r == matches_at(data@, seq@, i as int),
{
    let n = data.len();
    let mut k: usize = 0;
    while k < seq.len()
        invariant
            n == data@.len(),
            i + seq@.len() <= data@.len(),
            k <= seq@.len(),
            forall|m: int| 0 <= m < k ==> data@[i + m] == seq@[m],
        decreases seq.len() - k,
    {
        if data[i + k] != seq[k] {
            assert(data@.subrange(i as int, i + seq@.len())[k as int] != seq@[k as int]);
            return false;
        }
        k = k + 1;
    }
    assert(data@.subrange(i as int, i + seq@.len()) =~= seq@);
    true
}

/// Position of the first (or, `backward`, the last) occurrence of a
/// sequence in the data, as `windows(..).position(..)` and `rposition`
/// find it.
pub fn window_position(data: &[u8], seq: &[u8], backward: bool) -> (r: Option<usize>)
    requires
        seq@.len() > 0,
    ensures
        match r {
            Some(i) => is_window_position(data@, seq@, backward, i as int),
            None => forall|j: int| !#[trigger] matches_at(data@, seq@, j),
        },
{
    let n = data.len();
    if seq.len() > n {
        return None;
    }
    let last = n - seq.len();
    if !backward {
        let mut i: usize = 0;
        while i <= last
            invariant
                !backward,
                n == data@.len(),
                seq@.len() > 0,
                last == data@.len() - seq@.len(),
                i <= last + 1,
                forall|j: int| 0 <= j < i ==> !#[trigger] matches_at(data@, seq@, j),
            decreases last + 1 - i,
        {
            if window_equals(data, seq, i) {
                return Some(i);
            }
            i = i + 1;
        }
        None
    } else {
        let mut i: usize = last + 1;
        while i > 0
            invariant
                backward,
                n == data@.len(),
                seq@.len() > 0,
                last == data@.len() - seq@.len(),
                i <= last + 1,
                forall|j: int| i <= j ==> !#[trigger] matches_at(data@, seq@, j),
            decreases i,
        {
            if window_equals(data, seq, i - 1) {
                return Some(i - 1);
            }
            i = i - 1;
        }
        None
    }
}

/// One step of a search.
#[derive(Clone, Copy, PartialEq, Eq, Structural, Debug)]
pub enum FindStep {
    /// The sequence starts at this offset.
    Found(u64),
    /// The whole file was searched.
    NotFound,
    /// Read the next block.
    Continue,
}

/// State of a search through a file, block by block, from a position
/// around to it again.
#[derive(Clone, Copy, PartialEq, Eq, Structural, Debug)]
pub struct Finder {
    /// Start address.
    pub start: u64,
    /// File size.
    pub size: u64,
    /// Search direction.
    pub backward: bool,
    /// Offset of the current block.
    pub offset: u64,
    /// The search went round the end of the file.
    pub round: bool,
}

/// Offset of the next block to read and the state after it, or `None`
/// once a backward search went round to its start.
pub open spec fn spec_next_block(f: Finder) -> Option<Finder> {
    if f.backward {
        if f.round && f.offset < f.start {
            None
        } else if f.offset >= BLOCK_SIZE {
            Some(Finder { offset: (f.offset - BLOCK_SIZE) as u64, ..f })
        } else {
            Some(
                Finder {
                    offset: if f.size < BLOCK_SIZE {
                        0
                    } else {
                        (f.size - BLOCK_SIZE) as u64
                    },
                    round: true,
                    ..f
                },
            )
        }
    } else if f.offset >= f.size {
        Some(Finder { offset: 0, round: true, ..f })
    } else {
        Some(f)
    }
}

impl Finder {
    /// Start a search next to (`backward`: before) the start address.
    pub fn new(start: u64, size: u64, backward: bool) -> (r: Finder)
        requires
            start <= size,
            backward ==> size > 0,
            size <= u64::MAX - BLOCK_SIZE,
        ensures
            r.start == start,
            r.size == size,
            r.backward == backward,
            !r.round,
            r.offset == (if backward {
                (if start == 0 {
                    size as int
                } else {
                    start as int
                }) - 1
            } else {
                start + 1
            }),
    {
        let mut offset = start;
        if backward {
            if offset == 0 {
                offset = size;
            }
            offset = offset - 1;
        } else {
            offset = offset + 1;
        }
        Finder { start, size, backward, offset, round: false }
    }

    /// Offset of the next block to read, or `None` where a backward search
    /// is over.
    pub fn next_block(&mut self) -> (r: Option<u64>)
        ensures
            match spec_next_block(*old(self)) {
                Some(f) => r == Some(f.offset) && *final(self) == f,
                None => r is None && *final(self) == *old(self),
            },
    {
        if self.backward {
            if self.round && self.offset < self.start {
                return None;
            }
            if self.offset >= BLOCK_SIZE as u64 {
                self.offset = self.offset - BLOCK_SIZE as u64;
            } else {
                if self.size < BLOCK_SIZE as u64 {
                    self.offset = 0;
                } else {
                    self.offset = self.size - BLOCK_SIZE as u64;
                }
                self.round = true;
            }
        } else {
            if self.offset >= self.size {
                self.offset = 0;
                self.round = true;
            }
        }
        Some(self.offset)
    }

    /// Look for the sequence in the block read at the current offset: where
    /// it occurs the search is over, else a forward search moves to the
    /// next block and ends once it went round to its start.
    pub fn block_done(&mut self, data: &[u8], sequence: &[u8]) -> (r: FindStep)
        requires
            sequence@.len() > 0,
            data@.len() <= BLOCK_SIZE,
            old(self).offset <= old(self).size <= u64::MAX - BLOCK_SIZE,
        ensures
            match r {
                FindStep::Found(p) => exists|i: int|
                    is_window_position(data@, sequence@, old(self).backward, i) && p == old(self).offset + i,
                _ => forall|j: int| !#[trigger] matches_at(data@, sequence@, j),
            },
            !old(self).backward ==> final(self).offset == (if r is Found {
                old(self).offset as int
            } else {
                old(self).offset + BLOCK_SIZE
            }),
            old(self).backward ==> final(self).offset == old(self).offset,
            r is NotFound <==> (!(r is Found) && !old(self).backward && old(self).round && final(self).offset
                >= old(self).start),
            final(self).start == old(self).start,
            final(self).size == old(self).size,
            final(self).backward == old(self).backward,
            final(self).round == old(self).round,
    {
        if let Some(pos) = window_position(data, sequence, self.backward) {
            return FindStep::Found(self.offset + pos as u64);
        }
        if !self.backward {
            self.offset = self.offset + BLOCK_SIZE as u64;
            if self.round && self.offset >= self.start {
                return FindStep::NotFound;
            }
        }
        FindStep::Continue
    }
}

/// Data cache.
pub struct Cache {
    /// Cache buffer.
    pub data: Vec<u8>,
    /// Start address of the cache.
    pub start: u64,
}

impl Cache {
    /// Create new cache instance (empty).
    pub fn new() -> (r: Self)
        ensures
            r.data@.len() == 0,
            r.start == 0,
    {
        Cache { data: Vec::with_capacity(BLOCK_SIZE), start: 0 }
    }

    /// Check if cache contains specified range (strictly inside it).
    pub fn has(&self, offset: u64, size: usize) -> (r: bool)
        ensures
            r == (offset >= self.start && offset + size < self.start + self.data@.len()),
    {
        offset >= self.start && (offset as u128) + (size as u128) < (self.start as u128) + (self.data.len() as u128)
    }
}

/// Data with the changes inside it applied: each changed address in
/// `[offset, offset + len)` gets its new value.
pub open spec fn spec_apply_changes(data: Seq<u8>, offset: u64, changes: Map<u64, u8>) -> Seq<u8> {
    Seq::new(
        data.len(),
        |i: int|
            if changes.dom().contains((offset + i) as u64) {
                changes[(offset + i) as u64]
            } else {
                data[i]
            },
    )
}

/// Apply the changes to data read at `offset`.
pub fn apply_changes(data: &mut Vec<u8>, offset: u64, changes: &BTreeMap<u64, u8>)
    requires
        offset + old(data)@.len() <= u64::MAX,
    ensures
        final(data)@ == spec_apply_changes(old(data)@, offset, changes@),
{
    let ghost orig = data@;
    let end = offset + data.len() as u64;
    let keys = changes.keys();
    let ghost all = IteratorSpec::remaining(&keys);
    assert(all.unref().to_set() == changes@.dom());
    for k in it: keys
        invariant
            all == it.seq(),
            all.unref().to_set() == changes@.dom(),
            offset + orig.len() <= u64::MAX,
            end == offset + orig.len(),
            data@.len() == orig.len(),
            forall|i: int|
                0 <= i < orig.len() ==> #[trigger] data@[i] == (if all.unref().take(it.index() as int).contains(
                    (offset + i) as u64,
                ) {
                    changes@[(offset + i) as u64]
                } else {
                    orig[i]
                }),
    {
        let addr = *k;
        let ghost before = data@;
        let ghost t0 = all.unref().take(it.index() as int);
        let ghost t1 = all.unref().take(it.index() + 1);
        proof {
            assert(all.unref()[it.index() as int] == addr);
            assert(t1 =~= t0.push(addr));
            assert forall|x: u64| #[trigger] t1.contains(x) == (t0.contains(x) || x == addr) by {
                if t1.contains(x) && x != addr {
                    let w = choose|w: int| 0 <= w < t1.len() && t1[w] == x;
                    assert(t0[w] == x);
                }
                if t0.contains(x) {
                    let w = choose|w: int| 0 <= w < t0.len() && t0[w] == x;
                    assert(t1[w] == x);
                }
                if x == addr {
                    assert(t1[t0.len() as int] == x);
                }
            }
            assert(all.unref().to_set().contains(addr));
        }
        if addr >= offset && addr < end {
            let value = *changes.get(&addr).unwrap();
            let dlen = data.len();
            assert(addr - offset < dlen);
            let index = (addr - offset) as usize;
            assert(value == changes@[addr]);
            assert(index as int == addr - offset);
            assert((offset + index) as u64 == addr);
            data.set(index, value);
            proof {
                assert forall|i: int| 0 <= i < orig.len() implies #[trigger] data@[i] == (if t1.contains(
                    (offset + i) as u64,
                ) {
                    changes@[(offset + i) as u64]
                } else {
                    orig[i]
                }) by {
                    assert(t1.contains((offset + i) as u64) == (t0.contains((offset + i) as u64) || (offset
                        + i) as u64 == addr));
                    if i != index {
                        assert(before[i] == data@[i]);
                    }
                }
            }
        } else {
            proof {
                assert forall|i: int| 0 <= i < orig.len() implies #[trigger] data@[i] == (if t1.contains(
                    (offset + i) as u64,
                ) {
                    changes@[(offset + i) as u64]
                } else {
                    orig[i]
                }) by {
                    assert(t1.contains((offset + i) as u64) == (t0.contains((offset + i) as u64) || (offset
                        + i) as u64 == addr));
                }
            }
        }
    }
    proof {
        let s = all.unref();
        assert(s.take(s.len() as int) =~= s);
        assert(data@ =~= spec_apply_changes(orig, offset, changes@)) by {
            assert forall|i: int| 0 <= i < orig.len() implies data@[i] == spec_apply_changes(
                orig,
                offset,
                changes@,
            )[i] by {
                assert(s.contains((offset + i) as u64) == s.to_set().contains((offset + i) as u64));
            }
        }
    }
}

/// Size of the next block moved when inserting: a whole block, or what is
/// left above the insertion offset.
pub open spec fn move_size(back_offset: u64, offset: u64, block: int) -> int {
    if back_offset - (if block < back_offset {
        block
    } else {
        back_offset as int
    }) <= offset {
        back_offset - offset
    } else {
        block
    }
}

/// Next block to move while inserting `length` bytes at `offset`, the data
/// above `back_offset` being moved already: the offsets to read it from and
/// to write it to, and its size.
pub fn insert_move(back_offset: u64, offset: u64, length: u64, block: usize) -> (r: (u64, u64, usize))
    requires
        offset < back_offset,
        back_offset + length <= u64::MAX,
        block > 0,
    ensures
        r.2 == move_size(back_offset, offset, block as int),
        0 < r.2 <= block,
        r.0 == back_offset - r.2,
        r.1 == back_offset + length - r.2,
        r.0 >= offset,
{
    let min = if (block as u64) < back_offset {
        block as u64
    } else {
        back_offset
    };
    let mut size = block;
    if back_offset - min <= offset {
        size = (back_offset - offset) as usize;
    }
    (back_offset - size as u64, back_offset + length - size as u64, size)
}

/// Bytes of the repeated pattern from position `pos` on.
pub open spec fn pattern_run(pattern: Seq<u8>, pos: int, size: int) -> Seq<u8> {
    Seq::new(size as nat, |i: int| pattern[(pos + i) % pattern.len() as int])
}

pub proof fn lemma_mod_step(a: int, m: int)
    requires
        a >= 0,
        m > 0,
    ensures
        0 <= a % m < m,
        (a + 1) % m == if a % m + 1 == m {
            0
        } else {
            a % m + 1
        },
{
    vstd::arithmetic::div_mod::lemma_fundamental_div_mod(a, m);
    vstd::arithmetic::div_mod::lemma_mod_bound(a, m);
    let q = a / m;
    let r = a % m;
    assert(a == q * m + r) by (nonlinear_arith)
        requires
            a == m * q + r,
    ;
    if r + 1 == m {
        assert(a + 1 == (q + 1) * m + 0) by (nonlinear_arith)
            requires
                a == q * m + r,
                r + 1 == m,
        ;
        vstd::arithmetic::div_mod::lemma_fundamental_div_mod_converse_mod(a + 1, m, q + 1, 0);
    } else {
        vstd::arithmetic::div_mod::lemma_fundamental_div_mod_converse_mod(a + 1, m, q, r + 1);
    }
}

/// Next block of the fill pattern: `size` bytes of the pattern repeated
/// from position `pos`, and the position after them.
pub fn fill_block(pattern: &[u8], pos: usize, size: usize) -> (r: (Vec<u8>, usize))
    requires
        pattern@.len() > 0,
        pos < pattern@.len(),
    ensures
        r.0@ == pattern_run(pattern@, pos as int, size as int),
        r.1 == (pos + size) % (pattern@.len() as int),
{
    let len = pattern.len();
    proof {
        vstd::arithmetic::div_mod::lemma_small_mod(pos as nat, len as nat);
    }
    let mut data: Vec<u8> = Vec::with_capacity(size);
    let mut p = pos;
    let mut i: usize = 0;
    while i < size
        invariant
            len == pattern@.len(),
            len > 0,
            p < len,
            p == (pos + i) % (len as int),
            i <= size,
            data@ == pattern_run(pattern@, pos as int, i as int),
        decreases size - i,
    {
        data.push(pattern[p]);
        assert(data@ =~= pattern_run(pattern@, pos as int, i + 1));
        p = p + 1;
        if p == len {
            p = 0;
        }
        proof {
            lemma_mod_step(pos + i, len as int);
        }
        i = i + 1;
    }
    (data, p)
}

/// A backward search reads the blocks below the current one, one block
/// lower each time; once it is within a block of the start of the file it
/// goes round to the block that ends at the end of the file (the whole file
/// where it is smaller than a block). It stops only after going round and
/// passing below its start.
pub proof fn law_backward_blocks(f: Finder)
    requires
        f.backward,
    ensures
        spec_next_block(f) is None <==> f.round && f.offset < f.start,
        spec_next_block(f) matches Some(n) ==> {
            &&& n.start == f.start && n.size == f.size && n.backward
            &&& f.offset >= BLOCK_SIZE ==> n.offset + BLOCK_SIZE == f.offset && n.round == f.round
            &&& f.offset < BLOCK_SIZE ==> n.round && n.offset + (if f.size < BLOCK_SIZE {
                f.size as int
            } else {
                BLOCK_SIZE as int
            }) == f.size
        },
{
}

/// A forward search reads the block at its offset while that lies in the
/// file, and goes round to the first block of the file past its end.
pub proof fn law_forward_blocks(f: Finder)
    requires
        !f.backward,
    ensures
        spec_next_block(f) matches Some(n) && n.start == f.start && n.size == f.size && !n.backward && (if f.offset
            < f.size {
            n.offset == f.offset && n.round == f.round
        } else {
            n.offset == 0 && n.round
        }),
{
}

/// Inserting moves the data above the insertion offset a block at a time,
/// from the top: a whole block, or what is left above the offset where
/// that is less.
pub proof fn law_insert_block_size(back_offset: u64, offset: u64, block: int)
    requires
        offset < back_offset,
        block > 0,
    ensures
        move_size(back_offset, offset, block) == if back_offset - offset < block {
            back_offset - offset
        } else {
            block
        },
{
}

/// Filling goes on where the last block stopped: the run of the pattern
/// over `a` bytes, followed by the run from the position where it stopped
/// over `b` bytes, is the run over `a + b` bytes; a run starts with the
/// pattern byte at its position.
pub proof fn law_fill_runs_continue(pattern: Seq<u8>, pos: int, a: int, b: int)
    requires
        pattern.len() > 0,
        0 <= pos,
        0 <= a,
        0 <= b,
    ensures
        pattern_run(pattern, pos, a) + pattern_run(pattern, (pos + a) % pattern.len() as int, b) == pattern_run(
            pattern,
            pos,
            a + b,
        ),
        a > 0 && pos < pattern.len() ==> pattern_run(pattern, pos, a)[0] == pattern[pos],
{
    let n = pattern.len() as int;
    if a > 0 && pos < n {
        vstd::arithmetic::div_mod::lemma_small_mod(pos as nat, n as nat);
    }
    let l = pattern_run(pattern, pos, a) + pattern_run(pattern, (pos + a) % n, b);
    let r = pattern_run(pattern, pos, a + b);
    assert forall|i: int| a <= i < a + b implies l[i] == r[i] by {
        vstd::arithmetic::div_mod::lemma_add_mod_noop(pos + a, i - a, n);
        vstd::arithmetic::div_mod::lemma_mod_twice(i - a, n);
        vstd::arithmetic::div_mod::lemma_add_mod_noop((pos + a) % n, i - a, n);
        vstd::arithmetic::div_mod::lemma_mod_twice(pos + a, n);
    }
    assert(l =~= r);
}

} // verus!
