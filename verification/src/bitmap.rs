//! Fixed-granularity free/used bit tracker over a byte buffer.
//!
//! Bit `i` of the map lives in byte `i / 8` at position `i % 8`; a set bit
//! means "unit `i` is allocated". Every page pool in the kernel is built on
//! this structure.

use vstd::prelude::*;

verus! {

/// True when bit `k` of byte `b` is set.
pub open spec fn nth_bit(b: u8, k: u8) -> bool {
    b & (1u8 << k) != 0
}

/// The sequence of bits stored by a byte buffer, least significant bit of
/// byte 0 first.
pub open spec fn bits_of(buf: Seq<u8>) -> Seq<bool> {
    Seq::new(buf.len() * 8, |i: int| nth_bit(buf[i / 8], (i % 8) as u8))
}

/// `n` consecutive clear bits starting at `i`.
pub open spec fn free_run(s: Seq<bool>, i: int, n: int) -> bool {
    forall|j: int| i <= j < i + n ==> !s[j]
}

/// The bit sequence `s` with the range `[start, start + n)` replaced by `v`.
pub open spec fn filled(s: Seq<bool>, start: int, n: int, v: bool) -> Seq<bool> {
    Seq::new(
        s.len(),
        |i: int|
            if start <= i < start + n {
                v
            } else {
                s[i]
            },
    )
}

/// Law: filling a clear range and then clearing the same range restores the
/// original map.
pub proof fn lemma_fill_round_trip(s: Seq<bool>, start: int, n: int)
    requires
        0 <= start,
        0 <= n,
        start + n <= s.len(),
        free_run(s, start, n),
    ensures
        filled(filled(s, start, n, true), start, n, false) == s,
{
    assert(filled(filled(s, start, n, true), start, n, false) =~= s);
}

proof fn lemma_bit_or(x: u8, k: u8, j: u8)
    by (bit_vector)
    requires
        k < 8,
        j < 8,
    ensures
        ((x | (1u8 << k)) & (1u8 << j) != 0) <==> (j == k || x & (1u8 << j) != 0),
{
}

proof fn lemma_bit_clear(x: u8, k: u8, j: u8)
    by (bit_vector)
    requires
        k < 8,
        j < 8,
    ensures
        ((x & !(1u8 << k)) & (1u8 << j) != 0) <==> (j != k && x & (1u8 << j) != 0),
{
}

proof fn lemma_byte_zero(j: u8)
    by (bit_vector)
    requires
        j < 8,
    ensures
        0u8 & (1u8 << j) == 0,
{
}

proof fn lemma_byte_full(x: u8, j: u8)
    by (bit_vector)
    requires
        j < 8,
        x == 0xffu8,
    ensures
        x & (1u8 << j) != 0,
{
}

proof fn lemma_not_full_has_clear_bit(x: u8)
    by (bit_vector)
    requires
        x != 0xffu8,
    ensures
        x & (1u8 << 0) == 0 || x & (1u8 << 1) == 0 || x & (1u8 << 2) == 0 || x & (1u8 << 3) == 0
            || x & (1u8 << 4) == 0 || x & (1u8 << 5) == 0 || x & (1u8 << 6) == 0 || x & (1u8 << 7)
            == 0,
{
}

/// Bits of `x | (0xff << s)`: everything from `s` upward is set, the rest
/// keeps the bits of `x`.
proof fn lemma_high_mask_set(x: u8, s: u8, j: u8)
    by (bit_vector)
    requires
        s < 8,
        j < 8,
    ensures
        ((x | (0xffu8 << s)) & (1u8 << j) != 0) <==> (j >= s || x & (1u8 << j) != 0),
{
}

proof fn lemma_high_mask_clear(x: u8, s: u8, j: u8)
    by (bit_vector)
    requires
        s < 8,
        j < 8,
    ensures
        ((x & !(0xffu8 << s)) & (1u8 << j) != 0) <==> (j < s && x & (1u8 << j) != 0),
{
}

/// Bits of `x | (0xff >> (8 - e))`: everything below `e` is set, the rest
/// keeps the bits of `x`.
proof fn lemma_low_mask_set(x: u8, e: u8, j: u8)
    by (bit_vector)
    requires
        0 < e < 8,
        j < 8,
    ensures
        ((x | (0xffu8 >> (8 - e) as u8)) & (1u8 << j) != 0) <==> (j < e || x & (1u8 << j) != 0),
{
}

proof fn lemma_low_mask_clear(x: u8, e: u8, j: u8)
    by (bit_vector)
    requires
        0 < e < 8,
        j < 8,
    ensures
        ((x & !(0xffu8 >> (8 - e) as u8)) & (1u8 << j) != 0) <==> (j >= e && x & (1u8 << j) != 0),
{
}

/// Bits of `fill_byte(x, i, n, true)`: positions in `[i, i + n)` are set,
/// the rest keep the bits of `x`.
proof fn lemma_fill_byte_set(x: u8, i: u8, e: u8, j: u8)
    by (bit_vector)
    requires
        i <= e,
        e < 8,
        j < 8,
    ensures
        ((x | (0xffu8 << i & !(0xffu8 << e))) & (1u8 << j) != 0) <==> ((i <= j < e) || x & (1u8
            << j) != 0),
{
}

proof fn lemma_fill_byte_clear(x: u8, i: u8, e: u8, j: u8)
    by (bit_vector)
    requires
        i <= e,
        e < 8,
        j < 8,
    ensures
        ((x & !(0xffu8 << i & !(0xffu8 << e))) & (1u8 << j) != 0) <==> (!(i <= j < e) && x & (1u8
            << j) != 0),
{
}

/// Bit `b * 8 + k` of the buffer lies in byte `b` at position `k`.
proof fn lemma_bit_index(b: int, k: int)
    by (nonlinear_arith)
    requires
        0 <= b,
        0 <= k < 8,
    ensures
        (b * 8 + k) / 8 == b,
        (b * 8 + k) % 8 == k,
{
}

/// The byte and position of bit `p` recombine to `p`.
proof fn lemma_bit_split(p: int)
    by (nonlinear_arith)
    requires
        0 <= p,
    ensures
        p == (p / 8) * 8 + p % 8,
        0 <= p % 8 < 8,
        0 <= p / 8,
        p / 8 <= p,
{
}

/// Fill `n` bits of one byte, starting from low bit `i`.
fn fill_byte(x: u8, i: usize, n: usize, test: bool) -> (r: u8)
    requires
        i + n < 8,
    ensures
        forall|j: u8|
            j < 8 ==> (nth_bit(r, j) <==> (if i <= j < i + n {
                test
            } else {
                nth_bit(x, j)
            })),
{
    let ii = i as u8;
    let e = (i + n) as u8;
    let msk: u8 = 0xffu8 << ii & !(0xffu8 << e);
    let r = if test {
        x | msk
    } else {
        x & !msk
    };
    proof {
        assert forall|j: u8| j < 8 implies (nth_bit(r, j) <==> (if i <= j < i + n {
            test
        } else {
            nth_bit(x, j)
        })) by {
            if test {
                lemma_fill_byte_set(x, ii, e, j);
            } else {
                lemma_fill_byte_clear(x, ii, e, j);
            }
        }
    }
    r
}

/// View a byte buffer as a map of allocation bits.
pub struct Bitmap {
    pub buf: Vec<u8>,
}

impl View for Bitmap {
    type V = Seq<bool>;

    open spec fn view(&self) -> Seq<bool> {
        bits_of(self.buf@)
    }
}

impl Bitmap {
    /// An all-clear map of `len` bytes.
    pub fn new(len: usize) -> (r: Bitmap)
        ensures
            r.buf@.len() == len,
            r@.len() == len * 8,
            forall|i: int| 0 <= i < r@.len() ==> !r@[i],
    {
        let mut buf: Vec<u8> = Vec::new();
        let mut i: usize = 0;
        while i < len
            invariant
                i <= len,
                buf@.len() == i,
                forall|k: int| 0 <= k < i ==> buf@[k] == 0u8,
            decreases len - i,
        {
            buf.push(0);
            i += 1;
        }
        let r = Bitmap { buf };
        proof {
            assert forall|p: int| 0 <= p < r@.len() implies !r@[p] by {
                lemma_bit_split(p);
                lemma_byte_zero((p % 8) as u8);
            }
        }
        r
    }

    /// Clear every bit.
    pub fn init(&mut self)
        ensures
            final(self).buf@.len() == old(self).buf@.len(),
            final(self)@.len() == old(self)@.len(),
            forall|i: int| 0 <= i < final(self)@.len() ==> !final(self)@[i],
    {
        let len = self.buf.len();
        let mut i: usize = 0;
        while i < len
            invariant
                i <= len,
                self.buf@.len() == len,
                forall|k: int| 0 <= k < i ==> self.buf@[k] == 0u8,
            decreases len - i,
        {
            self.buf.set(i, 0);
            i += 1;
        }
        proof {
            assert forall|p: int| 0 <= p < self@.len() implies !self@[p] by {
                lemma_bit_split(p);
                lemma_byte_zero((p % 8) as u8);
            }
        }
    }

    /// Number of bits tracked by the map.
    pub fn bits(&self) -> (r: usize)
        requires
            self.buf@.len() * 8 <= usize::MAX,
        ensures
            r == self@.len(),
    {
        self.buf.len() * 8
    }

    /// Whether unit `bit_i` is allocated.
    pub fn test(&self, bit_i: usize) -> (r: bool)
        requires
            bit_i < self@.len(),
        ensures
            r == self@[bit_i as int],
    {
        let j = bit_i / 8;
        let k = bit_i % 8;
        proof {
            lemma_bit_split(bit_i as int);
        }
        self.buf[j] & (1u8 << (k as u8)) != 0
    }

    /// Search for `bits` consecutive free units. Returns the lowest starting
    /// index carrying such a run, or -1 when no run exists anywhere in the
    /// map. The map itself is not changed.
    pub fn try_alloc(&self, bits: usize) -> (r: isize)
        requires
            1 <= bits,
            self.buf@.len() * 8 <= isize::MAX,
        ensures
            r >= 0 ==> r + bits <= self@.len() && free_run(self@, r as int, bits as int) && (
            forall|i: int| 0 <= i < r ==> !free_run(self@, i, bits as int)),
            r < 0 ==> r == -1 && (forall|i: int|
                0 <= i && i + bits <= self@.len() ==> !free_run(self@, i, bits as int)),
    {
        let len = self.buf.len();

        // find the first byte with a free unit
        let mut byte_i: usize = 0;
        while byte_i < len && self.buf[byte_i] == 0xff
            invariant
                byte_i <= len,
                len == self.buf@.len(),
                forall|b: int| 0 <= b < byte_i ==> self.buf@[b] == 0xffu8,
            decreases len - byte_i,
        {
            byte_i += 1;
        }
        proof {
            assert forall|p: int| 0 <= p < byte_i * 8 implies self@[p] by {
                lemma_bit_split(p);
                lemma_byte_full(self.buf@[p / 8], (p % 8) as u8);
            }
        }

        if byte_i >= len {
            proof {
                assert forall|i: int|
                    0 <= i && i + bits <= self@.len() implies !free_run(
                    self@,
                    i,
                    bits as int,
                ) by {
                    assert(self@[i]);
                }
            }
            return -1;
        }

        // find the first free unit of that byte
        let bt = self.buf[byte_i];
        let mut bit_i: usize = 0;
        while bit_i < 8 && (bt & (1u8 << (bit_i as u8))) != 0
            invariant
                bit_i <= 8,
                forall|k: u8| k < bit_i ==> nth_bit(bt, k),
            decreases 8 - bit_i,
        {
            bit_i += 1;
        }
        proof {
            if bit_i >= 8 {
                lemma_not_full_has_clear_bit(bt);
                assert(nth_bit(bt, 0));
                assert(nth_bit(bt, 1));
                assert(nth_bit(bt, 2));
                assert(nth_bit(bt, 3));
                assert(nth_bit(bt, 4));
                assert(nth_bit(bt, 5));
                assert(nth_bit(bt, 6));
                assert(nth_bit(bt, 7));
                assert(false);
            }
        }
        let start = byte_i * 8 + bit_i;
        proof {
            lemma_bit_index(byte_i as int, bit_i as int);
            assert forall|p: int| 0 <= p < start implies self@[p] by {
                lemma_bit_split(p);
                if p / 8 == byte_i {
                    assert(nth_bit(bt, (p % 8) as u8));
                } else {
                    lemma_byte_full(self.buf@[p / 8], (p % 8) as u8);
                }
            }
        }

        proof {
            assert forall|j: int|
                0 <= j && j + bits <= start implies !free_run(self@, j, bits as int) by {
                assert(self@[j]);
            }
        }

        // scan for a run of `bits` consecutive free units
        let total = len * 8;
        let mut cnt: usize = 0;
        let mut i: usize = start;
        while i < total
            invariant
                1 <= bits,
                start <= i <= total,
                total == self@.len(),
                self.buf@.len() * 8 <= isize::MAX,
                cnt < bits,
                cnt <= i,
                forall|j: int| i - cnt <= j < i ==> !self@[j],
                i - cnt == 0 || self@[i - cnt - 1],
                forall|j: int| 0 <= j && j + bits <= i ==> !free_run(self@, j, bits as int),
            decreases total - i,
        {
            if self.test(i) {
                cnt = 0;
                proof {
                    assert forall|j: int|
                        0 <= j && j + bits <= i + 1 implies !free_run(self@, j, bits as int) by {
                        if j + bits == i + 1 {
                            assert(self@[i as int]);
                        }
                    }
                }
            } else {
                let ghost cnt0 = cnt as int;
                cnt += 1;
                if cnt == bits {
                    let r = i + 1 - bits;
                    proof {
                        assert(free_run(self@, r as int, bits as int));
                    }
                    return r as isize;
                }
                proof {
                    assert forall|j: int|
                        0 <= j && j + bits <= i + 1 implies !free_run(self@, j, bits as int) by {
                        if j + bits == i + 1 {
                            // the run ending here is shorter than `bits`, so the
                            // window reaches back past a unit known to be set
                            assert(j < i - cnt0);
                            assert(self@[i - cnt0 - 1]);
                            assert(j <= i - cnt0 - 1 < j + bits);
                        }
                    }
                }
            }
            i += 1;
        }
        -1
    }

    /// Mark the whole range `[start_bit, start_bit + n)` allocated
    /// (`test == true`) or free (`test == false`), leaving every bit outside
    /// the range as it was. Runs crossing byte boundaries fill whole middle
    /// bytes at once; partial bytes at either end are masked.
    pub fn fill_n(&mut self, start_bit: usize, n: usize, test: bool)
        requires
            start_bit + n <= old(self)@.len(),
            old(self).buf@.len() * 8 <= usize::MAX,
        ensures
            final(self).buf@.len() == old(self).buf@.len(),
            final(self)@.len() == old(self)@.len(),
            forall|i: int|
                0 <= i < final(self)@.len() ==> final(self)@[i] == (if start_bit <= i < start_bit
                    + n {
                    test
                } else {
                    old(self)@[i]
                }),
            final(self)@ == filled(old(self)@, start_bit as int, n as int, test),
    {
        if n == 0 {
            proof {
                assert(self@ =~= filled(old(self)@, start_bit as int, n as int, test));
            }
            return ;
        }
        let end = start_bit + n;
        let x = start_bit / 8 + 1;
        let y = end / 8;
        proof {
            lemma_bit_split(start_bit as int);
            lemma_bit_split(end as int);
        }

        if y >= x {
            let fill: u8 = if test {
                0xff
            } else {
                0
            };
            let mut b = x;
            while b < y
                invariant
                    x <= b <= y,
                    y <= self.buf@.len(),
                    self.buf@.len() == old(self).buf@.len(),
                    forall|k: int| x <= k < b ==> self.buf@[k] == fill,
                    forall|k: int|
                        0 <= k < self.buf@.len() && !(x <= k < b) ==> self.buf@[k] == old(
                            self,
                        ).buf@[k],
                decreases y - b,
            {
                self.buf.set(b, fill);
                b += 1;
            }

            let s = (start_bit % 8) as u8;
            let head = if test {
                self.buf[x - 1] | (0xffu8 << s)
            } else {
                self.buf[x - 1] & !(0xffu8 << s)
            };
            self.buf.set(x - 1, head);

            if end % 8 > 0 {
                let e = (end % 8) as u8;
                let tail = if test {
                    self.buf[y] | (0xffu8 >> (8 - e))
                } else {
                    self.buf[y] & !(0xffu8 >> (8 - e))
                };
                self.buf.set(y, tail);
            }

            proof {
                let s0 = old(self)@;
                let bs = start_bit as int;
                let be = end as int;
                assert forall|i: int| 0 <= i < final(self)@.len() implies final(self)@[i] == (if bs
                    <= i < be {
                    test
                } else {
                    s0[i]
                }) by {
                    lemma_bit_split(i);
                    let bb = i / 8;
                    let k = (i % 8) as u8;
                    if bb == x - 1 {
                        if test {
                            lemma_high_mask_set(old(self).buf@[bb], s, k);
                        } else {
                            lemma_high_mask_clear(old(self).buf@[bb], s, k);
                        }
                    } else if x <= bb < y {
                        if test {
                            lemma_byte_full(0xffu8, k);
                        } else {
                            lemma_byte_zero(k);
                        }
                    } else if bb == y && be % 8 > 0 {
                        if test {
                            lemma_low_mask_set(old(self).buf@[bb], (be % 8) as u8, k);
                        } else {
                            lemma_low_mask_clear(old(self).buf@[bb], (be % 8) as u8, k);
                        }
                    }
                }
                assert(self@ =~= filled(old(self)@, start_bit as int, n as int, test));
            }
        } else {
            let i = start_bit % 8;
            proof {
                // end / 8 < start_bit / 8 + 1 pins the run inside one byte
                assert(start_bit % 8 + n < 8);
            }
            let nb = fill_byte(self.buf[x - 1], i, n, test);
            self.buf.set(x - 1, nb);
            proof {
                let s0 = old(self)@;
                let bs = start_bit as int;
                let be = end as int;
                assert forall|p: int| 0 <= p < final(self)@.len() implies final(self)@[p] == (if bs
                    <= p < be {
                    test
                } else {
                    s0[p]
                }) by {
                    lemma_bit_split(p);
                }
                assert(self@ =~= filled(old(self)@, start_bit as int, n as int, test));
            }
        }
    }

    /// Mark unit `bit_i` allocated (`v == true`) or free (`v == false`),
    /// leaving every other unit as it was.
    pub fn set(&mut self, bit_i: usize, v: bool)
        requires
            bit_i < old(self)@.len(),
        ensures
            final(self).buf@.len() == old(self).buf@.len(),
            final(self)@.len() == old(self)@.len(),
            final(self)@[bit_i as int] == v,
            forall|i: int|
                0 <= i < final(self)@.len() && i != bit_i ==> final(self)@[i] == old(self)@[i],
    {
        let j = bit_i / 8;
        let k = bit_i % 8;
        proof {
            lemma_bit_split(bit_i as int);
        }
        let msk: u8 = if v {
            1u8 << (k as u8)
        } else {
            !(1u8 << (k as u8))
        };
        let b = if v {
            self.buf[j] | msk
        } else {
            self.buf[j] & msk
        };
        self.buf.set(j, b);
        proof {
            let jj = bit_i as int / 8;
            let kk = (bit_i as int % 8) as u8;
            if v {
                lemma_bit_or(old(self).buf@[jj], kk, kk);
            } else {
                lemma_bit_clear(old(self).buf@[jj], kk, kk);
            }
            assert forall|i: int| 0 <= i < self@.len() && i != bit_i implies self@[i] == old(
                self,
            )@[i] by {
                lemma_bit_split(i);
                if i / 8 == jj {
                    if v {
                        lemma_bit_or(old(self).buf@[jj], kk, (i % 8) as u8);
                    } else {
                        lemma_bit_clear(old(self).buf@[jj], kk, (i % 8) as u8);
                    }
                }
            }
        }
    }
}

} // verus!
