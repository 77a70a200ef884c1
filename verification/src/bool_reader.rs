//! Reading bit-packed booleans, least significant bit first.

use vstd::prelude::*;

verus! {

/// A cursor over a buffer of bytes.
pub struct ReadCursor {
    data: Vec<u8>,
    offset: usize,
}

impl ReadCursor {
    #[verifier::type_invariant]
    spec fn inv(self) -> bool {
        self.offset <= self.data@.len()
    }

    /// The bytes of the buffer.
    pub closed spec fn bytes(&self) -> Seq<u8> {
        self.data@
    }

    /// The position of the next byte to read.
    pub closed spec fn offset(&self) -> nat {
        self.offset as nat
    }

    /// A cursor at the start of `data`.
    pub fn new(data: Vec<u8>) -> (r: ReadCursor)
        ensures
            r.bytes() == data@,
            r.offset() == 0,
    {
        ReadCursor { data, offset: 0 }
    }

    /// How many bytes are left to read.
    pub fn remaining(&self) -> (r: usize)
        ensures
            r == self.bytes().len() - self.offset(),
    {
        proof {
            use_type_invariant(self);
        }
        self.data.len() - self.offset
    }

    /// The next byte, without moving the cursor.
    pub fn peek_next_unchecked(&self) -> (r: u8)
        requires
            self.offset() < self.bytes().len(),
        ensures
            r == self.bytes()[self.offset() as int],
    {
        self.data[self.offset]
    }

    /// Moves the cursor `n` bytes forward.
    pub fn skip_bytes_unchecked(&mut self, n: usize)
        requires
            old(self).offset() + n <= old(self).bytes().len(),
        ensures
            final(self).bytes() == old(self).bytes(),
            final(self).offset() == old(self).offset() + n,
    {
        proof {
            use_type_invariant(&*self);
            assert(self.data@.len() == self.data.len());
        }
        self.offset = self.offset + n;
    }
}

/// Bit `i` of a bit-packed buffer: bit `i % 8` (counted from the least
/// significant) of byte `i / 8`.
pub open spec fn bit_at(bytes: Seq<u8>, i: int) -> bool {
    ((bytes[i / 8] >> ((i % 8) as usize)) & 1u8) != 0u8
}

/// Where a reader at bit position `pos` of byte `off` stands after reading
/// or skipping one value.
pub open spec fn read_step(pos: nat, off: nat) -> (nat, nat) {
    if pos == 7 {
        (0, off + 1)
    } else {
        (pos + 1, off)
    }
}

/// Where a reader at bit position `pos` of byte `off` stands after reading
/// or skipping `k` values.
pub open spec fn read_steps(pos: nat, off: nat, k: nat) -> (nat, nat)
    decreases k,
{
    if k == 0 {
        (pos, off)
    } else {
        let s = read_steps(pos, off, (k - 1) as nat);
        read_step(s.0, s.1)
    }
}

/// Bit-packed bool reader (LSB).
#[derive(Debug)]
pub struct BoolValueReader {
    /// Bit position within the byte.
    pos: usize,
}

impl BoolValueReader {
    #[verifier::type_invariant]
    spec fn inv(self) -> bool {
        self.pos < 8
    }

    /// The bit position within the current byte.
    pub closed spec fn bit_pos(&self) -> nat {
        self.pos as nat
    }

    /// The index of the next bit that the reader takes from `data`.
    pub open spec fn bit_index(&self, data: &ReadCursor) -> int {
        (data.offset() * 8 + self.bit_pos()) as int
    }

    /// A reader at the first bit of a byte.
    pub fn new() -> (r: BoolValueReader)
        ensures
            r.bit_pos() == 0,
    {
        BoolValueReader { pos: 0 }
    }

    /// Reads the next bit of `data` into `out[out_idx]` and moves past it.
    pub fn read_next_unchecked(&mut self, data: &mut ReadCursor, out_idx: usize, out: &mut Vec<bool>)
        requires
            old(data).offset() < old(data).bytes().len(),
            out_idx < old(out).len(),
        ensures
            final(out)@ == old(out)@.update(out_idx as int, bit_at(old(data).bytes(), old(self).bit_index(old(data)))),
            final(data).bytes() == old(data).bytes(),
            final(self).bit_index(final(data)) == old(self).bit_index(old(data)) + 1,
            final(self).bit_pos() < 8,
            final(self).bit_pos() == (old(self).bit_pos() + 1) % 8,
            final(data).offset() == old(data).offset() + if old(self).bit_pos() == 7 { 1int } else { 0int },
            (final(self).bit_pos(), final(data).offset()) == read_step(old(self).bit_pos(), old(data).offset()),
    {
        proof {
            use_type_invariant(&*self);
            let i = data.offset() * 8 + self.pos;
            let p = self.pos as int;
            let o = data.offset() as int;
            assert(i / 8 == o && i % 8 == p) by (nonlinear_arith)
                requires
                    i == o * 8 + p,
                    0 <= p < 8,
                    0 <= o,
            ;
        }
        let v = data.peek_next_unchecked();
        let b = ((v >> self.pos) & 1) != 0;
        let next = self.pos + 1;
        if next == 8 {
            data.skip_bytes_unchecked(1);
            self.pos = 0;
        } else {
            self.pos = next;
        }
        out.set(out_idx, b);
    }

    /// Moves past the next bit of `data` without reading it.
    pub fn skip_unchecked(&mut self, data: &mut ReadCursor)
        requires
            old(self).bit_pos() < 7 || old(data).offset() < old(data).bytes().len(),
        ensures
            final(data).bytes() == old(data).bytes(),
            final(self).bit_index(final(data)) == old(self).bit_index(old(data)) + 1,
            final(self).bit_pos() < 8,
            final(self).bit_pos() == (old(self).bit_pos() + 1) % 8,
            final(data).offset() == old(data).offset() + if old(self).bit_pos() == 7 { 1int } else { 0int },
            (final(self).bit_pos(), final(data).offset()) == read_step(old(self).bit_pos(), old(data).offset()),
    {
        proof {
            use_type_invariant(&*self);
        }
        let next = self.pos + 1;
        if next == 8 {
            data.skip_bytes_unchecked(1);
            self.pos = 0;
        } else {
            self.pos = next;
        }
    }
}

/// Reading (or skipping) `k` values from the first bit of byte `off`: read
/// number `i` takes bit `i % 8`, counted from the least significant, of byte
/// `off + i / 8`, and the reader ends `k / 8` bytes further, at bit position
/// `k % 8`.
pub proof fn lemma_reads_from_byte_start(bytes: Seq<u8>, off: nat, k: nat)
    ensures
        read_steps(0, off, k) == ((k % 8) as nat, off + k / 8),
        forall|i: nat| #![trigger read_steps(0, off, i)] i < k ==> bit_at(
            bytes,
            (read_steps(0, off, i).1 * 8 + read_steps(0, off, i).0) as int,
        ) == (((bytes[(off + i / 8) as int] >> ((i % 8) as usize)) & 1u8) != 0u8),
    decreases k,
{
    if k > 0 {
        let k1 = (k - 1) as nat;
        lemma_reads_from_byte_start(bytes, off, k1);
        assert(k1 % 8 == 7 ==> k % 8 == 0 && k / 8 == k1 / 8 + 1) by (nonlinear_arith)
            requires
                k == k1 + 1,
        ;
        assert(k1 % 8 != 7 ==> k % 8 == k1 % 8 + 1 && k / 8 == k1 / 8) by (nonlinear_arith)
            requires
                k == k1 + 1,
        ;
    }
    assert forall|i: nat| #![trigger read_steps(0, off, i)] i < k implies bit_at(
        bytes,
        (read_steps(0, off, i).1 * 8 + read_steps(0, off, i).0) as int,
    ) == (((bytes[(off + i / 8) as int] >> ((i % 8) as usize)) & 1u8) != 0u8) by {
        lemma_reads_from_byte_start(bytes, off, i);
        let x: int = ((off + i / 8) * 8 + i % 8) as int;
        assert(x / 8 == off + i / 8 && x % 8 == i % 8) by (nonlinear_arith)
            requires
                x == (off + i / 8) * 8 + i % 8,
                0 <= i % 8 < 8,
                off >= 0,
                i >= 0,
        ;
    }
}

/// States that follow one another by [`read_step`] are those of
/// [`read_steps`].
proof fn lemma_steps_follow(steps: Seq<(nat, nat)>, off: nat, i: nat)
    requires
        i < steps.len(),
        steps[0] == (0nat, off),
        forall|j: int| 0 <= j && j + 1 < steps.len() ==> #[trigger] steps[j + 1] == read_step(steps[j].0, steps[j].1),
    ensures
        steps[i as int] == read_steps(0, off, i),
    decreases i,
{
    if i > 0 {
        lemma_steps_follow(steps, off, (i - 1) as nat);
        assert(steps[(i - 1) + 1] == read_step(steps[i - 1].0, steps[i - 1].1));
    }
}

/// `k` successive reads from the first bit of byte `off` of `bytes`. Each
/// call of [`BoolValueReader::read_next_unchecked`] takes the reader and the
/// cursor from `(bit_pos, offset)` to [`read_step`] of it and writes the bit
/// at the reader's bit index, so that `steps[i]` is where read `i` starts and
/// `outs[i]` is what it wrote. Then read `i` wrote bit `i % 8`, counted from
/// the least significant, of byte `off + i / 8`, and after the `k` reads the
/// cursor is `k / 8` bytes further on and the reader at bit `k % 8`.
pub proof fn lemma_successive_reads(bytes: Seq<u8>, off: nat, k: nat, steps: Seq<(nat, nat)>, outs: Seq<bool>)
    requires
        steps.len() == k + 1,
        outs.len() == k,
        steps[0] == (0nat, off),
        forall|i: int| 0 <= i < k ==> #[trigger] steps[i + 1] == read_step(steps[i].0, steps[i].1),
        forall|i: int| 0 <= i < k ==> #[trigger] outs[i] == bit_at(bytes, (steps[i].1 * 8 + steps[i].0) as int),
    ensures
        steps[k as int] == ((k % 8) as nat, off + k / 8),
        forall|i: int| 0 <= i < k ==> #[trigger] outs[i] == (((bytes[off + i / 8] >> ((i % 8) as usize)) & 1u8) != 0u8),
{
    lemma_reads_from_byte_start(bytes, off, k);
    lemma_steps_follow(steps, off, k);
    assert forall|i: int| 0 <= i < k implies #[trigger] outs[i] == (((bytes[off + i / 8] >> ((i % 8) as usize)) & 1u8) != 0u8) by {
        lemma_steps_follow(steps, off, i as nat);
        assert(read_steps(0, off, i as nat) == steps[i]);
    }
}

impl Default for BoolValueReader {
    fn default() -> (r: BoolValueReader)
        ensures
            r.bit_pos() == 0,
    {
        BoolValueReader { pos: 0 }
    }
}

} // verus!
