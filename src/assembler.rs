use vstd::prelude::*;

verus! {

pub open spec fn bit_value(b: bool) -> nat {
    if b {
        1
    } else {
        0
    }
}

/// The number whose binary digits are `bits`, the first bit the most significant.
pub open spec fn byte_of(bits: Seq<bool>) -> nat
    decreases bits.len(),
{
    if bits.len() == 0 {
        0
    } else {
        2 * byte_of(bits.drop_last()) + bit_value(bits.last())
    }
}

pub open spec fn two_pow(n: nat) -> nat
    decreases n,
{
    if n == 0 {
        1
    } else {
        2 * two_pow((n - 1) as nat)
    }
}

proof fn lemma_byte_of_bound(bits: Seq<bool>)
    ensures
        byte_of(bits) < two_pow(bits.len()),
    decreases bits.len(),
{
    if bits.len() > 0 {
        lemma_byte_of_bound(bits.drop_last());
    }
}

proof fn lemma_two_pow_le(n: nat, m: nat)
    requires
        n <= m,
    ensures
        two_pow(n) <= two_pow(m),
    decreases m,
{
    if m > n {
        lemma_two_pow_le(n, (m - 1) as nat);
    }
}

/// Packs received bits into bytes, eight at a time. Bit order: the first bit
/// received is the most significant bit of the byte.
pub struct ByteAssembler {
    pending: Vec<bool>,
}

impl ByteAssembler {
    /// The bits received since the last complete byte, oldest first.
    pub closed spec fn pending(&self) -> Seq<bool> {
        self.pending@
    }

    pub open spec fn wf(&self) -> bool {
        self.pending().len() < 8
    }

    /// An assembler with nothing pending.
    pub fn new() -> (r: ByteAssembler)
        ensures
            r.wf(),
            r.pending() == Seq::<bool>::empty(),
    {
        ByteAssembler { pending: Vec::new() }
    }

    /// How many bits are pending.
    pub fn pending_len(&self) -> (r: usize)
        ensures
            r == self.pending().len(),
    {
        self.pending.len()
    }

    /// Appends `bit`; on the eighth bit returns the completed byte and clears
    /// the pending bits.
    pub fn push(&mut self, bit: bool) -> (r: Option<u8>)
        requires
            old(self).wf(),
        ensures
            final(self).wf(),
            old(self).pending().len() == 7 ==> {
                &&& r == Some(byte_of(old(self).pending().push(bit)) as u8)
                &&& byte_of(old(self).pending().push(bit)) < 256
                &&& final(self).pending() == Seq::<bool>::empty()
            },
            old(self).pending().len() < 7 ==> {
                &&& r is None
                &&& final(self).pending() == old(self).pending().push(bit)
            },
    {
        self.pending.push(bit);
        if self.pending.len() < 8 {
            return None;
        }
        let mut byte: u16 = 0;
        let mut i: usize = 0;
        while i < 8
            invariant
                self.pending@.len() == 8,
                0 <= i <= 8,
                byte == byte_of(self.pending@.subrange(0, i as int)),
                byte < two_pow(i as nat),
            decreases 8 - i,
        {
            proof {
                assert(self.pending@.subrange(0, i + 1).drop_last() =~= self.pending@.subrange(
                    0,
                    i as int,
                ));
                lemma_byte_of_bound(self.pending@.subrange(0, i + 1));
                lemma_two_pow_le((i + 1) as nat, 8);
                reveal_with_fuel(two_pow, 9);
            }
            byte = byte * 2 + if self.pending[i] {
                1
            } else {
                0
            };
            i = i + 1;
        }
        proof {
            assert(self.pending@.subrange(0, 8) =~= self.pending@);
            reveal_with_fuel(two_pow, 9);
        }
        self.pending.clear();
        Some(byte as u8)
    }
}

/// The state and output of an assembler with `pending` bits after receiving `bits`:
/// the bits still pending, and the bytes completed, in order.
pub open spec fn assemble(pending: Seq<bool>, bits: Seq<bool>) -> (Seq<bool>, Seq<u8>)
    decreases bits.len(),
{
    if bits.len() == 0 {
        (pending, Seq::empty())
    } else {
        let (p, out) = assemble(pending, bits.drop_last());
        if p.len() + 1 == 8 {
            (Seq::empty(), out.push(byte_of(p.push(bits.last())) as u8))
        } else {
            (p.push(bits.last()), out)
        }
    }
}

/// Eight bits fed to an empty assembler give exactly one byte, whose most
/// significant bit is the first bit received, and leave nothing pending.
pub proof fn lemma_eight_bits_make_one_byte(bits: Seq<bool>)
    requires
        bits.len() == 8,
    ensures
        assemble(Seq::empty(), bits) == (Seq::<bool>::empty(), seq![byte_of(bits) as u8]),
        byte_of(bits) == 128 * bit_value(bits[0]) + 64 * bit_value(bits[1]) + 32 * bit_value(
            bits[2],
        ) + 16 * bit_value(bits[3]) + 8 * bit_value(bits[4]) + 4 * bit_value(bits[5]) + 2
            * bit_value(bits[6]) + bit_value(bits[7]),
{
    lemma_assemble_below_eight(bits.drop_last());
    assert(bits.drop_last().push(bits.last()) =~= bits);
    assert(bits.drop_last().drop_last().drop_last().drop_last().drop_last().drop_last().drop_last().drop_last().len() == 0);
    reveal_with_fuel(byte_of, 9);
}

/// Fewer than eight bits fed to an empty assembler stay pending.
proof fn lemma_assemble_below_eight(bits: Seq<bool>)
    requires
        bits.len() < 8,
    ensures
        assemble(Seq::empty(), bits) == (bits, Seq::<u8>::empty()),
    decreases bits.len(),
{
    if bits.len() > 0 {
        lemma_assemble_below_eight(bits.drop_last());
        assert(bits.drop_last().push(bits.last()) =~= bits);
    }
}

} // verus!
