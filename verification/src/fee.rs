use vstd::prelude::*;

verus! {

/// A 256-bit unsigned integer, held as two 128-bit halves.
/// `low` holds the least significant 128 bits.
#[derive(Clone, Copy, Debug, PartialEq, Eq)]
pub struct U256 {
    pub low: u128,
    pub high: u128,
}

impl U256 {
    /// The numeric value of the whole 256-bit integer.
    pub open spec fn value(self) -> nat {
        self.low as nat + self.high as nat * 0x100000000000000000000000000000000
    }

    /// The low 128 bits; when the value fits in 128 bits, the value
    /// itself.
    pub fn as_u128(&self) -> (r: u128)
        ensures
            r == self.low,
            self.high == 0 ==> r == self.value(),
    {
        self.low
    }
}

/// A fee value as the fee-lookup service reports it: either a native
/// 64-bit integer or a 256-bit integer.
#[derive(Clone, Copy, Debug, PartialEq, Eq)]
pub enum NumberOrHex {
    Number(u64),
    Hex(U256),
}

impl NumberOrHex {
    /// The 128-bit sample value this fee turns into: a native number
    /// is zero-extended, a 256-bit value keeps its low 128 bits.
    /// Values over 128 bits are deliberately truncated rather than
    /// rejected; fees that large do not occur in practice.
    pub open spec fn widened(self) -> u128 {
        match self {
            NumberOrHex::Number(n) => n as u128,
            NumberOrHex::Hex(h) => h.low,
        }
    }

    /// The numeric value of the fee, whatever its representation.
    pub open spec fn value(self) -> nat {
        match self {
            NumberOrHex::Number(n) => n as nat,
            NumberOrHex::Hex(h) => h.value(),
        }
    }

    pub fn as_u128(&self) -> (r: u128)
        ensures
            r == self.widened(),
    {
        match self {
            NumberOrHex::Number(number) => *number as u128,
            NumberOrHex::Hex(hex) => hex.as_u128(),
        }
    }
}

impl Default for NumberOrHex {
    /// The default fee value is the native number zero.
    fn default() -> (d: Self)
        ensures
            d == NumberOrHex::Number(0u64),
    {
        NumberOrHex::Number(0)
    }
}

/// Law: widening is exact wherever the value fits in 128 bits: a
/// native 64-bit value widens to itself, and a 256-bit value whose
/// high half is zero widens to its numeric value.
pub proof fn lemma_widening_exact(n: NumberOrHex)
    ensures
        n matches NumberOrHex::Number(v) ==> n.widened() == v && n.widened() == n.value(),
        n matches NumberOrHex::Hex(h) && h.high == 0 ==> n.widened() == n.value(),
{
}

/// The part of a transaction's fee owed to its inclusion in a block:
/// a base fee, a length fee, and a weight fee adjusted for network
/// congestion. Present only on transactions that incurred such fees.
#[derive(Clone, Copy, Debug, PartialEq, Eq)]
pub struct InclusionFee {
    pub base_fee: NumberOrHex,
    pub len_fee: NumberOrHex,
    pub adjusted_weight_fee: NumberOrHex,
}

/// The fee breakdown the fee-lookup service returns for one
/// transaction. A breakdown without an inclusion fee carries no
/// usable sample and is excluded from aggregation.
#[derive(Clone, Copy, Debug, PartialEq, Eq)]
pub struct FeeDetails {
    pub inclusion_fee: Option<InclusionFee>,
}

} // verus!
