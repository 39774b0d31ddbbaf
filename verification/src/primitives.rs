//! Small value types shared by the modules of the node.

use vstd::prelude::*;
use vstd::array::*;

verus! {

/// Why a sequence of bytes is not the encoding of a value.
#[derive(Clone, Copy, Debug, PartialEq, Eq, Structural)]
pub enum DecodeError {
    /// The input holds no byte at all.
    Empty,
    /// The first byte is not the tag of a known variant.
    UnknownTag(u8),
    /// The input is shorter or longer than the value takes.
    WrongLength { expected: usize, actual: usize },
}

/// A 256-bit hash.
#[derive(Clone, Copy, Debug, PartialEq, Eq)]
pub struct H256 {
    pub bytes: [u8; 32],
}

impl H256 {
    /// The hash with the given bytes.
    pub fn new(bytes: [u8; 32]) -> (hash: Self)
        ensures
            hash.bytes == bytes,
    {
        H256 { bytes }
    }

    /// The hash whose bytes are all zero.
    pub fn zero() -> (hash: Self)
        ensures
            hash.bytes@ == Seq::new(32, |i: int| 0u8),
    {
        let hash = H256 { bytes: [0u8; 32] };
        assert(hash.bytes@ =~= Seq::new(32, |i: int| 0u8));
        hash
    }

    /// The 32 bytes of the hash.
    pub fn to_bytes(&self) -> (bytes: Vec<u8>)
        ensures
            bytes@ == self.bytes@,
    {
        let mut bytes: Vec<u8> = Vec::new();
        let mut i: usize = 0;
        while i < 32
            invariant
                i <= 32,
                bytes@ == self.bytes@.subrange(0, i as int),
            decreases 32 - i,
        {
            bytes.push(self.bytes[i]);
            assert(bytes@ =~= self.bytes@.subrange(0, i as int + 1));
            i += 1;
        }
        assert(bytes@ =~= self.bytes@);
        bytes
    }

    /// The hash with the given bytes, if there are 32 of them.
    pub fn from_bytes(bytes: &[u8]) -> (hash: Option<H256>)
        ensures
            hash.is_some() == (bytes@.len() == 32),
            hash matches Some(h) ==> h.bytes@ == bytes@,
    {
        if bytes.len() != 32 {
            return None;
        }
        let mut array = [0u8; 32];
        let mut i: usize = 0;
        while i < 32
            invariant
                i <= 32,
                bytes@.len() == 32,
                forall|j: int| 0 <= j < i ==> array@[j] == bytes@[j],
            decreases 32 - i,
        {
            array[i] = bytes[i];
            i += 1;
        }
        assert(array@ =~= bytes@);
        Some(H256 { bytes: array })
    }

    /// Compares two hashes byte by byte.
    pub fn same_as(&self, other: &H256) -> (same: bool)
        ensures
            same == (self.bytes@ == other.bytes@),
            same == (*self == *other),
    {
        let mut i: usize = 0;
        while i < 32
            invariant
                i <= 32,
                forall|j: int| 0 <= j < i ==> self.bytes@[j] == other.bytes@[j],
            decreases 32 - i,
        {
            if self.bytes[i] != other.bytes[i] {
                return false;
            }
            i += 1;
        }
        assert(self.bytes@ =~= other.bytes@);
        assert(self.bytes == other.bytes);
        true
    }
}

/// Identifier of a block: the hash of its header.
#[derive(Clone, Copy, Debug, PartialEq, Eq)]
pub struct BlockId {
    pub hash: H256,
}

/// Identifier of a transaction.
#[derive(Clone, Copy, Debug, PartialEq, Eq)]
pub struct TransactionId {
    pub hash: H256,
}

impl BlockId {
    pub fn new(hash: H256) -> (id: Self)
        ensures
            id.hash == hash,
    {
        BlockId { hash }
    }

    /// Whether two ids are the same.
    pub fn same_as(&self, other: &BlockId) -> (same: bool)
        ensures
            same == (*self == *other),
    {
        self.hash.same_as(&other.hash)
    }
}

impl TransactionId {
    pub fn new(hash: H256) -> (id: Self)
        ensures
            id.hash == hash,
    {
        TransactionId { hash }
    }

    /// Whether two ids are the same.
    pub fn same_as(&self, other: &TransactionId) -> (same: bool)
        ensures
            same == (*self == *other),
    {
        self.hash.same_as(&other.hash)
    }
}

/// Height of a block above genesis.
#[derive(Clone, Copy, Debug, PartialEq, Eq, Structural)]
pub struct BlockHeight {
    pub height: u64,
}

impl BlockHeight {
    /// The height of the genesis block.
    pub fn zero() -> (h: Self)
        ensures
            h.height == 0,
    {
        BlockHeight { height: 0 }
    }

    pub fn new(height: u64) -> (h: Self)
        ensures
            h.height == height,
    {
        BlockHeight { height }
    }
}

/// A point in time, in seconds since the Unix epoch.
#[derive(Clone, Copy, Debug, PartialEq, Eq, Structural)]
pub struct Time {
    pub secs: u64,
}

impl Time {
    pub fn from_secs(secs: u64) -> (t: Self)
        ensures
            t.secs == secs,
    {
        Time { secs }
    }

    pub fn as_secs(&self) -> (secs: u64)
        ensures
            secs == self.secs,
    {
        self.secs
    }

    /// This time moved forward by `secs` seconds; the latest time that can be
    /// told if that lies beyond it.
    pub open spec fn spec_saturating_add_secs(&self, secs: u64) -> Time {
        Time { secs: if self.secs + secs > u64::MAX {
            u64::MAX
        } else {
            (self.secs + secs) as u64
        } }
    }

    #[verifier::when_used_as_spec(spec_saturating_add_secs)]
    pub fn saturating_add_secs(&self, secs: u64) -> (t: Self)
        ensures
            t == self.spec_saturating_add_secs(secs),
    {
        if secs > u64::MAX - self.secs {
            Time { secs: u64::MAX }
        } else {
            Time { secs: self.secs + secs }
        }
    }
}

/// A span of time, both ends included.
#[derive(Clone, Copy, Debug, PartialEq, Eq, Structural)]
pub struct TimeRange {
    pub start: Time,
    pub end: Time,
}

impl TimeRange {
    /// Whether `t` lies in the span.
    pub open spec fn spec_contains(&self, t: Time) -> bool {
        self.start.secs <= t.secs <= self.end.secs
    }

    /// The span of `tolerance` seconds to either side of `center`, cut off at
    /// the ends of time.
    pub open spec fn spec_around(center: Time, tolerance: u64) -> TimeRange {
        TimeRange {
            start: Time { secs: if center.secs >= tolerance { (center.secs - tolerance) as u64 } else { 0 } },
            end: Time {
                secs: if center.secs + tolerance > u64::MAX {
                    u64::MAX
                } else {
                    (center.secs + tolerance) as u64
                },
            },
        }
    }

    #[verifier::when_used_as_spec(spec_contains)]
    pub fn contains(&self, t: Time) -> (inside: bool)
        ensures
            inside == self.spec_contains(t),
    {
        self.start.secs <= t.secs && t.secs <= self.end.secs
    }

    #[verifier::when_used_as_spec(spec_around)]
    pub fn around(center: Time, tolerance: u64) -> (range: TimeRange)
        ensures
            range == Self::spec_around(center, tolerance),
    {
        let start = if center.secs >= tolerance {
            center.secs - tolerance
        } else {
            0
        };
        TimeRange { start: Time { secs: start }, end: center.saturating_add_secs(tolerance) }
    }
}

/// An amount of coins, counted in atoms, the smallest unit.
#[derive(Clone, Copy, Debug, PartialEq, Eq, PartialOrd, Ord, Structural)]
pub struct Amount {
    pub atoms: u128,
}

impl Amount {
    /// The sum of two amounts, if it can be told.
    pub open spec fn spec_checked_add(&self, other: Amount) -> Option<Amount> {
        if self.atoms + other.atoms > u128::MAX {
            None
        } else {
            Some(Amount { atoms: (self.atoms + other.atoms) as u128 })
        }
    }

    /// This amount taken `factor` times, if it can be told.
    pub open spec fn spec_checked_mul(&self, factor: u128) -> Option<Amount> {
        if self.atoms * factor > u128::MAX {
            None
        } else {
            Some(Amount { atoms: (self.atoms * factor) as u128 })
        }
    }

    /// This amount split into `divisor` parts, rounded down; nothing if
    /// there are no parts.
    pub open spec fn spec_checked_div(&self, divisor: u128) -> Option<Amount> {
        if divisor == 0 {
            None
        } else {
            Some(Amount { atoms: self.atoms / divisor })
        }
    }

    pub fn from_atoms(atoms: u128) -> (amount: Self)
        ensures
            amount.atoms == atoms,
    {
        Amount { atoms }
    }

    pub fn into_atoms(&self) -> (atoms: u128)
        ensures
            atoms == self.atoms,
    {
        self.atoms
    }

    #[verifier::when_used_as_spec(spec_checked_add)]
    pub fn checked_add(&self, other: Amount) -> (sum: Option<Amount>)
        ensures
            sum == self.spec_checked_add(other),
    {
        match self.atoms.checked_add(other.atoms) {
            Some(atoms) => Some(Amount { atoms }),
            None => None,
        }
    }

    #[verifier::when_used_as_spec(spec_checked_mul)]
    pub fn checked_mul(&self, factor: u128) -> (product: Option<Amount>)
        ensures
            product == self.spec_checked_mul(factor),
    {
        match self.atoms.checked_mul(factor) {
            Some(atoms) => Some(Amount { atoms }),
            None => None,
        }
    }

    #[verifier::when_used_as_spec(spec_checked_div)]
    pub fn checked_div(&self, divisor: u128) -> (quotient: Option<Amount>)
        ensures
            quotient == self.spec_checked_div(divisor),
    {
        if divisor == 0 {
            None
        } else {
            Some(Amount { atoms: self.atoms / divisor })
        }
    }
}

} // verus!
