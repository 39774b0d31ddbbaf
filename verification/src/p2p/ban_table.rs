//! A table of time-boxed marks on addresses.
//!
//! The peer database keeps two such tables: one of bans and one of
//! discouragements.  A mark names an address and the time at which it ends.
//! Mathematically a table is a map from addresses to end times; it is stored
//! as a vector in which no address occurs twice.

use vstd::prelude::*;
use vstd::bytes::*;
use vstd::slice::*;
use crate::p2p::peer_address::{ip_decoding, ip_encoding, ip_payload_len};
use crate::p2p::socket_address::{BannableAddress, IpAddress};
use crate::primitives::{DecodeError, Time};

verus! {

/// One mark: the address and the first moment at which the mark no longer holds.
#[derive(Clone, Copy, Debug, PartialEq, Eq, Structural)]
pub struct BanRecord {
    pub address: BannableAddress,
    pub until: Time,
}

/// The map that a sequence of records stands for.  A later record of an
/// address overrides an earlier one.
pub open spec fn records_map(records: Seq<BanRecord>) -> Map<BannableAddress, Time>
    decreases records.len(),
{
    if records.len() == 0 {
        Map::empty()
    } else {
        records_map(records.drop_last()).insert(records.last().address, records.last().until)
    }
}

/// Whether no address occurs twice in `records`.
pub open spec fn distinct_addresses(records: Seq<BanRecord>) -> bool {
    forall|i: int, j: int|
        0 <= i < records.len() && 0 <= j < records.len() && i != j ==> records[i].address != records[j].address
}

/// Whether a mark that ends at `until` still holds at `now`.
pub open spec fn holds_at(until: Time, now: Time) -> bool {
    now.secs < until.secs
}

/// The addresses of a records map are those of its records.
pub proof fn lemma_records_map_domain(records: Seq<BanRecord>, address: BannableAddress)
    ensures
        records_map(records).contains_key(address) <==> exists|i: int|
            0 <= i < records.len() && #[trigger] records[i].address == address,
    decreases records.len(),
{
    if records.len() > 0 {
        let init = records.drop_last();
        lemma_records_map_domain(init, address);
        if records_map(records).contains_key(address) {
            if records.last().address == address {
                assert(records[records.len() - 1].address == address);
            } else {
                let i = choose|i: int| 0 <= i < init.len() && #[trigger] init[i].address == address;
                assert(records[i].address == address);
            }
        }
        if exists|i: int| 0 <= i < records.len() && #[trigger] records[i].address == address {
            let i = choose|i: int| 0 <= i < records.len() && #[trigger] records[i].address == address;
            if i < records.len() - 1 {
                assert(init[i].address == address);
            }
        }
    }
}

/// Where no address occurs twice, each record gives the end time of its address.
pub proof fn lemma_records_map_value(records: Seq<BanRecord>, i: int)
    requires
        distinct_addresses(records),
        0 <= i < records.len(),
    ensures
        records_map(records).contains_key(records[i].address),
        records_map(records)[records[i].address] == records[i].until,
    decreases records.len(),
{
    let init = records.drop_last();
    if i < records.len() - 1 {
        assert(distinct_addresses(init)) by {
            assert forall|a: int, b: int| 0 <= a < init.len() && 0 <= b < init.len() && a != b implies init[a].address
                != init[b].address by {
                assert(init[a] == records[a]);
                assert(init[b] == records[b]);
            }
        }
        lemma_records_map_value(init, i);
        assert(init[i] == records[i]);
        assert(records.last().address != records[i].address);
    }
}

/// Taking a record out of a table without repeated addresses takes exactly
/// its address out of the map.
pub proof fn lemma_records_map_remove(records: Seq<BanRecord>, i: int)
    requires
        distinct_addresses(records),
        0 <= i < records.len(),
    ensures
        distinct_addresses(records.remove(i)),
        records_map(records.remove(i)) == records_map(records).remove(records[i].address),
{
    let rest = records.remove(i);
    assert(distinct_addresses(rest)) by {
        assert forall|a: int, b: int| 0 <= a < rest.len() && 0 <= b < rest.len() && a != b implies rest[a].address
            != rest[b].address by {
            let a0 = if a < i { a } else { a + 1 };
            let b0 = if b < i { b } else { b + 1 };
            assert(rest[a] == records[a0]);
            assert(rest[b] == records[b0]);
        }
    }
    let removed = records_map(records).remove(records[i].address);
    assert forall|address: BannableAddress| #[trigger] records_map(rest).contains_key(address) <==> removed.contains_key(
        address,
    ) by {
        lemma_records_map_domain(rest, address);
        lemma_records_map_domain(records, address);
        if records_map(rest).contains_key(address) {
            let k = choose|k: int| 0 <= k < rest.len() && #[trigger] rest[k].address == address;
            let k0 = if k < i { k } else { k + 1 };
            assert(rest[k] == records[k0]);
            assert(records[k0].address == address);
        }
        if removed.contains_key(address) {
            let k = choose|k: int| 0 <= k < records.len() && #[trigger] records[k].address == address;
            assert(k != i);
            let k1 = if k < i { k } else { k - 1 };
            assert(rest[k1] == records[k]);
            assert(rest[k1].address == address);
        }
    }
    assert forall|address: BannableAddress| #[trigger] records_map(rest).contains_key(address) implies records_map(
        rest,
    )[address] == removed[address] by {
        lemma_records_map_domain(rest, address);
        let k = choose|k: int| 0 <= k < rest.len() && #[trigger] rest[k].address == address;
        let k0 = if k < i { k } else { k + 1 };
        assert(rest[k] == records[k0]);
        lemma_records_map_value(rest, k);
        lemma_records_map_value(records, k0);
    }
    assert(records_map(rest) =~= removed);
}

/// A table of marks, at most one for each address.
#[derive(Debug)]
pub struct BanTable {
    records: Vec<BanRecord>,
}

impl View for BanTable {
    type V = Map<BannableAddress, Time>;

    closed spec fn view(&self) -> Map<BannableAddress, Time> {
        records_map(self.records@)
    }
}

impl BanTable {
    /// No address is marked twice.
    pub closed spec fn wf(&self) -> bool {
        distinct_addresses(self.records@)
    }

    /// Whether `address` is marked at `now`.
    pub open spec fn spec_is_marked(&self, address: BannableAddress, now: Time) -> bool {
        self@.contains_key(address) && holds_at(self@[address], now)
    }

    /// The empty table.
    pub fn new() -> (table: Self)
        ensures
            table@ == Map::<BannableAddress, Time>::empty(),
            table.wf(),
    {
        BanTable { records: Vec::new() }
    }

    /// Position of the record of `address`.
    fn position(&self, address: BannableAddress) -> (found: Option<usize>)
        ensures
            match found {
                Some(i) => i < self.records@.len() && self.records@[i as int].address == address,
                None => forall|i: int| 0 <= i < self.records@.len() ==> self.records@[i].address != address,
            },
    {
        let mut i: usize = 0;
        while i < self.records.len()
            invariant
                i <= self.records.len(),
                forall|j: int| 0 <= j < i ==> self.records@[j].address != address,
            decreases self.records.len() - i,
        {
            if self.records[i].address == address {
                return Some(i);
            }
            i += 1;
        }
        None
    }

    /// The end of the mark on `address`, if it has one.
    pub fn get(&self, address: BannableAddress) -> (until: Option<Time>)
        requires
            self.wf(),
        ensures
            until == if self@.contains_key(address) {
                Some(self@[address])
            } else {
                None
            },
    {
        proof {
            lemma_records_map_domain(self.records@, address);
        }
        match self.position(address) {
            Some(i) => {
                proof {
                    lemma_records_map_value(self.records@, i as int);
                }
                Some(self.records[i].until)
            },
            None => None,
        }
    }

    /// Whether `address` is marked at `now`.
    #[verifier::when_used_as_spec(spec_is_marked)]
    pub fn is_marked(&self, address: BannableAddress, now: Time) -> (marked: bool)
        requires
            self.wf(),
        ensures
            marked == self.spec_is_marked(address, now),
    {
        match self.get(address) {
            Some(until) => now.secs < until.secs,
            None => false,
        }
    }

    /// Takes the mark off `address`.  Tells whether there was one.
    pub fn remove(&mut self, address: BannableAddress) -> (was_marked: bool)
        requires
            old(self).wf(),
        ensures
            final(self)@ == old(self)@.remove(address),
            was_marked == old(self)@.contains_key(address),
            final(self).wf(),
    {
        proof {
            lemma_records_map_domain(self.records@, address);
        }
        match self.position(address) {
            Some(i) => {
                proof {
                    lemma_records_map_remove(self.records@, i as int);
                }
                self.records.remove(i);
                true
            },
            None => {
                assert(self@ =~= old(self)@.remove(address));
                false
            },
        }
    }

    /// Marks `address` until `until`, in place of any mark it had.
    pub fn set(&mut self, address: BannableAddress, until: Time)
        requires
            old(self).wf(),
        ensures
            final(self)@ == old(self)@.insert(address, until),
            final(self).wf(),
    {
        self.remove(address);
        proof {
            let before = self.records@;
            let record = BanRecord { address, until };
            assert(before.push(record).drop_last() =~= before);
            assert(distinct_addresses(before.push(record))) by {
                assert forall|a: int, b: int|
                    0 <= a < before.len() + 1 && 0 <= b < before.len() + 1 && a != b implies before.push(
                    record,
                )[a].address != before.push(record)[b].address by {
                    lemma_records_map_domain(before, address);
                }
            }
            assert(old(self)@.remove(address).insert(address, until) =~= old(self)@.insert(address, until));
        }
        self.records.push(BanRecord { address, until });
    }

    /// All marks of the table, for storing them.
    pub fn records(&self) -> (records: Vec<BanRecord>)
        requires
            self.wf(),
        ensures
            records_map(records@) == self@,
            distinct_addresses(records@),
    {
        let mut records: Vec<BanRecord> = Vec::new();
        let mut i: usize = 0;
        while i < self.records.len()
            invariant
                i <= self.records.len(),
                records@ == self.records@.subrange(0, i as int),
            decreases self.records.len() - i,
        {
            records.push(self.records[i]);
            assert(records@ =~= self.records@.subrange(0, i as int + 1));
            i += 1;
        }
        assert(records@ =~= self.records@);
        records
    }

    /// Number of marked addresses, whether their marks still hold or not.
    pub fn len(&self) -> (n: usize)
        requires
            self.wf(),
        ensures
            n == self@.dom().len(),
            self@.dom().finite(),
    {
        proof {
            lemma_records_map_len(self.records@);
        }
        self.records.len()
    }
}

/// A table without repeated addresses holds as many addresses as records.
pub proof fn lemma_records_map_len(records: Seq<BanRecord>)
    requires
        distinct_addresses(records),
    ensures
        records_map(records).dom().finite(),
        records_map(records).dom().len() == records.len(),
    decreases records.len(),
{
    if records.len() > 0 {
        let init = records.drop_last();
        assert(distinct_addresses(init)) by {
            assert forall|a: int, b: int| 0 <= a < init.len() && 0 <= b < init.len() && a != b implies init[a].address
                != init[b].address by {
                assert(init[a] == records[a]);
                assert(init[b] == records[b]);
            }
        }
        lemma_records_map_len(init);
        lemma_records_map_domain(init, records.last().address);
        assert(!records_map(init).contains_key(records.last().address)) by {
            if records_map(init).contains_key(records.last().address) {
                let i = choose|i: int| 0 <= i < init.len() && #[trigger] init[i].address == records.last().address;
                assert(init[i] == records[i]);
            }
        }
        assert(records_map(records).dom() =~= records_map(init).dom().insert(records.last().address));
    }
}

impl BanRecord {
    /// The stored form of the record: the address as on the wire, then the
    /// end of the mark in seconds, eight bytes with the least significant
    /// first.
    pub open spec fn encoding(&self) -> Seq<u8> {
        ip_encoding(self.address.ip) + spec_u64_to_le_bytes(self.until.secs)
    }

    /// What a sequence of bytes decodes to.
    pub open spec fn decoding(bytes: Seq<u8>) -> Result<BanRecord, DecodeError> {
        if bytes.len() == 0 {
            Err(DecodeError::Empty)
        } else {
            match ip_payload_len(bytes[0]) {
                None => Err(DecodeError::UnknownTag(bytes[0])),
                Some(n) => {
                    if bytes.len() != 1 + n + 8 {
                        Err(DecodeError::WrongLength { expected: (1 + n + 8) as usize, actual: bytes.len() as usize })
                    } else {
                        Ok(
                            BanRecord {
                                address: BannableAddress { ip: ip_decoding(bytes[0], bytes.subrange(1, 1 + n as int)) },
                                until: Time { secs: spec_u64_from_le_bytes(bytes.subrange(1 + n as int, 9 + n as int)) },
                            },
                        )
                    }
                },
            }
        }
    }

    /// Serializes the record.
    pub fn encode(&self) -> (bytes: Vec<u8>)
        ensures
            bytes@ == self.encoding(),
    {
        let mut bytes: Vec<u8> = Vec::new();
        match self.address.ip {
            IpAddress::V4(v) => {
                bytes.push(0u8);
                let mut ip = u32_to_le_bytes(v);
                bytes.append(&mut ip);
            },
            IpAddress::V6(v) => {
                bytes.push(1u8);
                let mut ip = u128_to_le_bytes(v);
                bytes.append(&mut ip);
            },
        }
        assert(bytes@ =~= ip_encoding(self.address.ip));
        let mut until = u64_to_le_bytes(self.until.secs);
        bytes.append(&mut until);
        bytes
    }

    /// Reads a record from its stored form.  The input must hold the record
    /// and nothing else.
    pub fn decode(bytes: &[u8]) -> (result: Result<BanRecord, DecodeError>)
        ensures
            result == Self::decoding(bytes@),
    {
        if bytes.len() == 0 {
            return Err(DecodeError::Empty);
        }
        let tag = bytes[0];
        if tag == 0u8 {
            if bytes.len() != 13 {
                return Err(DecodeError::WrongLength { expected: 13, actual: bytes.len() });
            }
            let ip = u32_from_le_bytes(slice_subrange(bytes, 1, 5));
            let secs = u64_from_le_bytes(slice_subrange(bytes, 5, 13));
            Ok(BanRecord { address: BannableAddress { ip: IpAddress::V4(ip) }, until: Time { secs } })
        } else if tag == 1u8 {
            if bytes.len() != 25 {
                return Err(DecodeError::WrongLength { expected: 25, actual: bytes.len() });
            }
            let ip = u128_from_le_bytes(slice_subrange(bytes, 1, 17));
            let secs = u64_from_le_bytes(slice_subrange(bytes, 17, 25));
            Ok(BanRecord { address: BannableAddress { ip: IpAddress::V6(ip) }, until: Time { secs } })
        } else {
            Err(DecodeError::UnknownTag(tag))
        }
    }
}

/// Decoding the stored form of a record gives the record back.
pub proof fn lemma_ban_record_roundtrip(record: BanRecord)
    ensures
        BanRecord::decoding(record.encoding()) == Ok::<BanRecord, DecodeError>(record),
{
    lemma_auto_spec_u32_to_from_le_bytes();
    lemma_auto_spec_u64_to_from_le_bytes();
    lemma_auto_spec_u128_to_from_le_bytes();
    let bytes = record.encoding();
    match record.address.ip {
        IpAddress::V4(v) => {
            assert(bytes.subrange(1, 5) =~= spec_u32_to_le_bytes(v));
            assert(bytes.subrange(5, 13) =~= spec_u64_to_le_bytes(record.until.secs));
        },
        IpAddress::V6(v) => {
            assert(bytes.subrange(1, 17) =~= spec_u128_to_le_bytes(v));
            assert(bytes.subrange(17, 25) =~= spec_u64_to_le_bytes(record.until.secs));
        },
    }
}

} // verus!
