use vstd::prelude::*;
use vstd::bytes::{spec_u64_from_le_bytes, spec_u64_to_le_bytes, u64_from_le_bytes, u64_to_le_bytes};
use vstd::utf8::{decode_utf8, encode_utf8, encode_utf8_decode_utf8};

use crate::block::OutputRef;

verus! {

#[verifier::external_type_specification]
#[verifier::external_body]
pub struct ExSledDb(sled::Db);

#[verifier::external_type_specification]
#[verifier::external_body]
pub struct ExSledError(sled::Error);

/// The key/value pairs held by a sled tree.
pub uninterp spec fn tree_entries(db: sled::Db) -> Map<Seq<u8>, Seq<u8>>;

/// Relies on sled's `Tree::get`: the value stored under the key, if any.
#[verifier::external_body]
fn tree_get(db: &sled::Db, key: &Vec<u8>) -> (r: Result<Option<Vec<u8>>, sled::Error>)
    ensures
        r matches Ok(found) ==> match found {
            Some(v) => tree_entries(*db).contains_key(key@) && v@ == tree_entries(*db)[key@],
            None => !tree_entries(*db).contains_key(key@),
        },
{
    db.get(key).map(|found| found.map(|v| v.to_vec()))
}

/// Relies on sled's `Tree::insert`: on success the key maps to the new value.
#[verifier::external_body]
fn tree_insert(db: &mut sled::Db, key: &Vec<u8>, value: Vec<u8>) -> (r: Result<(), sled::Error>)
    ensures
        r is Ok ==> tree_entries(*final(db)) == tree_entries(*old(db)).insert(key@, value@),
{
    db.insert(key, value).map(|_previous| ())
}

/// Relies on sled's `Tree::remove`: on success the key is gone.
#[verifier::external_body]
fn tree_remove(db: &mut sled::Db, key: &Vec<u8>) -> (r: Result<(), sled::Error>)
    ensures
        r is Ok ==> tree_entries(*final(db)) == tree_entries(*old(db)).remove(key@),
{
    db.remove(key).map(|_previous| ())
}

/// Decimal digits of a number, most significant first, as ASCII bytes.
pub open spec fn decimal_bytes(n: nat) -> Seq<u8>
    decreases n,
{
    if n < 10 {
        seq![(n + 48) as u8]
    } else {
        decimal_bytes(n / 10).push((n % 10 + 48) as u8)
    }
}

/// The store key of an output: `"{txid}:{vout}"` as UTF-8 bytes.
pub open spec fn output_key(txid: Seq<char>, vout: nat) -> Seq<u8> {
    encode_utf8(txid) + seq![0x3au8] + decimal_bytes(vout)
}

/// The store encoding of an amount: eight little-endian bytes.
pub open spec fn amount_bytes(value: u64) -> Seq<u8> {
    spec_u64_to_le_bytes(value)
}

/// The amount that a stored value encodes.
pub open spec fn stored_amount(bytes: Seq<u8>) -> u64 {
    spec_u64_from_le_bytes(bytes)
}

proof fn lemma_decimal_digits(n: nat)
    ensures
        decimal_bytes(n).len() >= 1,
        forall|i: int| 0 <= i < decimal_bytes(n).len() ==> 48 <= #[trigger] decimal_bytes(n)[i] <= 57,
    decreases n,
{
    if n >= 10 {
        lemma_decimal_digits(n / 10);
    }
}

proof fn lemma_decimal_injective(n: nat, m: nat)
    requires
        decimal_bytes(n) == decimal_bytes(m),
    ensures
        n == m,
    decreases n,
{
    lemma_decimal_digits(n);
    lemma_decimal_digits(m);
    if n >= 10 {
        lemma_decimal_digits(n / 10);
    }
    if m >= 10 {
        lemma_decimal_digits(m / 10);
    }
    if n < 10 && m < 10 {
        assert(decimal_bytes(n)[0] == decimal_bytes(m)[0]);
        assert(decimal_bytes(n)[0] == n + 48);
        assert(decimal_bytes(m)[0] == m + 48);
    } else if n >= 10 && m >= 10 {
        let dn = decimal_bytes(n);
        let dm = decimal_bytes(m);
        assert(dn.last() == dm.last());
        assert(dn.last() == n % 10 + 48);
        assert(dm.last() == m % 10 + 48);
        assert(dn.drop_last() =~= decimal_bytes(n / 10));
        assert(dm.drop_last() =~= decimal_bytes(m / 10));
        lemma_decimal_injective(n / 10, m / 10);
        assert(n % 10 == m % 10);
        assert(n == 10 * (n / 10) + n % 10);
        assert(m == 10 * (m / 10) + m % 10);
    } else if n < 10 {
        assert(decimal_bytes(n).len() == 1);
        assert(decimal_bytes(m).len() == decimal_bytes(m / 10).len() + 1);
    } else {
        assert(decimal_bytes(m).len() == 1);
        assert(decimal_bytes(n).len() == decimal_bytes(n / 10).len() + 1);
    }
}

/// Store keys identify outputs: two output references with the same key
/// are the same reference.
pub proof fn lemma_output_key_injective(t1: Seq<char>, v1: nat, t2: Seq<char>, v2: nat)
    requires
        output_key(t1, v1) == output_key(t2, v2),
    ensures
        t1 == t2,
        v1 == v2,
{
    let e1 = encode_utf8(t1);
    let e2 = encode_utf8(t2);
    let d1 = decimal_bytes(v1);
    let d2 = decimal_bytes(v2);
    let k1 = output_key(t1, v1);
    let k2 = output_key(t2, v2);
    lemma_decimal_digits(v1);
    lemma_decimal_digits(v2);
    assert(k1 == e1 + seq![0x3au8] + d1);
    assert(k2 == e2 + seq![0x3au8] + d2);
    if e1.len() < e2.len() {
        assert(k2[e2.len() as int] == 0x3au8);
        assert(k1[e2.len() as int] == d1[e2.len() - e1.len() - 1]);
    } else if e2.len() < e1.len() {
        assert(k1[e1.len() as int] == 0x3au8);
        assert(k2[e1.len() as int] == d2[e1.len() - e2.len() - 1]);
    }
    assert(e1 =~= k1.subrange(0, e1.len() as int));
    assert(e2 =~= k2.subrange(0, e2.len() as int));
    assert(d1 =~= k1.subrange(e1.len() as int + 1, k1.len() as int));
    assert(d2 =~= k2.subrange(e2.len() as int + 1, k2.len() as int));
    encode_utf8_decode_utf8(t1);
    encode_utf8_decode_utf8(t2);
    lemma_decimal_injective(v1, v2);
}

fn push_decimal(out: &mut Vec<u8>, n: u64)
    ensures
        final(out)@ == old(out)@ + decimal_bytes(n as nat),
    decreases n,
{
    if n >= 10 {
        push_decimal(out, n / 10);
    }
    out.push((n % 10) as u8 + 48u8);
    proof {
        assert(final(out)@ =~= old(out)@ + decimal_bytes(n as nat));
    }
}

/// The store key of the output at index `vout` of the transaction `txid`.
pub fn output_key_bytes(txid: &String, vout: u64) -> (k: Vec<u8>)
    ensures
        k@ == output_key(txid@, vout as nat),
{
    let bytes = txid.as_str().as_bytes();
    let mut k: Vec<u8> = Vec::new();
    let mut i: usize = 0;
    while i < bytes.len()
        invariant
            i <= bytes@.len(),
            bytes@ == encode_utf8(txid@),
            k@ == bytes@.subrange(0, i as int),
        decreases bytes@.len() - i,
    {
        k.push(bytes[i]);
        i = i + 1;
        proof {
            assert(k@ =~= bytes@.subrange(0, i as int));
        }
    }
    proof {
        assert(bytes@.subrange(0, bytes@.len() as int) =~= bytes@);
    }
    k.push(0x3au8);
    push_decimal(&mut k, vout);
    proof {
        assert(k@ =~= output_key(txid@, vout as nat));
    }
    k
}

/// The store key of an output reference.
pub fn output_ref_key(r: &OutputRef) -> (k: Vec<u8>)
    ensures
        k@ == output_key(r.txid@, r.vout as nat),
{
    output_key_bytes(&r.txid, r.vout as u64)
}

/// The amount that a stored value encodes; `None` where it is not eight
/// bytes long.
pub fn decode_amount(bytes: &Vec<u8>) -> (r: Option<u64>)
    ensures
        r is Some <==> bytes@.len() == 8,
        r matches Some(v) ==> v == stored_amount(bytes@),
{
    if bytes.len() != 8 {
        None
    } else {
        Some(u64_from_le_bytes(bytes.as_slice()))
    }
}

/// A failure of the delta store.
#[derive(Debug)]
pub enum StoreError {
    /// The underlying sled tree reported an error.
    Storage(sled::Error),
    /// A stored value is not the eight-byte encoding of an amount.
    MalformedValue,
}

/// The delta store: every currently unspent output of the tracked pattern,
/// keyed by its output reference, with its amount. It must be the only
/// writer of its tree; other handles on the tree may read or flush it.
pub struct DeltaStore {
    db: sled::Db,
}

impl DeltaStore {
    /// The store's raw contents: key bytes to value bytes.
    pub closed spec fn entries(&self) -> Map<Seq<u8>, Seq<u8>> {
        tree_entries(self.db)
    }

    /// Takes an open sled tree as the store.
    pub fn new(db: sled::Db) -> (r: DeltaStore)
        ensures
            r.entries() == tree_entries(db),
    {
        DeltaStore { db }
    }

    /// Records an unspent output with its amount.
    pub fn insert_output(&mut self, key: &Vec<u8>, value: u64) -> (r: Result<(), StoreError>)
        ensures
            r matches Ok(_) ==> final(self).entries() == old(self).entries().insert(key@, amount_bytes(value)),
            r matches Err(e) ==> e is Storage,
    {
        let bytes = u64_to_le_bytes(value);
        match tree_insert(&mut self.db, key, bytes) {
            Ok(()) => Ok(()),
            Err(e) => Err(StoreError::Storage(e)),
        }
    }

    /// Removes the output stored under `key`, returning its amount; `None`
    /// where no such output is stored.
    pub fn take_output(&mut self, key: &Vec<u8>) -> (r: Result<Option<u64>, StoreError>)
        ensures
            r matches Ok(None) ==> !old(self).entries().contains_key(key@)
                && final(self).entries() == old(self).entries(),
            r matches Ok(Some(v)) ==> old(self).entries().contains_key(key@)
                && old(self).entries()[key@].len() == 8
                && v == stored_amount(old(self).entries()[key@])
                && final(self).entries() == old(self).entries().remove(key@),
            r matches Err(StoreError::MalformedValue) ==> old(self).entries().contains_key(key@)
                && old(self).entries()[key@].len() != 8
                && final(self).entries() == old(self).entries(),
    {
        match tree_get(&self.db, key) {
            Err(e) => Err(StoreError::Storage(e)),
            Ok(None) => Ok(None),
            Ok(Some(bytes)) => {
                match decode_amount(&bytes) {
                    None => Err(StoreError::MalformedValue),
                    Some(value) => match tree_remove(&mut self.db, key) {
                        Ok(()) => Ok(Some(value)),
                        Err(e) => Err(StoreError::Storage(e)),
                    },
                }
            },
        }
    }
}

} // verus!
