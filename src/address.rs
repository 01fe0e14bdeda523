use vstd::prelude::*;

verus! {

/// The output patterns whose unspent set can be aggregated.
#[derive(Clone, Copy, Debug, PartialEq, Eq, Structural)]
pub enum BtcAddressType {
    P2PK,
    P2TR,
}

/// The lower-case name of an address type.
pub open spec fn address_name(t: BtcAddressType) -> Seq<char> {
    match t {
        BtcAddressType::P2PK => seq!['p', '2', 'p', 'k'],
        BtcAddressType::P2TR => seq!['p', '2', 't', 'r'],
    }
}

/// The address type whose lower-case name is `name`, if any.
pub open spec fn address_of_name(name: Seq<char>) -> Option<BtcAddressType> {
    if name == address_name(BtcAddressType::P2PK) {
        Some(BtcAddressType::P2PK)
    } else if name == address_name(BtcAddressType::P2TR) {
        Some(BtcAddressType::P2TR)
    } else {
        None
    }
}

/// The lower-case form of a string, by Unicode's rules.
pub uninterp spec fn lower_of(s: Seq<char>) -> Seq<char>;

/// Relies on `str::to_lowercase`: the lower-case form depends on the
/// characters alone, and the empty string stays empty.
#[verifier::external_body]
fn lowercase(s: &str) -> (r: String)
    ensures
        r@ == lower_of(s@),
        s@.len() == 0 ==> r@.len() == 0,
{
    s.to_lowercase()
}

/// The text of the error for a name that is no address type.
pub open spec fn unknown_type_message(s: Seq<char>) -> Seq<char> {
    "Unknown address type: "@ + s
}

/// Suffix of the checkpoint table's name.
pub open spec fn table_suffix() -> Seq<char> {
    "_utxo_block_aggregates"@
}

impl BtcAddressType {
    /// The address type named by an already lower-cased name.
    pub fn from_lowercase_name(name: &str) -> (r: Option<BtcAddressType>)
        ensures
            r == address_of_name(name@),
    {
        let n = name.to_string();
        let p2pk = String::from_str("p2pk");
        let p2tr = String::from_str("p2tr");
        proof {
            reveal_strlit("p2pk");
            reveal_strlit("p2tr");
            assert("p2pk"@ =~= address_name(BtcAddressType::P2PK));
            assert("p2tr"@ =~= address_name(BtcAddressType::P2TR));
        }
        if n == p2pk {
            Some(BtcAddressType::P2PK)
        } else if n == p2tr {
            Some(BtcAddressType::P2TR)
        } else {
            None
        }
    }

    /// Parses an address type by its name, in any case.
    pub fn from_str(s: &str) -> (r: Result<BtcAddressType, String>)
        ensures
            match r {
                Ok(t) => address_of_name(lower_of(s@)) == Some(t),
                Err(m) => address_of_name(lower_of(s@)) is None && m@ == unknown_type_message(s@),
            },
    {
        let lower = lowercase(s);
        match Self::from_lowercase_name(lower.as_str()) {
            Some(t) => Ok(t),
            None => {
                let mut m = String::from_str("Unknown address type: ");
                m.append(s);
                Err(m)
            },
        }
    }

    /// The lower-case name as an owned string.
    pub fn to_string(&self) -> (r: String)
        ensures
            r@ == address_name(*self),
    {
        String::from_str(self.as_str())
    }

    /// The name of the checkpoint table of this address type:
    /// `{name}_utxo_block_aggregates`.
    pub fn table_name(&self) -> (r: String)
        ensures
            r@ == address_name(*self) + table_suffix(),
    {
        let mut r = String::from_str(self.as_str());
        r.append("_utxo_block_aggregates");
        r
    }

    /// The name of the descending height index of the checkpoint table:
    /// `idx_{name}_block_height`.
    pub fn height_index_name(&self) -> (r: String)
        ensures
            r@ == "idx_"@ + address_name(*self) + "_block_height"@,
    {
        let mut r = String::from_str("idx_");
        r.append(self.as_str());
        r.append("_block_height");
        r
    }

    /// The lower-case name, as used in table names and query strings.
    pub fn as_str(&self) -> (r: &'static str)
        ensures
            r@ == address_name(*self),
    {
        match self {
            BtcAddressType::P2PK => {
                let s = "p2pk";
                proof { reveal_strlit("p2pk"); }
                s
            },
            BtcAddressType::P2TR => {
                let s = "p2tr";
                proof { reveal_strlit("p2tr"); }
                s
            },
        }
    }
}

} // verus!
