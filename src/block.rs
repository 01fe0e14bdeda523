use vstd::prelude::*;

verus! {

/// Identity of a transaction output: the transaction's id, in its usual
/// hexadecimal display form, and the output's index within it.
#[derive(Clone, Debug)]
pub struct OutputRef {
    pub txid: String,
    pub vout: u32,
}

/// One output of a transaction: an amount in satoshis and its locking script.
#[derive(Clone, Debug)]
pub struct TxOut {
    pub value: u64,
    pub script_pubkey: Vec<u8>,
}

/// One input of a transaction, naming the output it spends.
#[derive(Clone, Debug)]
pub struct TxIn {
    pub previous_output: OutputRef,
}

/// A transaction: its id, the outputs it spends and the outputs it creates.
#[derive(Clone, Debug)]
pub struct Transaction {
    pub txid: String,
    pub input: Vec<TxIn>,
    pub output: Vec<TxOut>,
}

/// A validated block as delivered by the chain-sync provider: its hash in
/// display form, its header time in seconds since the Unix epoch, and its
/// transactions in block order.
#[derive(Clone, Debug)]
pub struct Block {
    pub hash: String,
    pub time: u32,
    pub txdata: Vec<Transaction>,
}

/// A pay-to-public-key locking script: a push of a 65-byte uncompressed or a
/// 33-byte compressed key, followed by `OP_CHECKSIG`.
pub open spec fn is_p2pk_script(s: Seq<u8>) -> bool {
    ||| (s.len() == 67 && s[0] == 0x41u8 && s[66] == 0xacu8)
    ||| (s.len() == 35 && s[0] == 0x21u8 && s[34] == 0xacu8)
}

/// Relies on bitcoin's `Script::is_p2pk` (through nakamoto's re-export) to
/// recognise the tracked output pattern.
#[verifier::external_body]
fn script_is_p2pk(script: &Vec<u8>) -> (r: bool)
    ensures
        r == is_p2pk_script(script@),
{
    nakamoto::common::bitcoin::Script::from(script.clone()).is_p2pk()
}

impl TxOut {
    /// Whether this output matches the tracked script pattern.
    pub fn is_tracked(&self) -> (r: bool)
        ensures
            r == is_p2pk_script(self.script_pubkey@),
    {
        script_is_p2pk(&self.script_pubkey)
    }
}

} // verus!
