use crate::bytes::B256;
use crate::prover::ProverSettings;
use vstd::prelude::*;
use vstd::string::StringExecFns;

verus! {

/// The value of a hexadecimal digit of either case.
pub open spec fn hex_value(c: char) -> Option<u8> {
    if '0' <= c && c <= '9' {
        Some((c as u8 - 48) as u8)
    } else if 'a' <= c && c <= 'f' {
        Some((c as u8 - 87) as u8)
    } else if 'A' <= c && c <= 'F' {
        Some((c as u8 - 55) as u8)
    } else {
        None
    }
}

/// The text without a leading `0x` or `0X`.
pub open spec fn strip_hex_prefix(s: Seq<char>) -> Seq<char> {
    if s.len() >= 2 && s[0] == '0' && (s[1] == 'x' || s[1] == 'X') {
        s.subrange(2, s.len() as int)
    } else {
        s
    }
}

/// `s` spells the 32 bytes `b` in hexadecimal, with or without a prefix.
pub open spec fn spells_b256(s: Seq<char>, b: Seq<u8>) -> bool {
    let d = strip_hex_prefix(s);
    &&& d.len() == 64
    &&& b.len() == 32
    &&& forall|i: int|
        0 <= i < 32 ==> {
            &&& #[trigger] hex_value(d[2 * i]) is Some
            &&& hex_value(d[2 * i + 1]) is Some
            &&& b[i] == hex_value(d[2 * i])->Some_0 * 16 + hex_value(d[2 * i + 1])->Some_0
        }
}

/// `s` is 64 hexadecimal digits, with or without a prefix.
pub open spec fn is_b256_hex(s: Seq<char>) -> bool {
    let d = strip_hex_prefix(s);
    &&& d.len() == 64
    &&& forall|i: int| 0 <= i < 64 ==> #[trigger] hex_value(d[i]) is Some
}

/// Relies on the `FromStr` of alloy_primitives::FixedBytes (const-hex
/// decoding): an optional `0x` or `0X`, then exactly two hexadecimal digits
/// of either case per byte.
#[verifier::external_body]
fn b256_from_str(s: &str) -> (r: Option<B256>)
    ensures
        r is Some <==> is_b256_hex(s@),
        r is Some ==> spells_b256(s@, r->Some_0@),
{
    <alloy_primitives::B256 as std::str::FromStr>::from_str(s).ok().map(|b| B256 { bytes: b.0 })
}

/// Parses a 32-byte word written in hexadecimal.
pub fn parse_b256(s: &str) -> (r: Result<B256, String>)
    ensures
        r is Ok <==> is_b256_hex(s@),
        r is Ok ==> spells_b256(s@, r->Ok_0@),
        r is Err ==> r->Err_0@ == "Invalid B256 value: "@ + s@,
{
    match b256_from_str(s) {
        Some(b) => Ok(b),
        None => {
            let mut msg = String::from_str("Invalid B256 value: ");
            msg.append(s);
            Err(msg)
        },
    }
}

/// Node addresses and settings shared by the validator's commands.
#[derive(Debug)]
pub struct CoreArgs {
    pub l1_node_address: String,
    pub l1_beacon_address: String,
    pub op_node_address: String,
    pub registry_contract: String,
    /// Verbosity level.
    pub v: u8,
}

/// The arguments of the validator.
#[derive(Debug)]
pub struct ValidateArgs {
    pub core: CoreArgs,
    /// Address of the L2 JSON-RPC endpoint.
    pub l2_node_address: String,
    /// Path of the prover executable.
    pub kailua_host: String,
    /// Secret key of the L1 wallet that submits proofs.
    pub validator_key: String,
}

impl ValidateArgs {
    /// The settings the prover is invoked with.
    pub fn prover_settings(&self, l2_chain_id: String, data_dir: String) -> (r: ProverSettings)
        ensures
            r.l2_chain_id@ == l2_chain_id@,
            r.l1_node_address@ == self.core.l1_node_address@,
            r.l1_beacon_address@ == self.core.l1_beacon_address@,
            r.l2_node_address@ == self.l2_node_address@,
            r.op_node_address@ == self.core.op_node_address@,
            r.data_dir@ == data_dir@,
            r.verbosity == self.core.v,
    {
        ProverSettings {
            l2_chain_id,
            l1_node_address: String::from_str(self.core.l1_node_address.as_str()),
            l1_beacon_address: String::from_str(self.core.l1_beacon_address.as_str()),
            l2_node_address: String::from_str(self.l2_node_address.as_str()),
            op_node_address: String::from_str(self.core.op_node_address.as_str()),
            data_dir,
            verbosity: self.core.v,
        }
    }
}

/// The arguments of the proving client.
#[derive(Debug)]
pub struct KailuaClientCli {
    pub kailua_verbosity: u8,
    pub precondition_validation_data_hash: Option<B256>,
}

} // verus!
