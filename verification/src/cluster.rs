//! The registry of the nodes of a cluster: under which keys the nodes are
//! kept in the meta store, and what the store's replies mean.

use vstd::prelude::*;
use vstd::string::StringExecFns;
use vstd::string::StringSliceAdditionalSpecFns;
use vstd::utf8::{decode_utf8, valid_utf8};
use crate::base::{decimal, decimal_text, push_char};

verus! {

pub const CLUSTER_API_KEY_PREFIX: &'static str = "__fd_clusters";

/// Why the registry could not do what was asked. Each error carries its
/// message, but for the unknown node, which carries the node's id.
#[derive(Clone, Debug, PartialEq, Eq)]
pub enum ErrorCode {
    TenantIsEmpty(String),
    ClusterNodeAlreadyExists(String),
    ClusterUnknownNode(String),
    BadBytes(String),
}

/// Whether a byte stands for itself in a key: digits, letters and the
/// underscore do.
pub open spec fn plain_byte(b: u8) -> bool {
    (0x30 <= b <= 0x39) || b == 0x5f || (0x61 <= b <= 0x7a) || (0x41 <= b <= 0x5a)
}

/// The digit, in lower case, of a number below sixteen.
pub open spec fn hex_digit(n: u8) -> u8 {
    if n < 10 {
        (0x30 + n) as u8
    } else {
        (0x61 + (n - 10)) as u8
    }
}

/// The bytes of an escaped key: a byte that stands for itself as it is,
/// every other byte as a percent sign and the two digits of its value.
pub open spec fn escaped(key: Seq<u8>) -> Seq<u8>
    decreases key.len(),
{
    if key.len() == 0 {
        Seq::empty()
    } else {
        let n = key.len() - 1;
        let b = key[n];
        if plain_byte(b) {
            escaped(key.take(n)).push(b)
        } else {
            escaped(key.take(n)).push(0x25).push(hex_digit(b / 16)).push(hex_digit(b % 16))
        }
    }
}

/// The characters of some bytes below 128.
pub open spec fn ascii_text(bytes: Seq<u8>) -> Seq<char> {
    Seq::new(bytes.len(), |i: int| bytes[i] as char)
}

fn hex(num: u8) -> (digit: u8)
    requires
        num < 16,
    ensures
        digit == hex_digit(num),
        digit < 128,
{
    if num < 10 {
        0x30 + num
    } else {
        0x61 + (num - 10)
    }
}

fn push_ascii(out: &mut String, b: u8)
    requires
        b < 128,
    ensures
        final(out)@ == old(out)@.push(b as char),
{
    push_char(out, b as char);
}

/// Escapes a text for use as part of a key of the meta store.
pub fn escape_for_key(key: &str) -> (out: String)
    ensures
        out@ == ascii_text(escaped(key.spec_bytes())),
{
    let bytes: &[u8] = key.as_bytes();
    let mut out: String = String::new();
    let mut i: usize = 0;
    proof {
        assert(out@ =~= ascii_text(escaped(bytes@.take(0))));
    }
    while i < bytes.len()
        invariant
            i <= bytes.len(),
            out@ == ascii_text(escaped(bytes@.take(i as int))),
        decreases bytes.len() - i,
    {
        let b: u8 = bytes[i];
        let ghost before = escaped(bytes@.take(i as int));
        proof {
            assert(bytes@.take(i + 1).take(i as int) == bytes@.take(i as int));
        }
        if (0x30 <= b && b <= 0x39) || b == 0x5f || (0x61 <= b && b <= 0x7a) || (0x41 <= b && b
            <= 0x5a) {
            push_ascii(&mut out, b);
            proof {
                assert(out@ =~= ascii_text(before.push(b)));
            }
        } else {
            push_ascii(&mut out, 0x25);
            push_ascii(&mut out, hex(b / 16));
            push_ascii(&mut out, hex(b % 16));
            proof {
                assert(out@ =~= ascii_text(
                    before.push(0x25).push(hex_digit(b / 16)).push(hex_digit(b % 16)),
                ));
            }
        }
        i = i + 1;
    }
    proof {
        assert(bytes@.take(bytes.len() as int) == bytes@);
    }
    out
}

/// The value of a digit of an escaped byte. The digits `a` to `f` count from
/// zero, as the digits `0` to `5` do.
pub open spec fn unhex_digit(b: u8) -> u8 {
    if 0x30 <= b <= 0x39 {
        (b - 0x30) as u8
    } else {
        (b - 0x61) as u8
    }
}

/// Whether a byte is a digit of an escaped byte.
pub open spec fn is_hex_digit(b: u8) -> bool {
    (0x30 <= b <= 0x39) || (0x61 <= b <= 0x66)
}

/// Whether, from place `from` on, every percent sign is followed by two
/// digits.
pub open spec fn well_escaped(key: Seq<u8>, from: int) -> bool
    decreases key.len() - from,
{
    if from < 0 || from >= key.len() {
        true
    } else if key[from] == 0x25 {
        from + 2 < key.len() && is_hex_digit(key[from + 1]) && is_hex_digit(key[from + 2])
            && well_escaped(key, from + 3)
    } else {
        well_escaped(key, from + 1)
    }
}

/// The bytes that an escaped key stands for, from place `from` on.
pub open spec fn unescaped(key: Seq<u8>, from: int) -> Seq<u8>
    decreases key.len() - from,
{
    if from < 0 || from >= key.len() {
        Seq::empty()
    } else if key[from] == 0x25 {
        if from + 2 < key.len() {
            seq![((unhex_digit(key[from + 1]) * 16 + unhex_digit(key[from + 2])) % 256) as u8]
                + unescaped(key, from + 3)
        } else {
            Seq::empty()
        }
    } else {
        seq![key[from]] + unescaped(key, from + 1)
    }
}

fn unhex(num: u8) -> (value: u8)
    requires
        is_hex_digit(num),
    ensures
        value == unhex_digit(num),
        value < 10,
{
    if 0x30 <= num && num <= 0x39 {
        num - 0x30
    } else {
        num - 0x61
    }
}

/// Says whether `unescape_for_key` can take a key.
pub fn is_well_escaped(key: &str) -> (ok: bool)
    ensures
        ok == well_escaped(key.spec_bytes(), 0),
{
    let bytes: &[u8] = key.as_bytes();
    let mut index: usize = 0;
    while index < bytes.len()
        invariant
            index <= bytes.len(),
            bytes@ == key.spec_bytes(),
            well_escaped(bytes@, 0) == well_escaped(bytes@, index as int),
        decreases bytes.len() - index,
    {
        assert(bytes@[index as int] == 0x25 ==> (well_escaped(bytes@, index as int) == (index + 2
            < bytes@.len() && is_hex_digit(bytes@[index + 1]) && is_hex_digit(bytes@[index + 2])
            && well_escaped(bytes@, index + 3))));
        if bytes[index] == 0x25 {
            if bytes.len() - index < 3 {
                return false;
            }
            let a: u8 = bytes[index + 1];
            let b: u8 = bytes[index + 2];
            let a_ok: bool = (0x30 <= a && a <= 0x39) || (0x61 <= a && a <= 0x66);
            let b_ok: bool = (0x30 <= b && b <= 0x39) || (0x61 <= b && b <= 0x66);
            if !a_ok || !b_ok {
                return false;
            }
            index = index + 3;
        } else {
            index = index + 1;
        }
    }
    true
}

/// Reads an escaped key back. The bytes it stands for must be text: where
/// they are not valid UTF-8 the key is refused.
pub fn unescape_for_key(key: &str) -> (res: Result<String, ErrorCode>)
    requires
        well_escaped(key.spec_bytes(), 0),
    ensures
        valid_utf8(unescaped(key.spec_bytes(), 0)) ==> (res matches Ok(text) && text@
            == decode_utf8(unescaped(key.spec_bytes(), 0))),
        !valid_utf8(unescaped(key.spec_bytes(), 0)) ==> res matches Err(ErrorCode::BadBytes(_)),
{
    let bytes: &[u8] = key.as_bytes();
    let mut new_key: Vec<u8> = Vec::new();
    let mut index: usize = 0;
    proof {
        assert(new_key@ + unescaped(bytes@, 0) =~= unescaped(bytes@, 0));
    }
    while index < bytes.len()
        invariant
            index <= bytes.len(),
            well_escaped(bytes@, index as int),
            new_key@ + unescaped(bytes@, index as int) == unescaped(bytes@, 0),
        decreases bytes.len() - index,
    {
        let ghost before = new_key@;
        if bytes[index] == 0x25 {
            let mut num: u8 = unhex(bytes[index + 1]) * 16;
            num += unhex(bytes[index + 2]);
            new_key.push(num);
            proof {
                assert(new_key@ + unescaped(bytes@, index + 3) =~= before + unescaped(
                    bytes@,
                    index as int,
                ));
            }
            index += 3;
        } else {
            new_key.push(bytes[index]);
            proof {
                assert(new_key@ + unescaped(bytes@, index + 1) =~= before + unescaped(
                    bytes@,
                    index as int,
                ));
            }
            index += 1;
        }
    }
    proof {
        assert(new_key@ + Seq::<u8>::empty() =~= new_key@);
    }
    match crate::base::string_from_utf8(new_key) {
        Some(text) => Ok(text),
        None => Err(ErrorCode::BadBytes(String::from_str("invalid utf-8 sequence"))),
    }
}

/// What the meta store says to an attempt to add a key: it was added, under
/// a sequence number, or a value exists already, under its own.
#[derive(Clone, Copy, Debug, PartialEq, Eq, Structural)]
pub enum AddResult {
    Added(u64),
    Exists(u64),
}

/// What the meta store says to a change of a key: the sequence number of
/// the value before, if there was one, and of the value after, if there is
/// one; `ident` is set where the store assigned an id.
#[derive(Clone, Copy, Debug, PartialEq, Eq, Structural)]
pub struct UpsertReply {
    pub ident: Option<u64>,
    pub prev: Option<u64>,
    pub result: Option<u64>,
}

/// The sequence number that a change is made conditional on.
#[derive(Clone, Copy, Debug, PartialEq, Eq, Structural)]
pub enum MatchSeq {
    /// The value must have exactly this sequence number.
    Exact(u64),
    /// The value must have at least this sequence number.
    GE(u64),
    /// Any value, or none.
    Any,
}

pub struct ClusterMgr {
    lift_time: u64,
    cluster_prefix: String,
}

/// The key under which the nodes of a cluster are kept.
pub open spec fn prefix_text(tenant: Seq<u8>, cluster_id: Seq<u8>) -> Seq<char> {
    CLUSTER_API_KEY_PREFIX@ + "/"@ + ascii_text(escaped(tenant)) + "/"@ + ascii_text(
        escaped(cluster_id),
    ) + "/databend_query"@
}

impl ClusterMgr {
    pub closed spec fn prefix(&self) -> Seq<char> {
        self.cluster_prefix@
    }

    /// The seconds for which a node stays in the registry without a
    /// heartbeat.
    pub closed spec fn lift_time(&self) -> u64 {
        self.lift_time
    }

    /// The registry of one cluster of one tenant. The tenant must have a
    /// name.
    pub fn create(tenant: &str, cluster_id: &str, lift_time: u64) -> (res: Result<
        ClusterMgr,
        ErrorCode,
    >)
        ensures
            tenant@.len() == 0 ==> (res matches Err(ErrorCode::TenantIsEmpty(m)) && m@
                == "Tenant can not empty(while cluster mgr create)"@),
            tenant@.len() != 0 ==> (res matches Ok(mgr) && mgr.lift_time() == lift_time
                && mgr.prefix() == prefix_text(tenant.spec_bytes(), cluster_id.spec_bytes())),
    {
        if tenant.is_empty() {
            return Err(
                ErrorCode::TenantIsEmpty(
                    String::from_str("Tenant can not empty(while cluster mgr create)"),
                ),
            );
        }
        let mut cluster_prefix: String = String::from_str(CLUSTER_API_KEY_PREFIX);
        cluster_prefix.append("/");
        let tenant_part: String = escape_for_key(tenant);
        cluster_prefix.append(tenant_part.as_str());
        cluster_prefix.append("/");
        let cluster_part: String = escape_for_key(cluster_id);
        cluster_prefix.append(cluster_part.as_str());
        cluster_prefix.append("/databend_query");
        Ok(ClusterMgr { lift_time, cluster_prefix })
    }

    pub fn cluster_prefix(&self) -> (prefix: &String)
        ensures
            prefix@ == self.prefix(),
    {
        &self.cluster_prefix
    }

    /// The time, in seconds since the epoch, at which a node entered or
    /// refreshed at `now` leaves the registry.
    pub fn new_lift_time(&self, now: u64) -> (expire_at: u64)
        requires
            now + self.lift_time() <= u64::MAX,
        ensures
            expire_at == now + self.lift_time(),
    {
        now + self.lift_time
    }

    /// The key under which a node is kept: the cluster's key, a slash, and
    /// the node's id, escaped.
    pub fn node_key(&self, node_id: &str) -> (key: String)
        ensures
            key@ == self.prefix() + "/"@ + ascii_text(escaped(node_id.spec_bytes())),
    {
        let mut key: String = self.cluster_prefix.clone();
        key.append("/");
        let id: String = escape_for_key(node_id);
        key.append(id.as_str());
        key
    }

    /// Whether a key, read back, is long enough to hold a node's id behind
    /// the cluster's key and the slash, and can be cut there.
    pub open spec fn holds_node_id(&self, key: &str) -> bool {
        let cut = self.prefix_len() + 1;
        cut <= usize::MAX && vstd::utf8::is_char_boundary(key.spec_bytes(), cut as int)
    }

    /// The number of bytes of the cluster's key.
    pub closed spec fn prefix_len(&self) -> usize {
        vstd::utf8::encode_utf8(self.cluster_prefix@).len() as usize
    }

    /// Says whether `node_id_of` can take a key.
    pub fn can_hold_node_id(&self, key: &str) -> (ok: bool)
        ensures
            ok == self.holds_node_id(key),
    {
        let prefix_len: usize = self.cluster_prefix.as_str().len();
        if prefix_len == usize::MAX {
            false
        } else {
            key.is_char_boundary(prefix_len + 1)
        }
    }

    /// The id of the node kept under a key, the key read back: what stands
    /// behind the cluster's key and the slash.
    pub fn node_id_of(&self, key: &str) -> (id: String)
        requires
            self.holds_node_id(key),
        ensures
            id@ == decode_utf8(
                key.spec_bytes().subrange(self.prefix_len() + 1, key.spec_bytes().len() as int),
            ),
    {
        let prefix_len: usize = self.cluster_prefix.as_str().len();
        let (_, tail) = key.split_at(prefix_len + 1);
        proof {
            vstd::utf8::encode_utf8_decode_utf8(tail@);
        }
        tail.to_owned()
    }

    /// What adding a node came to: its sequence number where it was added;
    /// an error where a node of that id exists.
    pub fn add_node_outcome(res: AddResult) -> (out: Result<u64, ErrorCode>)
        ensures
            match res {
                AddResult::Added(seq) => out == Ok::<u64, ErrorCode>(seq),
                AddResult::Exists(seq) => out matches Err(ErrorCode::ClusterNodeAlreadyExists(m))
                    && m@ == "Cluster ID already exists, seq ["@ + decimal(seq as nat) + "]"@,
            },
    {
        match res {
            AddResult::Added(seq) => Ok(seq),
            AddResult::Exists(seq) => {
                let mut msg: String = String::from_str("Cluster ID already exists, seq [");
                let digits: String = decimal_text(seq);
                msg.append(digits.as_str());
                msg.append("]");
                Err(ErrorCode::ClusterNodeAlreadyExists(msg))
            },
        }
    }

    /// What dropping a node came to: done where the store held the node and
    /// holds it no more; an error that names the node otherwise.
    pub fn drop_node_outcome(node_id: String, reply: UpsertReply) -> (out: Result<(), ErrorCode>)
        ensures
            reply.ident is None && reply.prev is Some && reply.result is None ==> out is Ok,
            !(reply.ident is None && reply.prev is Some && reply.result is None) ==> out
                == Err::<(), ErrorCode>(ErrorCode::ClusterUnknownNode(node_id)),
    {
        match (reply.ident, reply.prev, reply.result) {
            (None, Some(_), None) => Ok(()),
            _ => Err(ErrorCode::ClusterUnknownNode(node_id)),
        }
    }

    /// The condition under which a heartbeat refreshes a node: the sequence
    /// number the caller knows, or else any node that exists.
    pub fn heartbeat_condition(seq: Option<u64>) -> (condition: MatchSeq)
        ensures
            condition == (match seq {
                None => MatchSeq::GE(1),
                Some(exact) => MatchSeq::Exact(exact),
            }),
    {
        match seq {
            None => MatchSeq::GE(1),
            Some(exact) => MatchSeq::Exact(exact),
        }
    }

    /// The condition under which a node is dropped: the sequence number the
    /// caller knows, or else whatever is there.
    pub fn drop_condition(seq: Option<u64>) -> (condition: MatchSeq)
        ensures
            condition == (match seq {
                None => MatchSeq::Any,
                Some(exact) => MatchSeq::Exact(exact),
            }),
    {
        match seq {
            None => MatchSeq::Any,
            Some(exact) => MatchSeq::Exact(exact),
        }
    }

    /// What a heartbeat came to: the node's new sequence number where the
    /// store held the node and holds it still; an error that names the node
    /// otherwise.
    pub fn heartbeat_outcome(node_id: String, reply: UpsertReply) -> (out: Result<u64, ErrorCode>)
        ensures
            match reply.result {
                Some(seq) => if reply.ident is None && reply.prev is Some {
                    out == Ok::<u64, ErrorCode>(seq)
                } else {
                    out == Err::<u64, ErrorCode>(ErrorCode::ClusterUnknownNode(node_id))
                },
                None => out == Err::<u64, ErrorCode>(ErrorCode::ClusterUnknownNode(node_id)),
            },
    {
        match (reply.ident, reply.prev, reply.result) {
            (None, Some(_), Some(seq)) => Ok(seq),
            _ => Err(ErrorCode::ClusterUnknownNode(node_id)),
        }
    }
}

} // verus!
