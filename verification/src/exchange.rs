//! Exchange wire format and EIP-712 signing.
//!
//! Actions are framed as MessagePack maps with a fixed key order — the
//! order the venue's signer expects — so the byte layout is part of the
//! library's contract: every encoder's output equals its spec sequence
//! byte for byte. Hashing goes through Keccak-256 and signing through
//! secp256k1, both behind trusted wrappers.

use vstd::prelude::*;

verus! {

/// One order as the venue wires it: asset index, side, price and size
/// as decimal strings, reduce-only flag, and the order type.
#[derive(Debug, Clone)]
pub struct OrderWire {
    pub a: u32,
    pub b: bool,
    pub p: String,
    pub s: String,
    pub r: bool,
    pub t: OrderTypeWire,
}

#[derive(Debug, Clone)]
pub enum OrderTypeWire {
    Limit(LimitOrderType),
    Trigger(TriggerOrderType),
}

#[derive(Debug, Clone)]
pub struct LimitOrderType {
    /// Time in force, normally "Gtc".
    pub tif: String,
}

#[derive(Debug, Clone)]
pub struct TriggerOrderType {
    pub is_market: bool,
    pub trigger_px: String,
    /// "tp" or "sl".
    pub tpsl: String,
}

/// A signable action: an order batch, a cancel batch, or a leverage
/// update.
#[derive(Debug, Clone)]
pub enum Action {
    Order { orders: Vec<OrderWire>, grouping: String },
    Cancel { cancels: Vec<CancelRequest> },
    UpdateLeverage { asset: u32, is_cross: bool, leverage: u32 },
}

#[derive(Debug, Clone, Copy, PartialEq, Eq, Structural)]
pub struct CancelRequest {
    pub a: u32,
    pub o: u64,
}

/// An ECDSA signature in the venue's format: `r` and `s` as 0x-prefixed
/// hex, `v` as 27 plus the recovery id.
#[derive(Debug, Clone)]
pub struct Signature {
    pub r: String,
    pub s: String,
    pub v: u8,
}

/// The signed request body.
#[derive(Debug, Clone)]
pub struct ExchangeRequest {
    pub action: Action,
    pub nonce: u64,
    pub signature: Signature,
    pub vault_address: Option<String>,
}

/// One fill row as reported by the venue (decimal fields as strings).
#[derive(Debug, Clone)]
pub struct Fill {
    pub coin: String,
    pub px: String,
    pub sz: String,
    pub side: String,
    pub time: u64,
    pub start_position: String,
    pub dir: String,
    pub closed_pnl: Option<String>,
    pub hash: String,
    pub oid: u64,
    pub crossed: bool,
    pub fee: String,
}

/// One funding payment row as reported by the venue.
#[derive(Debug, Clone)]
pub struct Funding {
    pub time: u64,
    pub coin: String,
    pub usdc: Option<String>,
    pub szi: Option<String>,
    pub funding_rate: String,
}

/// The bytes of an ASCII string, character by character.
pub open spec fn ascii_bytes(s: Seq<char>) -> Seq<u8> {
    Seq::new(s.len(), |i: int| s[i] as u8)
}

/// A short string fits in a MessagePack fixstr.
pub open spec fn fixstr_ok(s: Seq<char>) -> bool {
    s.len() < 32 && vstd::utf8::is_ascii_chars(s)
}

/// MessagePack fixstr: one header byte `0xa0 | len`, then the bytes.
pub open spec fn mp_str(s: Seq<char>) -> Seq<u8>
    recommends
        fixstr_ok(s),
{
    seq![(0xa0 + s.len()) as u8] + ascii_bytes(s)
}

/// MessagePack fixmap header for `n` pairs.
pub open spec fn mp_map(n: int) -> Seq<u8>
    recommends
        0 <= n < 16,
{
    seq![(0x80 + n) as u8]
}

/// MessagePack fixarray header for `n` items.
pub open spec fn mp_array(n: int) -> Seq<u8>
    recommends
        0 <= n < 16,
{
    seq![(0x90 + n) as u8]
}

pub open spec fn mp_bool(b: bool) -> Seq<u8> {
    if b {
        seq![0xc3u8]
    } else {
        seq![0xc2u8]
    }
}

/// MessagePack unsigned integer in its most compact form.
pub open spec fn mp_uint(n: int) -> Seq<u8>
    recommends
        0 <= n <= u64::MAX,
{
    if n <= 0x7f {
        seq![n as u8]
    } else if n <= 0xff {
        seq![0xccu8, n as u8]
    } else if n <= 0xffff {
        seq![0xcdu8, (n / 0x100) as u8, (n % 0x100) as u8]
    } else if n <= 0xffff_ffff {
        seq![
            0xceu8,
            (n / 0x100_0000) as u8,
            (n / 0x1_0000 % 0x100) as u8,
            (n / 0x100 % 0x100) as u8,
            (n % 0x100) as u8,
        ]
    } else {
        be8_bytes(n).insert(0, 0xcfu8)
    }
}

/// A 64-bit value as eight big-endian bytes.
pub open spec fn be8_bytes(n: int) -> Seq<u8> {
    seq![
        (n / 0x100_0000_0000_0000 % 0x100) as u8,
        (n / 0x1_0000_0000_0000 % 0x100) as u8,
        (n / 0x100_0000_0000 % 0x100) as u8,
        (n / 0x1_0000_0000 % 0x100) as u8,
        (n / 0x100_0000 % 0x100) as u8,
        (n / 0x1_0000 % 0x100) as u8,
        (n / 0x100 % 0x100) as u8,
        (n % 0x100) as u8,
    ]
}

/// Wire bytes of an order type: an externally tagged one-pair map.
pub open spec fn order_type_bytes(t: OrderTypeWire) -> Seq<u8> {
    match t {
        OrderTypeWire::Limit(l) => mp_map(1) + mp_str("limit"@) + mp_map(1)
            + mp_str("tif"@) + mp_str(l.tif@),
        OrderTypeWire::Trigger(tr) => mp_map(1) + mp_str("trigger"@) + mp_map(3)
            + mp_str("isMarket"@) + mp_bool(tr.is_market)
            + mp_str("triggerPx"@) + mp_str(tr.trigger_px@)
            + mp_str("tpsl"@) + mp_str(tr.tpsl@),
    }
}

/// Wire bytes of one order: a six-pair map with keys in declaration
/// order `a, b, p, s, r, t`.
pub open spec fn order_wire_bytes(w: OrderWire) -> Seq<u8> {
    mp_map(6)
        + mp_str("a"@) + mp_uint(w.a as int)
        + mp_str("b"@) + mp_bool(w.b)
        + mp_str("p"@) + mp_str(w.p@)
        + mp_str("s"@) + mp_str(w.s@)
        + mp_str("r"@) + mp_bool(w.r)
        + mp_str("t"@) + order_type_bytes(w.t)
}

/// Wire bytes of a cancel: a two-pair map `a, o`.
pub open spec fn cancel_bytes(c: CancelRequest) -> Seq<u8> {
    mp_map(2) + mp_str("a"@) + mp_uint(c.a as int) + mp_str("o"@) + mp_uint(c.o as int)
}

pub open spec fn orders_bytes(orders: Seq<OrderWire>) -> Seq<u8>
    decreases orders.len(),
{
    if orders.len() == 0 {
        Seq::empty()
    } else {
        orders_bytes(orders.drop_last()) + order_wire_bytes(orders.last())
    }
}

pub open spec fn cancels_bytes(cancels: Seq<CancelRequest>) -> Seq<u8>
    decreases cancels.len(),
{
    if cancels.len() == 0 {
        Seq::empty()
    } else {
        cancels_bytes(cancels.drop_last()) + cancel_bytes(cancels.last())
    }
}

/// Canonical bytes of an action: a map with `type` first and the
/// fields in declaration order, exactly as the venue's signer hashes
/// them.
pub open spec fn action_bytes(a: Action) -> Seq<u8> {
    match a {
        Action::Order { orders, grouping } => mp_map(3)
            + mp_str("type"@) + mp_str("order"@)
            + mp_str("orders"@) + mp_array(orders@.len() as int) + orders_bytes(orders@)
            + mp_str("grouping"@) + mp_str(grouping@),
        Action::Cancel { cancels } => mp_map(2)
            + mp_str("type"@) + mp_str("cancel"@)
            + mp_str("cancels"@) + mp_array(cancels@.len() as int) + cancels_bytes(cancels@),
        Action::UpdateLeverage { asset, is_cross, leverage } => mp_map(4)
            + mp_str("type"@) + mp_str("updateLeverage"@)
            + mp_str("asset"@) + mp_uint(asset as int)
            + mp_str("isCross"@) + mp_bool(is_cross)
            + mp_str("leverage"@) + mp_uint(leverage as int),
    }
}

/// Every string carried by the action fits in a fixstr and every
/// batch in a fixarray.
pub open spec fn action_encodable(a: Action) -> bool {
    match a {
        Action::Order { orders, grouping } => {
            &&& orders@.len() < 16
            &&& fixstr_ok(grouping@)
            &&& forall|i: int| 0 <= i < orders@.len() ==> order_encodable(#[trigger] orders@[i])
        },
        Action::Cancel { cancels } => cancels@.len() < 16,
        Action::UpdateLeverage { .. } => true,
    }
}

pub open spec fn order_encodable(w: OrderWire) -> bool {
    &&& fixstr_ok(w.p@)
    &&& fixstr_ok(w.s@)
    &&& match w.t {
        OrderTypeWire::Limit(l) => fixstr_ok(l.tif@),
        OrderTypeWire::Trigger(tr) => fixstr_ok(tr.trigger_px@) && fixstr_ok(tr.tpsl@),
    }
}

/// Append a short ASCII string as a MessagePack fixstr.
fn push_str(buf: &mut Vec<u8>, s: &str)
    requires
        fixstr_ok(s@),
    ensures
        final(buf)@ == old(buf)@ + mp_str(s@),
{
    proof {
        vstd::string::is_ascii_spec_bytes(s);
    }
    let bytes = s.as_bytes();
    proof {
        assert(bytes@ =~= ascii_bytes(s@));
    }
    let header: u8 = 0xa0 + (bytes.len() as u8);
    buf.push(header);
    proof {
        assert(buf@ =~= old(buf)@ + mp_str(s@).take(1));
    }
    let mut i: usize = 0;
    while i < bytes.len()
        invariant
            i <= bytes@.len(),
            bytes@ == ascii_bytes(s@),
            bytes@.len() == s@.len() < 32,
            buf@ == old(buf)@ + mp_str(s@).take(1 + i as int),
        decreases bytes.len() - i,
    {
        buf.push(bytes[i]);
        proof {
            assert(buf@ =~= old(buf)@ + mp_str(s@).take(1 + (i + 1) as int));
        }
        i += 1;
    }
    proof {
        assert(mp_str(s@).take(1 + bytes@.len() as int) =~= mp_str(s@));
    }
}

fn push_bool(buf: &mut Vec<u8>, b: bool)
    ensures
        final(buf)@ == old(buf)@ + mp_bool(b),
{
    buf.push(if b { 0xc3 } else { 0xc2 });
    proof {
        assert(buf@ =~= old(buf)@ + mp_bool(b));
    }
}

/// Append an unsigned integer in its most compact MessagePack form.
fn push_uint(buf: &mut Vec<u8>, n: u64)
    ensures
        final(buf)@ == old(buf)@ + mp_uint(n as int),
{
    if n <= 0x7f {
        buf.push(n as u8);
    } else if n <= 0xff {
        buf.push(0xcc);
        buf.push(n as u8);
    } else if n <= 0xffff {
        buf.push(0xcd);
        buf.push((n / 0x100) as u8);
        buf.push((n % 0x100) as u8);
    } else if n <= 0xffff_ffff {
        buf.push(0xce);
        buf.push((n / 0x100_0000) as u8);
        buf.push((n / 0x1_0000 % 0x100) as u8);
        buf.push((n / 0x100 % 0x100) as u8);
        buf.push((n % 0x100) as u8);
    } else {
        buf.push(0xcf);
        push_be8(buf, n);
    }
    proof {
        assert(buf@ =~= old(buf)@ + mp_uint(n as int));
    }
}

/// Append a 64-bit value as eight big-endian bytes.
fn push_be8(buf: &mut Vec<u8>, n: u64)
    ensures
        final(buf)@ == old(buf)@ + be8_bytes(n as int),
{
    buf.push((n / 0x100_0000_0000_0000 % 0x100) as u8);
    buf.push((n / 0x1_0000_0000_0000 % 0x100) as u8);
    buf.push((n / 0x100_0000_0000 % 0x100) as u8);
    buf.push((n / 0x1_0000_0000 % 0x100) as u8);
    buf.push((n / 0x100_0000 % 0x100) as u8);
    buf.push((n / 0x1_0000 % 0x100) as u8);
    buf.push((n / 0x100 % 0x100) as u8);
    buf.push((n % 0x100) as u8);
    proof {
        assert(buf@ =~= old(buf)@ + be8_bytes(n as int));
    }
}

#[verifier::rlimit(100)]
fn push_order_type(buf: &mut Vec<u8>, t: &OrderTypeWire)
    requires
        match *t {
            OrderTypeWire::Limit(l) => fixstr_ok(l.tif@),
            OrderTypeWire::Trigger(tr) => fixstr_ok(tr.trigger_px@) && fixstr_ok(tr.tpsl@),
        },
    ensures
        final(buf)@ == old(buf)@ + order_type_bytes(*t),
{
    proof {
        reveal_strlit("limit");
        reveal_strlit("tif");
        reveal_strlit("trigger");
        reveal_strlit("isMarket");
        reveal_strlit("triggerPx");
        reveal_strlit("tpsl");
    }
    match t {
        OrderTypeWire::Limit(l) => {
            buf.push(0x81);
            push_str(buf, "limit");
            buf.push(0x81);
            push_str(buf, "tif");
            push_str(buf, l.tif.as_str());
        }
        OrderTypeWire::Trigger(tr) => {
            buf.push(0x81);
            push_str(buf, "trigger");
            buf.push(0x83);
            push_str(buf, "isMarket");
            push_bool(buf, tr.is_market);
            push_str(buf, "triggerPx");
            push_str(buf, tr.trigger_px.as_str());
            push_str(buf, "tpsl");
            push_str(buf, tr.tpsl.as_str());
        }
    }
    proof {
        assert(buf@ =~= old(buf)@ + order_type_bytes(*t));
    }
}

#[verifier::rlimit(100)]
fn push_order_wire(buf: &mut Vec<u8>, w: &OrderWire)
    requires
        order_encodable(*w),
    ensures
        final(buf)@ == old(buf)@ + order_wire_bytes(*w),
{
    proof {
        reveal_strlit("a");
        reveal_strlit("b");
        reveal_strlit("p");
        reveal_strlit("s");
        reveal_strlit("r");
        reveal_strlit("t");
    }
    buf.push(0x86);
    push_str(buf, "a");
    push_uint(buf, w.a as u64);
    push_str(buf, "b");
    push_bool(buf, w.b);
    push_str(buf, "p");
    push_str(buf, w.p.as_str());
    push_str(buf, "s");
    push_str(buf, w.s.as_str());
    push_str(buf, "r");
    push_bool(buf, w.r);
    push_str(buf, "t");
    push_order_type(buf, &w.t);
    proof {
        assert(buf@ =~= old(buf)@ + order_wire_bytes(*w));
    }
}

/// Encode an action into the exact byte sequence the venue hashes.
pub fn encode_action(action: &Action) -> (r: Vec<u8>)
    requires
        action_encodable(*action),
    ensures
        r@ == action_bytes(*action),
{
    match action {
        Action::Order { orders, grouping } => encode_order_action(orders, grouping),
        Action::Cancel { cancels } => encode_cancel_action(cancels),
        Action::UpdateLeverage { asset, is_cross, leverage } =>
            encode_leverage_action(*asset, *is_cross, *leverage),
    }
}

#[verifier::rlimit(100)]
fn encode_order_action(orders: &Vec<OrderWire>, grouping: &String) -> (r: Vec<u8>)
    requires
        orders@.len() < 16,
        fixstr_ok(grouping@),
        forall|i: int| 0 <= i < orders@.len() ==> order_encodable(#[trigger] orders@[i]),
    ensures
        r@ == mp_map(3)
            + mp_str("type"@) + mp_str("order"@)
            + mp_str("orders"@) + mp_array(orders@.len() as int) + orders_bytes(orders@)
            + mp_str("grouping"@) + mp_str(grouping@),
{
    proof {
        reveal_strlit("type");
        reveal_strlit("order");
        reveal_strlit("orders");
        reveal_strlit("grouping");
    }
    let mut buf: Vec<u8> = Vec::new();
    buf.push(0x83);
    push_str(&mut buf, "type");
    push_str(&mut buf, "order");
    push_str(&mut buf, "orders");
    let n = orders.len();
    buf.push(0x90 + (n as u8));
    proof {
        assert(orders_bytes(orders@.take(0int)) =~= Seq::<u8>::empty());
        assert(buf@ =~= mp_map(3) + mp_str("type"@) + mp_str("order"@)
            + mp_str("orders"@) + mp_array(n as int) + orders_bytes(orders@.take(0int)));
    }
    let mut i: usize = 0;
    while i < n
        invariant
            i <= n,
            n == orders@.len() < 16,
            forall|j: int| 0 <= j < orders@.len() ==> order_encodable(#[trigger] orders@[j]),
            buf@ == mp_map(3) + mp_str("type"@) + mp_str("order"@)
                + mp_str("orders"@) + mp_array(n as int)
                + orders_bytes(orders@.take(i as int)),
        decreases n - i,
    {
        proof {
            assert(orders@.take(i + 1).drop_last() =~= orders@.take(i as int));
            assert(orders@.take(i + 1).last() == orders@[i as int]);
        }
        push_order_wire(&mut buf, &orders[i]);
        proof {
            assert(buf@ =~= mp_map(3) + mp_str("type"@) + mp_str("order"@)
                + mp_str("orders"@) + mp_array(n as int)
                + orders_bytes(orders@.take(i + 1)));
        }
        i += 1;
    }
    proof {
        assert(orders@.take(n as int) =~= orders@);
        assert(orders_bytes(orders@.take(n as int)) == orders_bytes(orders@));
    }
    push_str(&mut buf, "grouping");
    push_str(&mut buf, grouping.as_str());
    proof {
        assert(buf@ =~= mp_map(3) + mp_str("type"@) + mp_str("order"@)
            + mp_str("orders"@) + mp_array(n as int) + orders_bytes(orders@)
            + mp_str("grouping"@) + mp_str(grouping@));
    }
    buf
}

#[verifier::rlimit(100)]
fn encode_cancel_action(cancels: &Vec<CancelRequest>) -> (r: Vec<u8>)
    requires
        cancels@.len() < 16,
    ensures
        r@ == mp_map(2)
            + mp_str("type"@) + mp_str("cancel"@)
            + mp_str("cancels"@) + mp_array(cancels@.len() as int) + cancels_bytes(cancels@),
{
    proof {
        reveal_strlit("type");
        reveal_strlit("cancel");
        reveal_strlit("cancels");
    }
    let mut buf: Vec<u8> = Vec::new();
    buf.push(0x82);
    push_str(&mut buf, "type");
    push_str(&mut buf, "cancel");
    push_str(&mut buf, "cancels");
    let n = cancels.len();
    buf.push(0x90 + (n as u8));
    proof {
        assert(cancels_bytes(cancels@.take(0int)) =~= Seq::<u8>::empty());
        assert(buf@ =~= mp_map(2) + mp_str("type"@) + mp_str("cancel"@)
            + mp_str("cancels"@) + mp_array(n as int) + cancels_bytes(cancels@.take(0int)));
    }
    let mut i: usize = 0;
    while i < n
        invariant
            i <= n,
            n == cancels@.len() < 16,
            buf@ == mp_map(2) + mp_str("type"@) + mp_str("cancel"@)
                + mp_str("cancels"@) + mp_array(n as int)
                + cancels_bytes(cancels@.take(i as int)),
        decreases n - i,
    {
        proof {
            reveal_strlit("a");
            reveal_strlit("o");
            assert(cancels@.take(i + 1).drop_last() =~= cancels@.take(i as int));
            assert(cancels@.take(i + 1).last() == cancels@[i as int]);
        }
        let c = cancels[i];
        buf.push(0x82);
        push_str(&mut buf, "a");
        push_uint(&mut buf, c.a as u64);
        push_str(&mut buf, "o");
        push_uint(&mut buf, c.o);
        proof {
            assert(buf@ =~= mp_map(2) + mp_str("type"@) + mp_str("cancel"@)
                + mp_str("cancels"@) + mp_array(n as int)
                + cancels_bytes(cancels@.take(i + 1)));
        }
        i += 1;
    }
    proof {
        assert(cancels@.take(n as int) =~= cancels@);
    }
    buf
}

#[verifier::rlimit(100)]
fn encode_leverage_action(asset: u32, is_cross: bool, leverage: u32) -> (r: Vec<u8>)
    ensures
        r@ == mp_map(4)
            + mp_str("type"@) + mp_str("updateLeverage"@)
            + mp_str("asset"@) + mp_uint(asset as int)
            + mp_str("isCross"@) + mp_bool(is_cross)
            + mp_str("leverage"@) + mp_uint(leverage as int),
{
    proof {
        reveal_strlit("type");
        reveal_strlit("updateLeverage");
        reveal_strlit("asset");
        reveal_strlit("isCross");
        reveal_strlit("leverage");
    }
    let mut buf: Vec<u8> = Vec::new();
    buf.push(0x84);
    push_str(&mut buf, "type");
    push_str(&mut buf, "updateLeverage");
    push_str(&mut buf, "asset");
    push_uint(&mut buf, asset as u64);
    push_str(&mut buf, "isCross");
    push_bool(&mut buf, is_cross);
    push_str(&mut buf, "leverage");
    push_uint(&mut buf, leverage as u64);
    proof {
        assert(buf@ =~= mp_map(4)
            + mp_str("type"@) + mp_str("updateLeverage"@)
            + mp_str("asset"@) + mp_uint(asset as int)
            + mp_str("isCross"@) + mp_bool(is_cross)
            + mp_str("leverage"@) + mp_uint(leverage as int));
    }
    buf
}

/// A sequence of `n` zero bytes.
pub open spec fn zero_bytes(n: int) -> Seq<u8> {
    Seq::new(n as nat, |i: int| 0u8)
}

/// What Keccak-256 returns for a byte sequence.
pub uninterp spec fn keccak256_of(data: Seq<u8>) -> Seq<u8>;

/// Relies on sha3::Keccak256 through the Digest trait: a 32-byte
/// digest that depends on the input bytes alone.
#[verifier::external_body]
fn keccak256(data: &[u8]) -> (r: Vec<u8>)
    ensures
        r@ == keccak256_of(data@),
        r@.len() == 32,
{
    <sha3::Keccak256 as sha3::Digest>::digest(data).to_vec()
}

/// The EIP-712 domain separator of the exchange: name "Exchange",
/// version "1", chain id 1337, and a zero verifying contract.
pub open spec fn domain_separator() -> Seq<u8> {
    keccak256_of(
        keccak256_of(ascii_bytes(
            "EIP712Domain(string name,string version,uint256 chainId,address verifyingContract)"@))
        + keccak256_of(ascii_bytes("Exchange"@))
        + keccak256_of(ascii_bytes("1"@))
        + zero_bytes(24) + be8_bytes(1337)
        + zero_bytes(12) + zero_bytes(20)
    )
}

/// The typehash of the signed Agent struct.
pub open spec fn agent_typehash() -> Seq<u8> {
    keccak256_of(ascii_bytes("Agent(string source,bytes32 connectionId)"@))
}

/// The action hash: the canonical action bytes, the nonce as eight
/// big-endian bytes, then one zero byte for the absent vault address.
pub open spec fn action_hash(abytes: Seq<u8>, nonce: int) -> Seq<u8> {
    keccak256_of(abytes + be8_bytes(nonce) + seq![0u8])
}

/// The source tag: "a" on mainnet, "b" elsewhere.
pub open spec fn source_tag(is_mainnet: bool) -> Seq<char> {
    if is_mainnet {
        "a"@
    } else {
        "b"@
    }
}

/// The full EIP-712 digest that gets signed for an action.
pub open spec fn signing_digest(abytes: Seq<u8>, nonce: int, is_mainnet: bool) -> Seq<u8> {
    let struct_hash = keccak256_of(
        agent_typehash() + keccak256_of(ascii_bytes(source_tag(is_mainnet)))
        + action_hash(abytes, nonce));
    keccak256_of(seq![0x19u8, 0x01u8] + domain_separator() + struct_hash)
}

/// Append one byte sequence to another.
fn append_bytes(dst: &mut Vec<u8>, src: &Vec<u8>)
    ensures
        final(dst)@ == old(dst)@ + src@,
{
    let mut i: usize = 0;
    while i < src.len()
        invariant
            i <= src@.len(),
            dst@ == old(dst)@ + src@.take(i as int),
        decreases src.len() - i,
    {
        dst.push(src[i]);
        proof {
            assert(dst@ =~= old(dst)@ + src@.take(i + 1));
        }
        i += 1;
    }
    proof {
        assert(src@.take(src@.len() as int) =~= src@);
    }
}

/// Hash a revealed ASCII literal.
fn keccak_of_literal(s: &str) -> (r: Vec<u8>)
    requires
        vstd::string::is_ascii(s),
    ensures
        r@ == keccak256_of(ascii_bytes(s@)),
        r@.len() == 32,
{
    proof {
        vstd::string::is_ascii_spec_bytes(s);
    }
    let b = s.as_bytes();
    proof {
        assert(b@ =~= ascii_bytes(s@));
    }
    keccak256(b)
}

/// Compute the EIP-712 signing digest for already-encoded action bytes.
#[verifier::rlimit(100)]
pub fn compute_signing_digest(action_encoded: &Vec<u8>, nonce: u64, is_mainnet: bool)
    -> (r: Vec<u8>)
    ensures
        r@ == signing_digest(action_encoded@, nonce as int, is_mainnet),
        r@.len() == 32,
{
    proof {
        reveal_strlit(
            "EIP712Domain(string name,string version,uint256 chainId,address verifyingContract)");
        reveal_strlit("Exchange");
        reveal_strlit("1");
        reveal_strlit("Agent(string source,bytes32 connectionId)");
        reveal_strlit("a");
        reveal_strlit("b");
    }

    let mut hash_input: Vec<u8> = Vec::new();
    append_bytes(&mut hash_input, action_encoded);
    push_be8(&mut hash_input, nonce);
    hash_input.push(0x00);
    proof {
        assert(hash_input@ =~= action_encoded@ + be8_bytes(nonce as int) + seq![0u8]);
    }
    let a_hash = keccak256(hash_input.as_slice());

    let domain_type_hash = keccak_of_literal(
        "EIP712Domain(string name,string version,uint256 chainId,address verifyingContract)");
    let name_hash = keccak_of_literal("Exchange");
    let version_hash = keccak_of_literal("1");

    let mut domain_input: Vec<u8> = Vec::new();
    append_bytes(&mut domain_input, &domain_type_hash);
    append_bytes(&mut domain_input, &name_hash);
    append_bytes(&mut domain_input, &version_hash);
    let mut i: usize = 0;
    while i < 24
        invariant
            i <= 24,
            domain_input@ == domain_type_hash@ + name_hash@ + version_hash@
                + zero_bytes(i as int),
        decreases 24 - i,
    {
        domain_input.push(0x00);
        proof {
            assert(domain_input@ =~= domain_type_hash@ + name_hash@ + version_hash@
                + zero_bytes((i + 1) as int));
        }
        i += 1;
    }
    push_be8(&mut domain_input, 1337);
    let mut j: usize = 0;
    while j < 32
        invariant
            j <= 32,
            domain_input@ == domain_type_hash@ + name_hash@ + version_hash@
                + zero_bytes(24) + be8_bytes(1337) + zero_bytes(j as int),
        decreases 32 - j,
    {
        domain_input.push(0x00);
        proof {
            assert(domain_input@ =~= domain_type_hash@ + name_hash@ + version_hash@
                + zero_bytes(24) + be8_bytes(1337) + zero_bytes((j + 1) as int));
        }
        j += 1;
    }
    proof {
        assert(zero_bytes(32) =~= zero_bytes(12) + zero_bytes(20));
        assert(domain_input@ =~= domain_type_hash@ + name_hash@ + version_hash@
            + zero_bytes(24) + be8_bytes(1337) + zero_bytes(12) + zero_bytes(20));
    }
    let d_sep = keccak256(domain_input.as_slice());

    let a_typehash = keccak_of_literal("Agent(string source,bytes32 connectionId)");
    let source_hash = if is_mainnet {
        keccak_of_literal("a")
    } else {
        keccak_of_literal("b")
    };

    let mut struct_input: Vec<u8> = Vec::new();
    append_bytes(&mut struct_input, &a_typehash);
    append_bytes(&mut struct_input, &source_hash);
    append_bytes(&mut struct_input, &a_hash);
    let s_hash = keccak256(struct_input.as_slice());

    let mut final_input: Vec<u8> = Vec::new();
    final_input.push(0x19);
    final_input.push(0x01);
    append_bytes(&mut final_input, &d_sep);
    append_bytes(&mut final_input, &s_hash);
    proof {
        assert(final_input@ =~= seq![0x19u8, 0x01u8] + d_sep@ + s_hash@);
        assert(struct_input@ =~= a_typehash@ + source_hash@ + a_hash@);
    }
    keccak256(final_input.as_slice())
}

#[verifier::external_type_specification]
#[verifier::external_body]
pub struct ExSecretKey(secp256k1::SecretKey);

/// Relies on secp256k1::SecretKey::from_byte_array: accepts exactly
/// 32-byte values inside the curve order, rejecting others.
#[verifier::external_body]
pub fn secret_key_from_bytes(bytes: &[u8]) -> (r: Option<secp256k1::SecretKey>)
    ensures
        bytes@.len() != 32 ==> r is None,
{
    let arr: [u8; 32] = match bytes.try_into() {
        Ok(a) => a,
        Err(_) => {
            return None;
        },
    };
    secp256k1::SecretKey::from_byte_array(arr).ok()
}

/// Relies on secp256k1's RecoverableSignature::sign_ecdsa_recoverable
/// (deterministic RFC6979 nonce) and serialize_compact: 64 signature
/// bytes `r ‖ s` and a recovery id below four.
#[verifier::external_body]
fn sign_recoverable(digest: &[u8], key: &secp256k1::SecretKey) -> (r: (Vec<u8>, u8))
    requires
        digest@.len() == 32,
    ensures
        r.0@.len() == 64,
        r.1 < 4,
{
    let mut d = [0u8; 32];
    d.copy_from_slice(digest);
    let msg = secp256k1::Message::from_digest(d);
    let sig = secp256k1::ecdsa::RecoverableSignature::sign_ecdsa_recoverable(msg, key);
    let (rec_id, bytes) = sig.serialize_compact();
    (bytes.to_vec(), rec_id.to_u8())
}

/// Relies on secp256k1::PublicKey::from_secret_key and
/// serialize_uncompressed: 65 bytes led by the 0x04 tag.
#[verifier::external_body]
pub fn public_key_uncompressed(key: &secp256k1::SecretKey) -> (r: Vec<u8>)
    ensures
        r@.len() == 65,
{
    secp256k1::PublicKey::from_secret_key(key).serialize_uncompressed().to_vec()
}

/// The lowercase hex digit for a value below 16.
pub open spec fn hex_char(n: int) -> char
    recommends
        0 <= n < 16,
{
    if n < 10 {
        (48 + n) as char
    } else {
        (87 + n) as char
    }
}

/// Lowercase hex of a byte sequence, two digits per byte.
pub open spec fn hex_of(b: Seq<u8>) -> Seq<char> {
    Seq::new(b.len() * 2, |i: int| if i % 2 == 0 {
        hex_char(b[i / 2] as int / 16)
    } else {
        hex_char(b[i / 2] as int % 16)
    })
}

/// Relies on hex::encode: lowercase hex, two digits per byte.
#[verifier::external_body]
fn to_hex(b: &[u8]) -> (r: String)
    ensures
        r@ == hex_of(b@),
{
    hex::encode(b)
}

/// A 0x-prefixed lowercase hex rendering of a byte range.
fn hex_field(bytes: &Vec<u8>, from: usize, to: usize) -> (r: String)
    requires
        from <= to <= bytes@.len(),
    ensures
        r@ == "0x"@ + hex_of(bytes@.subrange(from as int, to as int)),
{
    let part = vstd::slice::slice_subrange(bytes.as_slice(), from, to);
    let mut out = String::from_str("0x");
    let h = to_hex(part);
    out.append(h.as_str());
    out
}

/// Assemble the venue's signature format from raw ECDSA output:
/// `r` and `s` as 0x-prefixed hex halves and `v = 27 + recovery id`.
pub fn build_signature(sig: &Vec<u8>, recovery_id: u8) -> (r: Signature)
    requires
        sig@.len() == 64,
        recovery_id < 4,
    ensures
        r.r@ == "0x"@ + hex_of(sig@.subrange(0, 32)),
        r.s@ == "0x"@ + hex_of(sig@.subrange(32, 64)),
        r.v == 27 + recovery_id,
{
    let r_hex = hex_field(sig, 0, 32);
    let s_hex = hex_field(sig, 32, 64);
    Signature { r: r_hex, s: s_hex, v: 27 + recovery_id }
}

/// Sign an action: encode it canonically, hash it into the EIP-712
/// digest for `nonce` and the network tag, and ECDSA-sign that digest.
///
/// The digest is pinned exactly by `signing_digest`; of the signature
/// bytes themselves only the format is promised, since they come from
/// the curve library.
pub fn sign_action(key: &secp256k1::SecretKey, action: &Action, nonce: u64, is_mainnet: bool)
    -> (r: Signature)
    requires
        action_encodable(*action),
    ensures
        27 <= r.v < 31,
        r.r@.len() == 66,
        r.s@.len() == 66,
    {
    let encoded = encode_action(action);
    let digest = compute_signing_digest(&encoded, nonce, is_mainnet);
    let (sig, rec_id) = sign_recoverable(digest.as_slice(), key);
    let out = build_signature(&sig, rec_id);
    proof {
        reveal_strlit("0x");
    }
    out
}

/// The wallet address of a secret key: the last twenty bytes of the
/// Keccak-256 of the uncompressed public key (without its tag byte),
/// rendered as 0x-prefixed hex.
pub fn wallet_address_hex(key: &secp256k1::SecretKey) -> (r: String)
    ensures
        r@.len() == 42,
        exists|pubkey: Seq<u8>| pubkey.len() == 65 && r@ == "0x"@ + hex_of(
            #[trigger] keccak256_of(pubkey.subrange(1, 65)).subrange(12, 32)),
{
    let pubkey = public_key_uncompressed(key);
    let body = vstd::slice::slice_subrange(pubkey.as_slice(), 1, 65);
    let digest = keccak256(body);
    let out = hex_field(&digest, 12, 32);
    proof {
        reveal_strlit("0x");
        assert(digest@.subrange(12, 32) =~= keccak256_of(pubkey@.subrange(1, 65)).subrange(12, 32));
    }
    out
}

/// The decimal digit character for a value below ten.
pub open spec fn digit_char(n: int) -> char
    recommends
        0 <= n < 10,
{
    (48 + n) as char
}

/// Decimal digits of a non-negative integer, most significant first.
pub open spec fn dec_digits(n: int) -> Seq<char>
    recommends
        n >= 0,
    decreases n,
{
    if n < 10 {
        seq![digit_char(n)]
    } else {
        dec_digits(n / 10).push(digit_char(n % 10))
    }
}

/// Exactly `width` decimal digits of `f`, leading zeros kept.
pub open spec fn padded_digits(f: int, width: int) -> Seq<char>
    recommends
        f >= 0,
        width >= 1,
    decreases width,
{
    if width <= 1 {
        seq![digit_char(f % 10)]
    } else {
        padded_digits(f / 10, width - 1).push(digit_char(f % 10))
    }
}

/// The fractional digits of `f` over `width` places with trailing
/// zeros stripped (at least one digit stays).
pub open spec fn frac_digits(f: int, width: int) -> Seq<char>
    recommends
        f >= 0,
        width >= 1,
    decreases width,
{
    if f % 10 == 0 && width > 1 {
        frac_digits(f / 10, width - 1)
    } else {
        padded_digits(f, width)
    }
}

/// A value in hundred-millionths rendered as a decimal string: the
/// integer part, then — only when the fraction is non-zero — a point
/// and up to eight fractional digits with trailing zeros stripped.
/// Zero renders as "0".
pub open spec fn spec_wire_decimal(x: int) -> Seq<char> {
    let ip = x / 100_000_000;
    let fp = x % 100_000_000;
    if fp == 0 {
        dec_digits(ip)
    } else {
        dec_digits(ip) + seq!['.'] + frac_digits(fp, 8)
    }
}

/// Append one decimal digit.
fn append_digit(out: &mut String, d: u64)
    requires
        d < 10,
    ensures
        final(out)@ == old(out)@ + seq![digit_char(d as int)],
{
    proof {
        reveal_strlit("0");
        reveal_strlit("1");
        reveal_strlit("2");
        reveal_strlit("3");
        reveal_strlit("4");
        reveal_strlit("5");
        reveal_strlit("6");
        reveal_strlit("7");
        reveal_strlit("8");
        reveal_strlit("9");
    }
    if d == 0 {
        out.append("0");
    } else if d == 1 {
        out.append("1");
    } else if d == 2 {
        out.append("2");
    } else if d == 3 {
        out.append("3");
    } else if d == 4 {
        out.append("4");
    } else if d == 5 {
        out.append("5");
    } else if d == 6 {
        out.append("6");
    } else if d == 7 {
        out.append("7");
    } else if d == 8 {
        out.append("8");
    } else {
        out.append("9");
    }
    proof {
        assert(final(out)@ =~= old(out)@ + seq![digit_char(d as int)]);
    }
}

/// Append the decimal digits of `n`.
fn append_decimal(out: &mut String, n: u64)
    ensures
        final(out)@ == old(out)@ + dec_digits(n as int),
    decreases n,
{
    if n < 10 {
        append_digit(out, n);
    } else {
        append_decimal(out, n / 10);
        append_digit(out, n % 10);
        proof {
            assert(final(out)@ =~= old(out)@ + dec_digits(n as int));
        }
    }
}

/// Append exactly `width` digits of `f`, leading zeros kept.
fn append_padded(out: &mut String, f: u64, width: u64)
    requires
        width >= 1,
    ensures
        final(out)@ == old(out)@ + padded_digits(f as int, width as int),
    decreases width,
{
    if width <= 1 {
        append_digit(out, f % 10);
    } else {
        append_padded(out, f / 10, width - 1);
        append_digit(out, f % 10);
        proof {
            assert(final(out)@ =~= old(out)@ + padded_digits(f as int, width as int));
        }
    }
}

/// Render a fixed-point value (hundred-millionths) for the wire, as
/// `spec_wire_decimal` describes: up to eight decimals, trailing
/// zeros and a bare trailing point stripped, zero as "0".
pub fn wire_decimal(x: u64) -> (r: String)
    ensures
        r@ == spec_wire_decimal(x as int),
{
    proof {
        reveal_strlit(".");
    }
    let ip: u64 = x / 100_000_000;
    let mut fp: u64 = x % 100_000_000;
    let mut out = String::new();
    append_decimal(&mut out, ip);
    if fp == 0 {
        return out;
    }
    out.append(".");
    let ghost fp0: int = fp as int;
    let mut width: u64 = 8;
    while fp % 10 == 0 && width > 1
        invariant
            1 <= width <= 8,
            fp >= 0,
            frac_digits(fp0, 8) == frac_digits(fp as int, width as int),
        decreases width,
    {
        fp = fp / 10;
        width = width - 1;
    }
    append_padded(&mut out, fp, width);
    proof {
        assert(out@ =~= dec_digits(ip as int) + seq!['.'] + frac_digits(fp0, 8));
    }
    out
}

} // verus!
