//! The layout of the history database: four trees (request heads and
//! bodies, response heads and bodies), each keyed by the request id written
//! big-endian, so that the byte-wise key order of the store is the order of
//! the ids.
use vstd::prelude::*;

verus! {

/// The trees of the history database.
#[derive(Debug, Clone, Copy, PartialEq, Eq, Structural)]
pub enum Tree {
    RequestHead,
    RequestBody,
    ResponseHead,
    ResponseBody,
}

impl Tree {
    /// The name of the tree in the database.
    pub fn name(&self) -> (res: &'static str)
        ensures
            res@ == match self {
                Tree::RequestHead => "req"@,
                Tree::RequestBody => "reqbod"@,
                Tree::ResponseHead => "resp"@,
                Tree::ResponseBody => "respbod"@,
            },
    {
        match self {
            Tree::RequestHead => "req",
            Tree::RequestBody => "reqbod",
            Tree::ResponseHead => "resp",
            Tree::ResponseBody => "respbod",
        }
    }
}

/// The last `len` base-256 digits of `n`, most significant first.
pub open spec fn be_bytes(n: nat, len: nat) -> Seq<u8>
    decreases len,
{
    if len == 0 {
        Seq::empty()
    } else {
        be_bytes(n / 256, (len - 1) as nat).push((n % 256) as u8)
    }
}

/// The number that big-endian bytes stand for.
pub open spec fn be_value(s: Seq<u8>) -> nat
    decreases s.len(),
{
    if s.len() == 0 {
        0
    } else {
        be_value(s.drop_last()) * 256 + (s.last() as nat)
    }
}

/// `256` to the power `len`.
pub open spec fn byte_bound(len: nat) -> nat
    decreases len,
{
    if len == 0 {
        1
    } else {
        256 * byte_bound((len - 1) as nat)
    }
}

/// Byte-wise (lexicographic) order of two sequences of the same length, the
/// order in which the database keeps its keys.
pub open spec fn lex_less(x: Seq<u8>, y: Seq<u8>) -> bool
    decreases x.len(),
{
    if x.len() == 0 {
        false
    } else {
        lex_less(x.drop_last(), y.drop_last()) || (x.drop_last() == y.drop_last() && x.last() < y.last())
    }
}

/// The key under which request `id` and its response are stored.
pub open spec fn id_key(id: u64) -> Seq<u8> {
    be_bytes(id as nat, 8)
}

fn push_be(out: &mut Vec<u8>, n: u64, len: usize)
    ensures
        final(out)@ == old(out)@ + be_bytes(n as nat, len as nat),
    decreases len,
{
    if len > 0 {
        push_be(out, n / 256, len - 1);
        out.push((n % 256) as u8);
        assert(out@ =~= old(out)@ + be_bytes(n as nat, len as nat));
    } else {
        assert(out@ =~= old(out)@ + be_bytes(n as nat, len as nat));
    }
}

/// The storage key of request `id` (`u64::to_be_bytes`).
pub fn record_key(id: u64) -> (res: Vec<u8>)
    ensures
        res@ == id_key(id),
        res@.len() == 8,
{
    let mut out: Vec<u8> = Vec::new();
    push_be(&mut out, id, 8);
    assert(out@ =~= id_key(id));
    proof {
        lemma_be_bytes_len(id as nat, 8);
    }
    out
}

proof fn lemma_be_bytes_len(n: nat, len: nat)
    ensures
        be_bytes(n, len).len() == len,
    decreases len,
{
    if len > 0 {
        lemma_be_bytes_len(n / 256, (len - 1) as nat);
    }
}

proof fn lemma_div_bound(n: nat, b: nat)
    requires
        n < 256 * b,
    ensures
        n / 256 < b,
{
    assert(n / 256 < b) by (nonlinear_arith)
        requires
            n < 256 * b,
    ;
}

/// Big-endian bytes of a number below `256^len` read back as that number.
pub proof fn lemma_be_round_trip(n: nat, len: nat)
    requires
        n < byte_bound(len),
    ensures
        be_value(be_bytes(n, len)) == n,
    decreases len,
{
    if len > 0 {
        lemma_div_bound(n, byte_bound((len - 1) as nat));
        lemma_be_round_trip(n / 256, (len - 1) as nat);
        assert(be_bytes(n, len).drop_last() == be_bytes(n / 256, (len - 1) as nat));
        vstd::arithmetic::div_mod::lemma_fundamental_div_mod(n as int, 256);
    }
}

/// For numbers below `256^len`, the byte-wise order of their big-endian
/// bytes is their numeric order.
pub proof fn lemma_be_order(a: nat, b: nat, len: nat)
    requires
        a < byte_bound(len),
        b < byte_bound(len),
    ensures
        a < b <==> lex_less(be_bytes(a, len), be_bytes(b, len)),
    decreases len,
{
    if len > 0 {
        let l1 = (len - 1) as nat;
        lemma_div_bound(a, byte_bound(l1));
        lemma_div_bound(b, byte_bound(l1));
        lemma_be_order(a / 256, b / 256, l1);
        lemma_be_round_trip(a / 256, l1);
        lemma_be_round_trip(b / 256, l1);
        let x = be_bytes(a, len);
        let y = be_bytes(b, len);
        assert(x.drop_last() == be_bytes(a / 256, l1));
        assert(y.drop_last() == be_bytes(b / 256, l1));
        assert(x.last() == (a % 256) as u8);
        assert(y.last() == (b % 256) as u8);
        vstd::arithmetic::div_mod::lemma_fundamental_div_mod(a as int, 256);
        vstd::arithmetic::div_mod::lemma_fundamental_div_mod(b as int, 256);
    }
}

proof fn lemma_u64_bound(id: u64)
    ensures
        (id as nat) < byte_bound(8),
{
    reveal_with_fuel(byte_bound, 9);
    assert(byte_bound(8) == 0x1_0000_0000_0000_0000);
}

/// The keys of two requests sort byte-wise as their ids do: the store's
/// iteration order is the order in which requests were numbered.
pub proof fn lemma_key_order(a: u64, b: u64)
    ensures
        a < b <==> lex_less(id_key(a), id_key(b)),
{
    lemma_u64_bound(a);
    lemma_u64_bound(b);
    lemma_be_order(a as nat, b as nat, 8);
}

/// A key names one request only: the id reads back from its key.
pub proof fn lemma_key_reads_back(id: u64)
    ensures
        be_value(id_key(id)) == id,
        id_key(id).len() == 8,
{
    lemma_u64_bound(id);
    lemma_be_round_trip(id as nat, 8);
    lemma_be_bytes_len(id as nat, 8);
}

} // verus!
