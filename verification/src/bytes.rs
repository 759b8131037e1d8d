//! Numbers as bytes.
use vstd::prelude::*;

verus! {

/// The `n` lowest bytes of a number, the lowest first.
pub open spec fn le_bytes(x: nat, n: nat) -> Seq<u8>
    decreases n,
{
    if n == 0 {
        Seq::empty()
    } else {
        seq![(x % 256) as u8] + le_bytes(x / 256, (n - 1) as nat)
    }
}

/// The number that bytes stand for, the lowest first.
pub open spec fn le_value(s: Seq<u8>) -> nat
    decreases s.len(),
{
    if s.len() == 0 {
        0
    } else {
        s[0] as nat + 256 * le_value(s.drop_first())
    }
}

/// The `n` lowest bytes of a number, the highest first.
pub open spec fn be_bytes(x: nat, n: nat) -> Seq<u8> {
    le_bytes(x, n).reverse()
}

/// The number that bytes stand for, the highest first.
pub open spec fn be_value(s: Seq<u8>) -> nat {
    le_value(s.reverse())
}

/// So many bytes come out.
pub proof fn lemma_le_bytes_len(x: nat, n: nat)
    ensures
        le_bytes(x, n).len() == n,
    decreases n,
{
    if n > 0 {
        lemma_le_bytes_len(x / 256, (n - 1) as nat);
    }
}

/// Two bytes hold any number below 65536.
pub proof fn lemma_two_bytes(x: nat)
    requires
        x < 65536,
    ensures
        le_value(le_bytes(x, 2)) == x,
        le_bytes(x, 2) =~= seq![(x % 256) as u8, (x / 256) as u8],
{
    reveal_with_fuel(le_bytes, 3);
    reveal_with_fuel(le_value, 3);
    let s = le_bytes(x, 2);
    assert(s =~= seq![(x % 256) as u8, (x / 256 % 256) as u8]);
    assert(s.drop_first() =~= seq![(x / 256 % 256) as u8]);
    assert(s.drop_first().drop_first() =~= Seq::<u8>::empty());
}

/// Four bytes hold any number below the square of that.
pub proof fn lemma_four_bytes(x: nat)
    requires
        x < 4294967296,
    ensures
        le_value(le_bytes(x, 4)) == x,
        le_bytes(x, 4).len() == 4,
        be_value(be_bytes(x, 4)) == x,
        be_bytes(x, 4).len() == 4,
{
    reveal_with_fuel(le_bytes, 5);
    reveal_with_fuel(le_value, 5);
    let s = le_bytes(x, 4);
    let a = (x % 256) as u8;
    let b = (x / 256 % 256) as u8;
    let c = (x / 256 / 256 % 256) as u8;
    let d = (x / 256 / 256 / 256 % 256) as u8;
    assert(s =~= seq![a, b, c, d]);
    assert(s.drop_first() =~= seq![b, c, d]);
    assert(s.drop_first().drop_first() =~= seq![c, d]);
    assert(s.drop_first().drop_first().drop_first() =~= seq![d]);
    assert(s.drop_first().drop_first().drop_first().drop_first() =~= Seq::<u8>::empty());
    assert(be_bytes(x, 4).reverse() =~= s);
}

/// The `n` lowest bytes of a number, the lowest first.
pub fn low_bytes(x: u64, n: usize) -> (bytes: Vec<u8>)
    ensures
        bytes@ == le_bytes(x as nat, n as nat),
{
    let mut bytes: Vec<u8> = Vec::new();
    let mut rest: u64 = x;
    let mut i: usize = 0;
    assert(bytes@ + le_bytes(x as nat, n as nat) =~= le_bytes(x as nat, n as nat));
    while i < n
        invariant
            i <= n,
            bytes@ + le_bytes(rest as nat, (n - i) as nat) =~= le_bytes(x as nat, n as nat),
        decreases n - i,
    {
        let ghost before = bytes@;
        let byte: u8 = (rest % 256) as u8;
        bytes.push(byte);
        proof {
            assert(le_bytes(rest as nat, (n - i) as nat) =~= seq![byte] + le_bytes(
                (rest / 256) as nat,
                (n - i - 1) as nat,
            ));
        }
        rest = rest / 256;
        i = i + 1;
    }
    bytes
}

/// The `n` lowest bytes of a number, the highest first.
pub fn high_bytes(x: u64, n: usize) -> (bytes: Vec<u8>)
    ensures
        bytes@ == be_bytes(x as nat, n as nat),
{
    let low: Vec<u8> = low_bytes(x, n);
    let mut bytes: Vec<u8> = Vec::new();
    let mut i: usize = low.len();
    while i > 0
        invariant
            i <= low@.len(),
            bytes@.len() == low@.len() - i,
            forall|k: int| 0 <= k < bytes@.len() ==> #[trigger] bytes@[k] == low@[low@.len() - 1 - k],
        decreases i,
    {
        i = i - 1;
        bytes.push(low[i]);
    }
    assert(bytes@ =~= low@.reverse());
    bytes
}

/// The number that two bytes stand for, the lowest first.
pub fn read_two(a: u8, b: u8) -> (x: u16)
    ensures
        x == le_value(seq![a, b]),
{
    proof {
        reveal_with_fuel(le_value, 3);
        assert(seq![a, b].drop_first() =~= seq![b]);
        assert(seq![b].drop_first() =~= Seq::<u8>::empty());
    }
    a as u16 + 256 * b as u16
}

/// The number that four bytes stand for, the highest first.
pub fn read_four(a: u8, b: u8, c: u8, d: u8) -> (x: u32)
    ensures
        x == be_value(seq![a, b, c, d]),
{
    proof {
        reveal_with_fuel(le_value, 5);
        let s = seq![a, b, c, d].reverse();
        assert(s =~= seq![d, c, b, a]);
        assert(s.drop_first() =~= seq![c, b, a]);
        assert(s.drop_first().drop_first() =~= seq![b, a]);
        assert(s.drop_first().drop_first().drop_first() =~= seq![a]);
        assert(s.drop_first().drop_first().drop_first().drop_first() =~= Seq::<u8>::empty());
    }
    d as u32 + 256 * (c as u32 + 256 * (b as u32 + 256 * a as u32))
}

} // verus!
