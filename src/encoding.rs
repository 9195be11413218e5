//! String projections of a digest: every byte is written in base 16 or base 2
//! without padding, and the fragments are concatenated.
use vstd::prelude::*;

verus! {

/// The sixteen digit characters, lower case.
pub open spec fn digit_alphabet() -> Seq<char> {
    seq!['0', '1', '2', '3', '4', '5', '6', '7', '8', '9', 'a', 'b', 'c', 'd', 'e', 'f']
}

pub open spec fn digit_char(d: nat) -> char {
    digit_alphabet()[d as int]
}

/// The bases in which a digest is written.
pub open spec fn is_base(base: nat) -> bool {
    base == 2 || base == 16
}

/// `n` written in `base` with no leading zeros (zero itself is one `0`).
pub open spec fn digits(n: nat, base: nat) -> Seq<char>
    decreases n via digits_decreases
{
    if base < 2 || n < base {
        seq![digit_char(n)]
    } else {
        digits(n / base, base).push(digit_char(n % base))
    }
}

#[via_fn]
proof fn digits_decreases(n: nat, base: nat) {
    if !(base < 2 || n < base) {
        assert(n / base < n) by (nonlinear_arith)
            requires
                base >= 2,
                n >= base,
        ;
    }
}

/// Each byte of `s` written in `base`, concatenated in order.
pub open spec fn encode(s: Seq<u8>, base: nat) -> Seq<char>
    decreases s.len(),
{
    if s.len() == 0 {
        Seq::empty()
    } else {
        digits(s[0] as nat, base) + encode(s.drop_first(), base)
    }
}

pub open spec fn hex_string(s: Seq<u8>) -> Seq<char> {
    encode(s, 16)
}

pub open spec fn bin_string(s: Seq<u8>) -> Seq<char> {
    encode(s, 2)
}

/// The leading characters that a digest's encoding must show.
pub open spec fn difficulty_prefix() -> Seq<char> {
    seq!['0', '0']
}

pub open spec fn starts_with(e: Seq<char>, p: Seq<char>) -> bool {
    p.len() <= e.len() && e.subrange(0, p.len() as int) == p
}

/// The difficulty rule on the text form of a digest.
pub open spec fn meets_difficulty(e: Seq<char>) -> bool {
    starts_with(e, difficulty_prefix())
}

proof fn lemma_digits_lead(n: nat, base: nat)
    requires
        is_base(base),
    ensures
        digits(n, base).len() >= 1,
        n == 0 ==> digits(n, base) == seq!['0'],
        n != 0 ==> digits(n, base)[0] != '0',
    decreases n,
{
    if n >= base {
        lemma_digits_lead(n / base, base);
    }
}

proof fn lemma_encode_push(s: Seq<u8>, b: u8, base: nat)
    ensures
        encode(s.push(b), base) == encode(s, base) + digits(b as nat, base),
    decreases s.len(),
{
    if s.len() == 0 {
        assert(s.push(b).drop_first() =~= Seq::<u8>::empty());
        assert(encode(s.push(b).drop_first(), base) == Seq::<char>::empty());
        assert(encode(s.push(b), base) =~= digits(b as nat, base));
    } else {
        assert(s.push(b).drop_first() =~= s.drop_first().push(b));
        lemma_encode_push(s.drop_first(), b, base);
        assert(encode(s.push(b), base) =~= encode(s, base) + digits(b as nat, base));
    }
}

/// In either base, the encoding of a digest starts with the difficulty prefix
/// exactly when its first two bytes are zero.
pub proof fn lemma_prefix_iff_two_zero_bytes(s: Seq<u8>, base: nat)
    requires
        is_base(base),
        s.len() >= 2,
    ensures
        meets_difficulty(encode(s, base)) <==> (s[0] == 0 && s[1] == 0),
{
    let rest = s.drop_first();
    let d0 = digits(s[0] as nat, base);
    let d1 = digits(rest[0] as nat, base);
    lemma_digits_lead(s[0] as nat, base);
    lemma_digits_lead(rest[0] as nat, base);
    let e = encode(s, base);
    assert(encode(rest, base) == d1 + encode(rest.drop_first(), base));
    assert(e == d0 + (d1 + encode(rest.drop_first(), base)));
    assert(e[0] == d0[0]);
    if s[0] == 0 {
        assert(e[1] == d1[0]);
        if s[1] == 0 {
            assert(e.subrange(0, 2) =~= difficulty_prefix());
        } else {
            assert(e.subrange(0, 2)[1] != difficulty_prefix()[1]);
        }
    } else {
        assert(e.subrange(0, 2)[0] != difficulty_prefix()[0]);
    }
}

/// The hexadecimal and the binary form of a digest meet the difficulty rule
/// together or not at all.
pub proof fn lemma_hex_and_bin_agree(s: Seq<u8>)
    requires
        s.len() >= 2,
    ensures
        meets_difficulty(hex_string(s)) <==> meets_difficulty(bin_string(s)),
{
    lemma_prefix_iff_two_zero_bytes(s, 16);
    lemma_prefix_iff_two_zero_bytes(s, 2);
}

fn digit_str(d: u8) -> (r: &'static str)
    requires
        d < 16,
    ensures
        r@ == seq![digit_char(d as nat)],
{
    proof {
        reveal_strlit("0");
        reveal_strlit("1");
        reveal_strlit("2");
        reveal_strlit("3");
        reveal_strlit("4");
        reveal_strlit("5");
        reveal_strlit("6");
        reveal_strlit("7");
        reveal_strlit("8");
        reveal_strlit("9");
        reveal_strlit("a");
        reveal_strlit("b");
        reveal_strlit("c");
        reveal_strlit("d");
        reveal_strlit("e");
        reveal_strlit("f");
    }
    match d {
        0 => "0",
        1 => "1",
        2 => "2",
        3 => "3",
        4 => "4",
        5 => "5",
        6 => "6",
        7 => "7",
        8 => "8",
        9 => "9",
        10 => "a",
        11 => "b",
        12 => "c",
        13 => "d",
        14 => "e",
        _ => "f",
    }
}

fn push_digits(out: &mut String, n: u8, base: u8)
    requires
        is_base(base as nat),
    ensures
        final(out)@ == old(out)@ + digits(n as nat, base as nat),
    decreases n,
{
    if n >= base {
        push_digits(out, n / base, base);
    }
    out.append(digit_str(n % base));
    assert(final(out)@ =~= old(out)@ + digits(n as nat, base as nat));
}

fn encode_digest(d: &[u8; 32], base: u8) -> (r: String)
    requires
        is_base(base as nat),
    ensures
        r@ == encode(d@, base as nat),
{
    let mut out = String::new();
    let mut i: usize = 0;
    while i < 32
        invariant
            i <= 32,
            d@.len() == 32,
            is_base(base as nat),
            out@ == encode(d@.take(i as int), base as nat),
        decreases 32 - i,
    {
        proof {
            assert(d@.take(i + 1) =~= d@.take(i as int).push(d@[i as int]));
            lemma_encode_push(d@.take(i as int), d@[i as int], base as nat);
        }
        push_digits(&mut out, d[i], base);
        i += 1;
    }
    assert(d@.take(32) =~= d@);
    out
}

/// The hexadecimal form of a digest, each byte without padding.
pub fn to_hex(d: &[u8; 32]) -> (r: String)
    ensures
        r@ == hex_string(d@),
{
    encode_digest(d, 16)
}

/// The binary form of a digest, each byte without padding.
pub fn to_bin(d: &[u8; 32]) -> (r: String)
    ensures
        r@ == bin_string(d@),
{
    encode_digest(d, 2)
}

/// Whether the hexadecimal form of `d` starts with the difficulty prefix.
pub fn hex_meets_difficulty(d: &[u8; 32]) -> (r: bool)
    ensures
        r == meets_difficulty(hex_string(d@)),
{
    proof {
        lemma_prefix_iff_two_zero_bytes(d@, 16);
    }
    d[0] == 0 && d[1] == 0
}

/// Whether the binary form of `d` starts with the difficulty prefix.
pub fn bin_meets_difficulty(d: &[u8; 32]) -> (r: bool)
    ensures
        r == meets_difficulty(bin_string(d@)),
{
    proof {
        lemma_prefix_iff_two_zero_bytes(d@, 2);
    }
    d[0] == 0 && d[1] == 0
}

} // verus!
