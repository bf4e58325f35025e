//! Little-endian bit strings and their numeric value.
//!
//! Pieces, slices and canonicity witnesses are all bit strings; this module
//! gives them one numeric meaning (`bits_val`) and the executable helpers
//! that build, split and add them.

use vstd::prelude::*;
use vstd::arithmetic::power2::{
    pow2, lemma_pow2_adds, lemma_pow2_pos, lemma2_to64, lemma_pow2_strictly_increases,
};
use vstd::arithmetic::div_mod::{
    lemma_fundamental_div_mod, lemma_fundamental_div_mod_converse,
};
use vstd::bits::lemma_u128_shr_is_div;

verus! {

/// The value of a little-endian bit string: bit `i` weighs `2^i`.
pub open spec fn bits_val(s: Seq<bool>) -> nat
    decreases s.len(),
{
    if s.len() == 0 {
        0
    } else {
        (if s[0] {
            1nat
        } else {
            0nat
        }) + 2 * bits_val(s.drop_first())
    }
}

/// A bit string's value is below two to its length.
pub proof fn lemma_bits_val_bound(s: Seq<bool>)
    ensures
        bits_val(s) < pow2(s.len()),
    decreases s.len(),
{
    lemma2_to64();
    if s.len() == 0 {
    } else {
        lemma_bits_val_bound(s.drop_first());
        lemma_pow2_adds(1, (s.len() - 1) as nat);
    }
}

/// Concatenation adds the second string's value, shifted by the first's length.
pub proof fn lemma_bits_val_concat(a: Seq<bool>, b: Seq<bool>)
    ensures
        bits_val(a + b) == bits_val(a) + pow2(a.len()) * bits_val(b),
    decreases a.len(),
{
    lemma2_to64();
    if a.len() == 0 {
        assert(a + b =~= b);
    } else {
        assert((a + b).drop_first() =~= a.drop_first() + b);
        lemma_bits_val_concat(a.drop_first(), b);
        lemma_pow2_adds(1, (a.len() - 1) as nat);
        let p = pow2((a.len() - 1) as nat);
        assert(2 * (bits_val(a.drop_first()) + p * bits_val(b)) == 2 * bits_val(a.drop_first())
            + (2 * p) * bits_val(b)) by (nonlinear_arith);
    }
}

/// Splitting at `n`: the low part keeps its value, the high part is shifted.
pub proof fn lemma_bits_val_split(s: Seq<bool>, n: int)
    requires
        0 <= n <= s.len(),
    ensures
        bits_val(s) == bits_val(s.take(n)) + pow2(n as nat) * bits_val(s.skip(n)),
{
    assert(s =~= s.take(n) + s.skip(n));
    lemma_bits_val_concat(s.take(n), s.skip(n));
}

/// Appending one bit adds its weight at the old length.
pub proof fn lemma_bits_val_push(s: Seq<bool>, b: bool)
    ensures
        bits_val(s.push(b)) == bits_val(s) + pow2(s.len()) * (if b {
            1nat
        } else {
            0nat
        }),
{
    let t = seq![b];
    assert(s.push(b) =~= s + t);
    assert(t.drop_first() =~= Seq::<bool>::empty());
    assert(bits_val(Seq::<bool>::empty()) == 0);
    assert(bits_val(t) == (if b {
        1nat
    } else {
        0nat
    }));
    lemma_bits_val_concat(s, t);
}

/// A bit string's value is zero exactly when every bit is clear.
pub proof fn lemma_bits_val_zero(s: Seq<bool>)
    ensures
        (bits_val(s) == 0) <==> (forall|i: int| 0 <= i < s.len() ==> !s[i]),
    decreases s.len(),
{
    if s.len() > 0 {
        lemma_bits_val_zero(s.drop_first());
        if bits_val(s) == 0 {
            assert forall|i: int| 0 <= i < s.len() implies !s[i] by {
                if i > 0 {
                    assert(!s.drop_first()[i - 1]);
                }
            }
        } else {
            if !s[0] {
                let j = choose|j: int| 0 <= j < s.drop_first().len() && s.drop_first()[j];
                assert(s[j + 1]);
            }
        }
    }
}

/// The bits of one byte, least significant first.
pub open spec fn byte_bits(b: u8) -> Seq<bool> {
    seq![
        b & 1 == 1,
        (b >> 1) & 1 == 1,
        (b >> 2) & 1 == 1,
        (b >> 3) & 1 == 1,
        (b >> 4) & 1 == 1,
        (b >> 5) & 1 == 1,
        (b >> 6) & 1 == 1,
        (b >> 7) & 1 == 1,
    ]
}

/// A byte's bits are worth the byte.
pub proof fn lemma_byte_bits_val(b: u8)
    ensures
        bits_val(byte_bits(b)) == b,
{
    let s = byte_bits(b);
    let x0: nat = if b & 1 == 1 { 1 } else { 0 };
    let x1: nat = if (b >> 1) & 1 == 1 { 1 } else { 0 };
    let x2: nat = if (b >> 2) & 1 == 1 { 1 } else { 0 };
    let x3: nat = if (b >> 3) & 1 == 1 { 1 } else { 0 };
    let x4: nat = if (b >> 4) & 1 == 1 { 1 } else { 0 };
    let x5: nat = if (b >> 5) & 1 == 1 { 1 } else { 0 };
    let x6: nat = if (b >> 6) & 1 == 1 { 1 } else { 0 };
    let x7: nat = if (b >> 7) & 1 == 1 { 1 } else { 0 };
    assert(s.drop_first() =~= s.subrange(1, 8));
    assert(s.subrange(1, 8).drop_first() =~= s.subrange(2, 8));
    assert(s.subrange(2, 8).drop_first() =~= s.subrange(3, 8));
    assert(s.subrange(3, 8).drop_first() =~= s.subrange(4, 8));
    assert(s.subrange(4, 8).drop_first() =~= s.subrange(5, 8));
    assert(s.subrange(5, 8).drop_first() =~= s.subrange(6, 8));
    assert(s.subrange(6, 8).drop_first() =~= s.subrange(7, 8));
    assert(s.subrange(7, 8).drop_first() =~= Seq::<bool>::empty());
    assert(bits_val(Seq::<bool>::empty()) == 0);
    assert(bits_val(s.subrange(7, 8)) == x7);
    assert(bits_val(s.subrange(6, 8)) == x6 + 2 * x7);
    assert(bits_val(s.subrange(5, 8)) == x5 + 2 * (x6 + 2 * x7));
    assert(bits_val(s.subrange(4, 8)) == x4 + 2 * (x5 + 2 * (x6 + 2 * x7)));
    assert(bits_val(s.subrange(3, 8)) == x3 + 2 * (x4 + 2 * (x5 + 2 * (x6 + 2 * x7))));
    assert(bits_val(s.subrange(2, 8)) == x2 + 2 * (x3 + 2 * (x4 + 2 * (x5 + 2 * (x6 + 2 * x7)))));
    assert(bits_val(s.subrange(1, 8)) == x1 + 2 * (x2 + 2 * (x3 + 2 * (x4 + 2 * (x5 + 2 * (x6 + 2
        * x7))))));
    assert(bits_val(s) == x0 + 2 * (x1 + 2 * (x2 + 2 * (x3 + 2 * (x4 + 2 * (x5 + 2 * (x6 + 2
        * x7)))))));
    assert(b == (b & 1) + 2 * ((b >> 1) & 1) + 4 * ((b >> 2) & 1) + 8 * ((b >> 3) & 1) + 16 * ((b
        >> 4) & 1) + 32 * ((b >> 5) & 1) + 64 * ((b >> 6) & 1) + 128 * ((b >> 7) & 1))
        by (bit_vector);
    assert((b & 1) <= 1 && ((b >> 1) & 1) <= 1 && ((b >> 2) & 1) <= 1 && ((b >> 3) & 1) <= 1 && ((b
        >> 4) & 1) <= 1 && ((b >> 5) & 1) <= 1 && ((b >> 6) & 1) <= 1 && ((b >> 7) & 1) <= 1)
        by (bit_vector);
}

/// The bits of a byte string, least significant byte first.
pub open spec fn bytes_bits(s: Seq<u8>) -> Seq<bool>
    decreases s.len(),
{
    if s.len() == 0 {
        Seq::empty()
    } else {
        byte_bits(s[0]) + bytes_bits(s.drop_first())
    }
}

/// A byte string has eight bits per byte.
pub proof fn lemma_bytes_bits_len(s: Seq<u8>)
    ensures
        bytes_bits(s).len() == 8 * s.len(),
    decreases s.len(),
{
    if s.len() > 0 {
        lemma_bytes_bits_len(s.drop_first());
    }
}

/// Bit `j` of a byte string is bit `j % 8` of byte `j / 8`.
pub proof fn lemma_bytes_bits_index(s: Seq<u8>, j: int)
    requires
        0 <= j < 8 * s.len(),
    ensures
        bytes_bits(s).len() == 8 * s.len(),
        bytes_bits(s)[j] == byte_bits(s[j / 8])[j % 8],
    decreases s.len(),
{
    lemma_bytes_bits_len(s);
    lemma_bytes_bits_len(s.drop_first());
    if j < 8 {
        assert(j / 8 == 0 && j % 8 == j) by {
            lemma_fundamental_div_mod_converse(j, 8, 0, j);
        }
    } else {
        lemma_bytes_bits_index(s.drop_first(), j - 8);
        let q = (j - 8) / 8;
        let r = (j - 8) % 8;
        lemma_fundamental_div_mod(j - 8, 8);
        assert(j == 8 * (q + 1) + r);
        lemma_fundamental_div_mod_converse(j, 8, q + 1, r);
        assert(s.drop_first()[(j - 8) / 8] == s[j / 8]);
    }
}

/// The value of a byte string's bits, as one lemma over the whole string.
pub proof fn lemma_bytes_bits_val(s: Seq<u8>)
    ensures
        bits_val(bytes_bits(s)) == if s.len() == 0 {
            0nat
        } else {
            (s[0] + 256 * bits_val(bytes_bits(s.drop_first()))) as nat
        },
{
    if s.len() > 0 {
        lemma_byte_bits_val(s[0]);
        lemma_bits_val_concat(byte_bits(s[0]), bytes_bits(s.drop_first()));
        lemma2_to64();
        assert(pow2(8) == 256);
    }
}

/// Reads the first `nbits` bits of a little-endian byte string.
pub fn bytes_to_bits(bytes: &Vec<u8>, nbits: usize) -> (r: Vec<bool>)
    requires
        nbits <= 8 * bytes@.len(),
    ensures
        r@ =~= bytes_bits(bytes@).take(nbits as int),
        r@.len() == nbits,
{
    proof {
        lemma_bytes_bits_len(bytes@);
    }
    let mut out: Vec<bool> = Vec::new();
    let mut j: usize = 0;
    while j < nbits
        invariant
            j <= nbits,
            nbits <= 8 * bytes@.len(),
            bytes_bits(bytes@).len() == 8 * bytes@.len(),
            out@ =~= bytes_bits(bytes@).take(j as int),
        decreases nbits - j,
    {
        let byte = bytes[j / 8];
        let bit = (byte >> ((j % 8) as u8)) & 1 == 1;
        proof {
            lemma_bytes_bits_index(bytes@, j as int);
            assert(byte_bits(byte)[(j as int) % 8] == bit) by {
                let m = (j as int) % 8;
                assert(0 <= m < 8);
                let bb = byte_bits(byte);
                assert(byte >> 0u8 == byte) by (bit_vector);
                if m == 0 {
                    assert(bb[0] == (byte & 1 == 1));
                }
            }
        }
        out.push(bit);
        j = j + 1;
    }
    out
}

/// Builds the `width`-bit string of a machine integer.
pub fn u128_to_bits(x: u128, width: usize) -> (r: Vec<bool>)
    requires
        width <= 128,
        x < pow2(width as nat),
    ensures
        r@.len() == width,
        bits_val(r@) == x,
{
    let mut out: Vec<bool> = Vec::new();
    let mut i: usize = 0;
    let mut cur: u128 = x;
    proof {
        lemma2_to64();
    }
    while i < width
        invariant
            i <= width,
            width <= 128,
            out@.len() == i,
            x == bits_val(out@) + pow2(i as nat) * cur,
        decreases width - i,
    {
        let bit = cur & 1 == 1;
        let next = cur >> 1u128;
        proof {
            lemma_u128_shr_is_div(cur, 1);
            lemma2_to64();
            assert(cur == 2 * (cur / 2) + cur % 2) by {
                lemma_fundamental_div_mod(cur as int, 2);
            }
            assert((cur & 1) == cur % 2) by (bit_vector);
            lemma_bits_val_push(out@, bit);
            lemma_pow2_adds(i as nat, 1);
            assert(x == bits_val(out@.push(bit)) + pow2((i + 1) as nat) * next) by {
                assert(cur == 2 * next + (if bit { 1nat } else { 0nat }));
                assert(pow2(i as nat) * cur == pow2(i as nat) * (if bit { 1nat } else { 0nat })
                    + (pow2(i as nat) * 2) * next) by (nonlinear_arith)
                    requires cur == 2 * next + (if bit { 1nat } else { 0nat });
                assert(pow2((i + 1) as nat) == pow2(i as nat) * 2);
            }
        }
        out.push(bit);
        cur = next;
        i = i + 1;
    }
    proof {
        if cur > 0 {
            assert(x >= pow2(width as nat) * cur) by (nonlinear_arith)
                requires
                    x == bits_val(out@) + pow2(width as nat) * cur,
                    cur > 0,
            ;
            lemma_pow2_pos(width as nat);
            assert(pow2(width as nat) * cur >= pow2(width as nat) * 1) by (nonlinear_arith)
                requires cur >= 1, pow2(width as nat) > 0;
        }
    }
    out
}

/// Reads a bit string of at most 128 bits back as a machine integer.
pub fn bits_value_u128(bits: &Vec<bool>) -> (r: u128)
    requires
        bits@.len() <= 128,
    ensures
        r == bits_val(bits@),
{
    let mut acc: u128 = 0;
    let mut i: usize = bits.len();
    proof {
        lemma2_to64();
        assert(bits@.skip(i as int) =~= Seq::<bool>::empty());
    }
    while i > 0
        invariant
            i <= bits@.len() <= 128,
            acc == bits_val(bits@.skip(i as int)),
            acc < pow2((bits@.len() - i) as nat),
        decreases i,
    {
        let ghost len = bits@.len();
        let bit = bits[i - 1];
        proof {
            lemma2_to64();
            lemma_pow2_adds((len - i) as nat, 1);
            if ((len - i + 1) as nat) < 128 {
                lemma_pow2_strictly_increases((len - i + 1) as nat, 128);
            }
            assert(pow2(128) == 0x100000000000000000000000000000000) by {
                lemma_pow2_adds(64, 64);
            }
            assert(bits@.skip(i as int - 1).drop_first() =~= bits@.skip(i as int));
        }
        acc = 2 * acc + (if bit {
            1
        } else {
            0
        });
        i = i - 1;
    }
    proof {
        assert(bits@.skip(0) =~= bits@);
    }
    acc
}

/// Whether every bit of the string is clear, i.e. its value is zero.
pub fn bits_is_zero(bits: &Vec<bool>) -> (r: bool)
    ensures
        r == (bits_val(bits@) == 0),
{
    let mut i: usize = 0;
    let mut all_clear = true;
    while i < bits.len()
        invariant
            i <= bits@.len(),
            all_clear == (forall|j: int| 0 <= j < i ==> !bits@[j]),
        decreases bits@.len() - i,
    {
        if bits[i] {
            all_clear = false;
        }
        i = i + 1;
    }
    proof {
        lemma_bits_val_zero(bits@);
    }
    all_clear
}

/// Extends a bit string with clear bits up to `len`, keeping its value.
pub fn pad_bits(bits: &Vec<bool>, len: usize) -> (r: Vec<bool>)
    requires
        bits@.len() <= len,
    ensures
        r@.len() == len,
        bits_val(r@) == bits_val(bits@),
        r@.take(bits@.len() as int) =~= bits@,
{
    let mut out = bits.clone();
    while out.len() < len
        invariant
            bits@.len() <= out@.len() <= len,
            bits_val(out@) == bits_val(bits@),
            out@.take(bits@.len() as int) =~= bits@,
        decreases len - out@.len(),
    {
        proof {
            lemma_bits_val_push(out@, false);
        }
        out.push(false);
    }
    out
}

/// Adds two bit strings of equal length; the result has one more bit.
pub fn add_bits(a: &Vec<bool>, b: &Vec<bool>) -> (r: Vec<bool>)
    requires
        a@.len() == b@.len(),
    ensures
        r@.len() == a@.len() + 1,
        bits_val(r@) == bits_val(a@) + bits_val(b@),
{
    let n = a.len();
    let mut out: Vec<bool> = Vec::new();
    let mut carry = false;
    let mut i: usize = 0;
    while i < n
        invariant
            i <= n,
            n == a@.len() == b@.len(),
            out@.len() == i,
            bits_val(a@.take(i as int)) + bits_val(b@.take(i as int)) == bits_val(out@) + pow2(
                i as nat,
            ) * (if carry {
                1nat
            } else {
                0nat
            }),
        decreases n - i,
    {
        let x = a[i];
        let y = b[i];
        let sum_bit = x ^ y ^ carry;
        let new_carry = (x && y) || (x && carry) || (y && carry);
        proof {
            let xa: nat = if x { 1 } else { 0 };
            let yb: nat = if y { 1 } else { 0 };
            let c: nat = if carry { 1 } else { 0 };
            let s: nat = if sum_bit { 1 } else { 0 };
            let nc: nat = if new_carry { 1 } else { 0 };
            assert(xa + yb + c == s + 2 * nc);
            assert(a@.take(i + 1) =~= a@.take(i as int).push(x));
            assert(b@.take(i + 1) =~= b@.take(i as int).push(y));
            lemma_bits_val_push(a@.take(i as int), x);
            lemma_bits_val_push(b@.take(i as int), y);
            lemma_bits_val_push(out@, sum_bit);
            lemma_pow2_adds(i as nat, 1);
            lemma2_to64();
            assert(bits_val(a@.take(i + 1)) + bits_val(b@.take(i + 1)) == bits_val(
                out@.push(sum_bit),
            ) + pow2((i + 1) as nat) * nc) by (nonlinear_arith)
                requires
                    bits_val(a@.take(i + 1)) == bits_val(a@.take(i as int)) + pow2(i as nat) * xa,
                    bits_val(b@.take(i + 1)) == bits_val(b@.take(i as int)) + pow2(i as nat) * yb,
                    bits_val(out@.push(sum_bit)) == bits_val(out@) + pow2(i as nat) * s,
                    bits_val(a@.take(i as int)) + bits_val(b@.take(i as int)) == bits_val(out@)
                        + pow2(i as nat) * c,
                    xa + yb + c == s + 2 * nc,
                    pow2((i + 1) as nat) == pow2(i as nat) * 2,
            ;
        }
        out.push(sum_bit);
        carry = new_carry;
        i = i + 1;
    }
    proof {
        assert(a@.take(n as int) =~= a@);
        assert(b@.take(n as int) =~= b@);
        lemma_bits_val_push(out@, carry);
    }
    out.push(carry);
    out
}


/// The canonical `width`-bit string of a number, least significant first.
pub open spec fn val_bits(n: nat, width: nat) -> Seq<bool>
    decreases width,
{
    if width == 0 {
        Seq::empty()
    } else {
        seq![n % 2 == 1] + val_bits(n / 2, (width - 1) as nat)
    }
}

/// The canonical bit string has its width and, for numbers in range, its
/// value.
pub proof fn lemma_val_bits_props(n: nat, width: nat)
    ensures
        val_bits(n, width).len() == width,
        n < pow2(width) ==> bits_val(val_bits(n, width)) == n,
    decreases width,
{
    lemma2_to64();
    if width > 0 {
        lemma_val_bits_props(n / 2, (width - 1) as nat);
        let s = val_bits(n, width);
        assert(s.drop_first() =~= val_bits(n / 2, (width - 1) as nat));
        if n < pow2(width) {
            lemma_pow2_adds(1, (width - 1) as nat);
            lemma_fundamental_div_mod(n as int, 2);
        }
    }
}

/// Two bit strings of one length and one value are the same string.
pub proof fn lemma_bits_val_injective(a: Seq<bool>, b: Seq<bool>)
    requires
        a.len() == b.len(),
        bits_val(a) == bits_val(b),
    ensures
        a =~= b,
    decreases a.len(),
{
    if a.len() > 0 {
        let xa: nat = if a[0] { 1 } else { 0 };
        let xb: nat = if b[0] { 1 } else { 0 };
        assert(xa + 2 * bits_val(a.drop_first()) == xb + 2 * bits_val(b.drop_first()));
        lemma_bits_val_injective(a.drop_first(), b.drop_first());
        assert(a =~= seq![a[0]] + a.drop_first());
        assert(b =~= seq![b[0]] + b.drop_first());
    }
}

/// Concatenates two bit strings.
pub fn concat_bits(a: &Vec<bool>, b: &Vec<bool>) -> (r: Vec<bool>)
    ensures
        r@ =~= a@ + b@,
{
    let mut out = a.clone();
    let mut i: usize = 0;
    while i < b.len()
        invariant
            i <= b@.len(),
            out@ =~= a@ + b@.take(i as int),
        decreases b@.len() - i,
    {
        out.push(b[i]);
        i = i + 1;
    }
    proof {
        assert(b@.take(b@.len() as int) =~= b@);
    }
    out
}


/// The suffix of a bit string from position `n` on.
pub fn skip_bits(v: &Vec<bool>, n: usize) -> (r: Vec<bool>)
    requires
        n <= v@.len(),
    ensures
        r@ =~= v@.skip(n as int),
{
    let mut out: Vec<bool> = Vec::new();
    let mut i: usize = n;
    while i < v.len()
        invariant
            n <= i <= v@.len(),
            out@ =~= v@.subrange(n as int, i as int),
        decreases v@.len() - i,
    {
        out.push(v[i]);
        i = i + 1;
    }
    out
}

/// The prefix of a bit string up to position `n`.
pub fn take_bits(v: &Vec<bool>, n: usize) -> (r: Vec<bool>)
    requires
        n <= v@.len(),
    ensures
        r@ =~= v@.take(n as int),
{
    let mut out: Vec<bool> = Vec::new();
    let mut i: usize = 0;
    while i < n
        invariant
            i <= n <= v@.len(),
            out@ =~= v@.take(i as int),
        decreases n - i,
    {
        out.push(v[i]);
        i = i + 1;
    }
    out
}

} // verus!
