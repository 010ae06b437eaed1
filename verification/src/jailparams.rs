//! Kernel jail parameters and their wire form.
//!
//! A jail is created from a list of named parameters; each value is
//! serialized to the bytes the kernel interface expects: integers and
//! booleans as four little-endian bytes, strings as their bytes with a
//! terminating nul, addresses as network-order words.

use vstd::prelude::*;
use vstd::string::*;
use crate::errors::Error;

verus! {

/// A jail parameter value.
#[derive(Clone, Debug)]
pub enum ParamValue {
    /// An integer, wired as a C int.
    Int(i32),
    /// A string, wired with a terminating nul.
    Text(String),
    /// A boolean, wired as a C int of zero or one.
    Bool(bool),
    /// A list of 32-bit addresses, wired in network order.
    Ipv4(Vec<u32>),
    /// A list of 128-bit addresses, wired as their sixteen octets.
    Ipv6(Vec<u128>),
}

/// The four little-endian bytes of a 32-bit value.
pub open spec fn le32_bytes(x: u32) -> Seq<u8> {
    seq![
        (x % 256) as u8,
        (x / 256 % 256) as u8,
        (x / 0x1_0000 % 256) as u8,
        (x / 0x100_0000 % 256) as u8,
    ]
}

/// The four big-endian (network-order) bytes of a 32-bit value.
pub open spec fn be32_bytes(x: u32) -> Seq<u8> {
    seq![
        (x / 0x100_0000 % 256) as u8,
        (x / 0x1_0000 % 256) as u8,
        (x / 256 % 256) as u8,
        (x % 256) as u8,
    ]
}

/// The sixteen big-endian bytes of a 128-bit value, most significant
/// first: byte `i` is the value shifted down by `8 * (15 - i)`.
pub open spec fn be128_byte(x: u128, i: int) -> u8 {
    ((x as nat / pow256((15 - i) as nat)) % 256) as u8
}

/// 256 to the power `e`.
pub open spec fn pow256(e: nat) -> nat
    decreases e,
{
    if e == 0 {
        1
    } else {
        256 * pow256((e - 1) as nat)
    }
}

/// The network-order concatenation of a list of 32-bit addresses, up to
/// index `n`.
pub open spec fn be32_list(xs: Seq<u32>, n: int) -> Seq<u8>
    decreases n,
{
    if n <= 0 {
        Seq::empty()
    } else {
        be32_list(xs, n - 1) + be32_bytes(xs[n - 1])
    }
}

/// The octet concatenation of a list of 128-bit addresses, up to index
/// `n`.
pub open spec fn be128_list(xs: Seq<u128>, n: int) -> Seq<u8>
    decreases n,
{
    if n <= 0 {
        Seq::empty()
    } else {
        be128_list(xs, n - 1) + Seq::new(16, |i: int| be128_byte(xs[n - 1], i))
    }
}

/// Push the four little-endian bytes of `x`.
fn push_le32(out: &mut Vec<u8>, x: u32)
    ensures
        final(out)@ == old(out)@ + le32_bytes(x),
{
    out.push((x % 256) as u8);
    out.push((x / 256 % 256) as u8);
    out.push((x / 0x1_0000 % 256) as u8);
    out.push((x / 0x100_0000 % 256) as u8);
    proof {
        assert(final(out)@ =~= old(out)@ + le32_bytes(x));
    }
}

/// Push the four network-order bytes of `x`.
fn push_be32(out: &mut Vec<u8>, x: u32)
    ensures
        final(out)@ == old(out)@ + be32_bytes(x),
{
    out.push((x / 0x100_0000 % 256) as u8);
    out.push((x / 0x1_0000 % 256) as u8);
    out.push((x / 256 % 256) as u8);
    out.push((x % 256) as u8);
    proof {
        assert(final(out)@ =~= old(out)@ + be32_bytes(x));
    }
}

impl ParamValue {
    /// The wire bytes of this value.  Fails exactly on a string with an
    /// interior nul, which cannot be wired nul-terminated.
    pub fn as_bytes(&self) -> (r: Result<Vec<u8>, Error>)
        ensures
            match self {
                ParamValue::Int(v) => r matches Ok(b) && b@ == le32_bytes(*v as u32),
                ParamValue::Bool(v) => r matches Ok(b) && b@ == le32_bytes(
                    if *v {
                        1u32
                    } else {
                        0u32
                    },
                ),
                ParamValue::Text(s) => {
                    let sb = vstd::utf8::encode_utf8(s@);
                    if exists|i: int| 0 <= i < sb.len() && (#[trigger] sb[i]) == 0u8 {
                        r is Err
                    } else {
                        r matches Ok(b) && b@ == sb + seq![0u8]
                    }
                }
                ParamValue::Ipv4(xs) => r matches Ok(b) && b@ == be32_list(
                    xs@, xs@.len() as int),
                ParamValue::Ipv6(xs) => r matches Ok(b) && b@ == be128_list(
                    xs@, xs@.len() as int),
            },
    {
        match self {
            ParamValue::Int(v) => {
                let mut out: Vec<u8> = Vec::new();
                push_le32(&mut out, *v as u32);
                proof {
                    assert(out@ =~= le32_bytes(*v as u32));
                }
                Ok(out)
            }
            ParamValue::Bool(v) => {
                let mut out: Vec<u8> = Vec::new();
                let w: u32 = if *v {
                    1
                } else {
                    0
                };
                push_le32(&mut out, w);
                proof {
                    assert(out@ =~= le32_bytes(w));
                }
                Ok(out)
            }
            ParamValue::Text(s) => {
                let bytes = s.as_str().as_bytes_vec();
                let mut i: usize = 0;
                while i < bytes.len()
                    invariant
                        (*self) matches ParamValue::Text(ss) && vstd::utf8::encode_utf8(ss@)
                            == bytes@,
                        bytes@ == vstd::utf8::encode_utf8(s@),
                        i <= bytes@.len(),
                        forall|j: int| 0 <= j < i ==> (#[trigger] bytes@[j]) != 0u8,
                    decreases bytes@.len() - i,
                {
                    if bytes[i] == 0 {
                        proof {
                            let sb = vstd::utf8::encode_utf8(s@);
                            assert(sb[i as int] == 0u8);
                        }
                        return Err(Error::NulInString(s.clone()));
                    }
                    i = i + 1;
                }
                let mut out = bytes;
                out.push(0);
                Ok(out)
            }
            ParamValue::Ipv4(xs) => {
                let mut out: Vec<u8> = Vec::new();
                let mut i: usize = 0;
                while i < xs.len()
                    invariant
                        i <= xs@.len(),
                        out@ == be32_list(xs@, i as int),
                    decreases xs@.len() - i,
                {
                    push_be32(&mut out, xs[i]);
                    i = i + 1;
                }
                Ok(out)
            }
            ParamValue::Ipv6(xs) => {
                let mut out: Vec<u8> = Vec::new();
                let mut i: usize = 0;
                while i < xs.len()
                    invariant
                        i <= xs@.len(),
                        out@ == be128_list(xs@, i as int),
                    decreases xs@.len() - i,
                {
                    let x = xs[i];
                    let ghost pre = out@;
                    let mut p: u128 = 0x100_0000_0000_0000_0000_0000_0000_0000;
                    proof {
                        lemma_pow256_15();
                    }
                    let mut k: usize = 0;
                    while k < 16
                        invariant
                            k <= 16,
                            p as nat == pow256((15 - k) as nat) || k == 16,
                            out@.len() == pre.len() + k,
                            forall|j: int|
                                0 <= j < pre.len() ==> #[trigger] out@[j] == pre[j],
                            forall|j: int|
                                0 <= j < k ==> #[trigger] out@[pre.len() + j] == be128_byte(
                                    x, j),
                        decreases 16 - k,
                    {
                        proof {
                            lemma_pow256_pos((15 - k) as nat);
                            assert(p as nat == pow256((15 - k) as nat));
                        }
                        let byte = ((x / p) % 256) as u8;
                        out.push(byte);
                        proof {
                            assert(out@[pre.len() + k] == be128_byte(x, k as int));
                            if k < 15 {
                                assert(pow256((15 - k) as nat) == 256 * pow256(
                                    (15 - (k + 1)) as nat));
                            }
                        }
                        if k < 15 {
                            p = p / 256;
                        }
                        k = k + 1;
                    }
                    proof {
                        assert forall|j: int| 0 <= j < 16 implies out@.subrange(
                            pre.len() as int, out@.len() as int)[j] == be128_byte(x, j) by {
                            assert(out@[pre.len() + j] == be128_byte(x, j));
                        }
                        assert(Seq::new(16, |j: int| be128_byte(x, j)) =~= out@.subrange(
                            pre.len() as int, out@.len() as int));
                        assert(out@ =~= be128_list(xs@, i + 1));
                    }
                    i = i + 1;
                }
                Ok(out)
            }
        }
    }

    /// The parameter value of a manifest setting: integers truncate to
    /// the kernel's int width.
    pub fn from_setting(s: &crate::manifest::ParamSetting) -> (r: ParamValue)
        ensures
            match s {
                crate::manifest::ParamSetting::Int(v) => r matches ParamValue::Int(w) && w == *v
                    as i32,
                crate::manifest::ParamSetting::Bool(v) => r matches ParamValue::Bool(w) && w
                    == *v,
                crate::manifest::ParamSetting::Text(t) => r matches ParamValue::Text(w) && w@
                    == t@,
            },
    {
        match s {
            crate::manifest::ParamSetting::Int(v) => ParamValue::Int(*v as i32),
            crate::manifest::ParamSetting::Bool(v) => ParamValue::Bool(*v),
            crate::manifest::ParamSetting::Text(t) => ParamValue::Text(t.clone()),
        }
    }

    /// The nul-terminated bytes of a parameter name, as the kernel
    /// interface wants it.  Fails exactly on a name with an interior
    /// nul.
    pub fn name_bytes(name: &str) -> (r: Result<Vec<u8>, Error>)
        ensures
            (exists|i: int|
                0 <= i < name.spec_bytes().len() && (#[trigger] name.spec_bytes()[i]) == 0u8)
                <==> r is Err,
            r matches Ok(b) ==> b@ == name.spec_bytes() + seq![0u8],
    {
        let bytes = name.as_bytes_vec();
        let mut i: usize = 0;
        while i < bytes.len()
            invariant
                bytes@ == name.spec_bytes(),
                i <= bytes@.len(),
                forall|j: int| 0 <= j < i ==> (#[trigger] bytes@[j]) != 0u8,
            decreases bytes@.len() - i,
        {
            if bytes[i] == 0 {
                return Err(Error::NulInString(name.to_owned()));
            }
            i = i + 1;
        }
        let mut out = bytes;
        out.push(0);
        Ok(out)
    }
}

/// Powers of 256 are positive.
proof fn lemma_pow256_pos(e: nat)
    ensures
        pow256(e) >= 1,
    decreases e,
{
    if e > 0 {
        lemma_pow256_pos((e - 1) as nat);
    }
}

/// The fifteenth power of 256, as a constant.
proof fn lemma_pow256_15()
    ensures
        pow256(15) == 0x100_0000_0000_0000_0000_0000_0000_0000,
{
    assert(pow256(0) == 1);
    assert(pow256(1) == 256);
    assert(pow256(2) == 0x1_0000);
    assert(pow256(3) == 0x100_0000);
    assert(pow256(4) == 0x1_0000_0000);
    assert(pow256(5) == 0x100_0000_0000);
    assert(pow256(6) == 0x1_0000_0000_0000);
    assert(pow256(7) == 0x100_0000_0000_0000);
    assert(pow256(8) == 0x1_0000_0000_0000_0000);
    assert(pow256(9) == 0x100_0000_0000_0000_0000);
    assert(pow256(10) == 0x1_0000_0000_0000_0000_0000);
    assert(pow256(11) == 0x100_0000_0000_0000_0000_0000);
    assert(pow256(12) == 0x1_0000_0000_0000_0000_0000_0000);
    assert(pow256(13) == 0x100_0000_0000_0000_0000_0000_0000);
    assert(pow256(14) == 0x1_0000_0000_0000_0000_0000_0000_0000);
    assert(pow256(15) == 0x100_0000_0000_0000_0000_0000_0000_0000);
}

} // verus!
