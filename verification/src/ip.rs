//! IP addresses, subnets and address pools.
//!
//! Addresses are held as their numeric value together with the family, a
//! subnet as its network base, prefix length and family.  A pool hands out
//! the lowest unreserved host of its subnet and never its gateway.

use vstd::prelude::*;
use vstd::string::*;
use vstd::arithmetic::power2::*;
use vstd::arithmetic::div_mod::*;

verus! {

/// An IP address: the 32-bit value of an IPv4 address or the 128-bit value
/// of an IPv6 address.
#[derive(Clone, Copy, Debug, PartialEq, Eq, Structural)]
pub enum IpAddress {
    V4(u32),
    V6(u128),
}

impl IpAddress {
    /// The numeric value of the address, widened to 128 bits.
    pub open spec fn spec_bits(self) -> u128 {
        match self {
            IpAddress::V4(a) => a as u128,
            IpAddress::V6(a) => a,
        }
    }

    /// Whether this is an IPv6 address.
    pub open spec fn spec_is_v6(self) -> bool {
        self is V6
    }

    #[verifier::when_used_as_spec(spec_bits)]
    pub fn bits(self) -> (r: u128)
        ensures
            r == self.spec_bits(),
    {
        match self {
            IpAddress::V4(a) => a as u128,
            IpAddress::V6(a) => a,
        }
    }

    #[verifier::when_used_as_spec(spec_is_v6)]
    pub fn is_v6(self) -> (r: bool)
        ensures
            r == self.spec_is_v6(),
    {
        matches!(self, IpAddress::V6(_))
    }

    /// The textual form of an IPv4 address: the four bytes in decimal,
    /// highest first, joined by dots.
    pub open spec fn v4_text(a: u32) -> Seq<char> {
        crate::text::dec_digits((a >> 24) as nat) + seq!['.']
            + crate::text::dec_digits(((a >> 16) & 0xff) as nat) + seq!['.']
            + crate::text::dec_digits(((a >> 8) & 0xff) as nat) + seq!['.']
            + crate::text::dec_digits((a & 0xff) as nat)
    }

    /// The textual form of this address.  An IPv6 address is written as its
    /// eight 16-bit groups in decimal-free lowercase hex, joined by colons,
    /// without zero compression.
    pub open spec fn spec_text(self) -> Seq<char> {
        match self {
            IpAddress::V4(a) => Self::v4_text(a),
            IpAddress::V6(a) => Self::v6_text(a),
        }
    }

    /// The textual form of an IPv6 address: eight groups of lowercase hex.
    pub open spec fn v6_text(a: u128) -> Seq<char>
    {
        Self::v6_groups_text(a, 8)
    }

    /// The last `k` 16-bit groups of `a`, in lowercase hex joined by colons.
    pub open spec fn v6_groups_text(a: u128, k: nat) -> Seq<char>
        decreases k,
    {
        if k == 0 {
            Seq::empty()
        } else if k == 1 {
            hex_digits((a & 0xffff) as nat)
        } else {
            Self::v6_groups_text(a >> 16, (k - 1) as nat) + seq![':']
                + hex_digits((a & 0xffff) as nat)
        }
    }

    /// Render the address as text.
    pub fn to_text(self) -> (s: String)
        ensures
            s@ == self.spec_text(),
    {
        match self {
            IpAddress::V4(a) => {
                let mut s = crate::text::u64_to_string((a >> 24) as u64);
                s.append(".");
                crate::text::push_dec(&mut s, ((a >> 16) & 0xff) as u64);
                s.append(".");
                crate::text::push_dec(&mut s, ((a >> 8) & 0xff) as u64);
                s.append(".");
                crate::text::push_dec(&mut s, (a & 0xff) as u64);
                proof {
                    reveal_strlit(".");
                    assert(s@ =~= self.spec_text());
                }
                s
            }
            IpAddress::V6(a) => {
                let mut s = String::new();
                push_v6_groups(&mut s, a, 8);
                s
            }
        }
    }
}

/// The lowercase hex digit character for a value below sixteen.
pub open spec fn hex_digit_char(d: nat) -> char
    recommends
        d < 16,
{
    if d < 10 {
        crate::text::digit_char(d)
    } else if d == 10 {
        'a'
    } else if d == 11 {
        'b'
    } else if d == 12 {
        'c'
    } else if d == 13 {
        'd'
    } else if d == 14 {
        'e'
    } else {
        'f'
    }
}

/// The lowercase hex digit string of a natural number, most significant
/// digit first, without leading zeroes.
pub open spec fn hex_digits(n: nat) -> Seq<char>
    decreases n,
{
    if n < 16 {
        seq![hex_digit_char(n)]
    } else {
        hex_digits(n / 16) + seq![hex_digit_char(n % 16)]
    }
}

/// Append the lowercase hex digits of `n` to `s`.
pub fn push_hex(s: &mut String, n: u64)
    ensures
        final(s)@ == old(s)@ + hex_digits(n as nat),
    decreases n,
{
    if n >= 16 {
        push_hex(s, n / 16);
    }
    let d = (n % 16) as usize;
    let digits: &str = "0123456789abcdef";
    proof {
        reveal_strlit("0123456789abcdef");
    }
    let piece = digits.substring_ascii(d, d + 1);
    s.append(piece);
    proof {
        assert(piece@ =~= seq![hex_digit_char((n % 16) as nat)]);
        if n < 16 {
            assert(hex_digits(n as nat) == seq![hex_digit_char(n as nat)]);
        }
        assert(final(s)@ =~= old(s)@ + hex_digits(n as nat));
    }
}

/// Whether a character is a hexadecimal digit.
pub open spec fn is_hex_digit(c: char) -> bool {
    ('0' <= c <= '9') || ('a' <= c <= 'f') || ('A' <= c <= 'F')
}

/// The value of a hexadecimal digit character.
pub open spec fn hex_val(c: char) -> nat
    recommends
        is_hex_digit(c),
{
    if '0' <= c <= '9' {
        (c as nat - '0' as nat) as nat
    } else if 'a' <= c <= 'f' {
        (c as nat - 'a' as nat + 10) as nat
    } else {
        (c as nat - 'A' as nat + 10) as nat
    }
}

/// Whether a character sequence is a non-empty run of hex digits.
pub open spec fn all_hex_digits(s: Seq<char>) -> bool {
    forall|i: int| 0 <= i < s.len() ==> is_hex_digit(#[trigger] s[i])
}

/// The numeric value of a hex digit run, most significant digit first.
pub open spec fn hex_value(s: Seq<char>) -> nat
    decreases s.len(),
{
    if s.len() == 0 {
        0
    } else {
        hex_value(s.drop_last()) * 16 + hex_val(s.last())
    }
}

/// Parse a string as a 16-bit hex group (one to four hex digits).
pub fn parse_hex16(s: &str) -> (r: Option<u16>)
    ensures
        r is Some <==> 1 <= s@.len() <= 4 && all_hex_digits(s@),
        r matches Some(v) ==> v == hex_value(s@),
{
    let n = s.unicode_len();
    if n == 0 || n > 4 {
        return None;
    }
    let mut i: usize = 0;
    let mut acc: u32 = 0;
    while i < n
        invariant
            n == s@.len(),
            1 <= n <= 4,
            i <= n,
            all_hex_digits(s@.take(i as int)),
            acc == hex_value(s@.take(i as int)),
            acc < (if i == 0 {
                1int
            } else if i == 1 {
                16int
            } else if i == 2 {
                256int
            } else if i == 3 {
                4096int
            } else {
                65536int
            }),
        decreases n - i,
    {
        let c = s.get_char(i);
        let d: u32 = if '0' <= c && c <= '9' {
            (c as u32) - 48
        } else if 'a' <= c && c <= 'f' {
            (c as u32) - 97 + 10
        } else if 'A' <= c && c <= 'F' {
            (c as u32) - 65 + 10
        } else {
            proof {
                assert(!is_hex_digit(s@[i as int]));
            }
            return None;
        };
        acc = acc * 16 + d;
        proof {
            assert(s@.take(i + 1).drop_last() =~= s@.take(i as int));
            assert(s@.take(i + 1).last() == s@[i as int]);
        }
        i = i + 1;
    }
    proof {
        assert(s@.take(n as int) =~= s@);
    }
    Some(acc as u16)
}

/// Append the last `k` 16-bit groups of `a` to `s`, most significant of the
/// `k` first, joined by colons.
fn push_v6_groups(s: &mut String, a: u128, k: usize)
    requires
        1 <= k <= 8,
    ensures
        final(s)@ == old(s)@ + IpAddress::v6_groups_text(a, k as nat),
    decreases k,
{
    if k > 1 {
        push_v6_groups(s, a >> 16, k - 1);
        s.append(":");
    }
    let grp: u64 = (a & 0xffff) as u64;
    proof {
        assert(a & 0xffff <= 0xffff) by (bit_vector);
    }
    push_hex(s, grp);
    proof {
        reveal_strlit(":");
        assert(final(s)@ =~= old(s)@ + IpAddress::v6_groups_text(a, k as nat));
    }
}

/// Whether a character sequence is a dotted decimal IPv4 address.
pub open spec fn is_dotted_quad(s: Seq<char>) -> bool {
    let parts = crate::text::spec_split(s, '.');
    parts.len() == 4 && forall|i: int|
        0 <= i < 4 ==> (#[trigger] parts[i]).len() > 0 && crate::text::all_digits(parts[i])
            && crate::text::dec_value(parts[i]) <= 255
}

/// The numeric value of a dotted decimal IPv4 address.
pub open spec fn dotted_quad_value(s: Seq<char>) -> u32 {
    let parts = crate::text::spec_split(s, '.');
    (crate::text::dec_value(parts[0]) * 0x100_0000 + crate::text::dec_value(parts[1]) * 0x1_0000
        + crate::text::dec_value(parts[2]) * 0x100 + crate::text::dec_value(parts[3])) as u32
}

/// Parse a dotted decimal IPv4 address.  Succeeds exactly on four
/// dot-separated decimal runs of at most 255 each.
pub fn parse_v4(s: &str) -> (r: Option<u32>)
    ensures
        r is Some <==> is_dotted_quad(s@),
        r matches Some(v) ==> v == dotted_quad_value(s@),
{
    let parts = crate::text::split_char(s, '.');
    proof {
        let sp = crate::text::spec_split(s@, '.');
        assert forall|i: int| 0 <= i < parts@.len() implies (#[trigger] parts@[i])@
            == sp[i] by {
            assert(parts@.map_values(|t: String| t@)[i] == sp[i]);
        }
    }
    if parts.len() != 4 {
        return None;
    }
    let a = match crate::text::parse_u8(parts[0].as_str()) {
        Some(v) => v,
        None => {
            return None;
        }
    };
    let b = match crate::text::parse_u8(parts[1].as_str()) {
        Some(v) => v,
        None => {
            return None;
        }
    };
    let c = match crate::text::parse_u8(parts[2].as_str()) {
        Some(v) => v,
        None => {
            return None;
        }
    };
    let d = match crate::text::parse_u8(parts[3].as_str()) {
        Some(v) => v,
        None => {
            return None;
        }
    };
    Some((a as u32) * 0x100_0000 + (b as u32) * 0x1_0000 + (c as u32) * 0x100 + (d as u32))
}

/// The numeric value of a sequence of 16-bit hex groups, most significant
/// group first.
pub open spec fn v6_groups_value(parts: Seq<Seq<char>>) -> nat
    decreases parts.len(),
{
    if parts.len() == 0 {
        0
    } else {
        v6_groups_value(parts.drop_last()) * 0x1_0000 + hex_value(parts.last())
    }
}

/// Whether a character sequence is a full-form IPv6 address: eight hex
/// groups of one to four digits, joined by colons.
pub open spec fn is_v6_full(s: Seq<char>) -> bool {
    let parts = crate::text::spec_split(s, ':');
    parts.len() == 8 && forall|i: int|
        0 <= i < 8 ==> 1 <= (#[trigger] parts[i]).len() <= 4 && all_hex_digits(parts[i])
}

/// The numeric value of a full-form IPv6 address.
pub open spec fn v6_full_value(s: Seq<char>) -> nat {
    v6_groups_value(crate::text::spec_split(s, ':'))
}

/// Parse a full-form IPv6 address (eight hex groups; zero compression is
/// not accepted).
pub fn parse_v6(s: &str) -> (r: Option<u128>)
    ensures
        r is Some <==> is_v6_full(s@),
        r matches Some(v) ==> v as nat == v6_full_value(s@),
{
    let parts = crate::text::split_char(s, ':');
    proof {
        let sp = crate::text::spec_split(s@, ':');
        assert forall|i: int| 0 <= i < parts@.len() implies (#[trigger] parts@[i])@
            == sp[i] by {
            assert(parts@.map_values(|t: String| t@)[i] == sp[i]);
        }
    }
    if parts.len() != 8 {
        return None;
    }
    let ghost sp = crate::text::spec_split(s@, ':');
    let mut acc: u128 = 0;
    let mut i: usize = 0;
    proof {
        lemma2_to64();
        assert(sp.take(0) =~= Seq::<Seq<char>>::empty());
    }
    while i < 8
        invariant
            parts@.len() == 8,
            sp == crate::text::spec_split(s@, ':'),
            sp.len() == 8,
            forall|j: int| 0 <= j < 8 ==> (#[trigger] parts@[j])@ == sp[j],
            i <= 8,
            forall|j: int|
                0 <= j < i ==> 1 <= (#[trigger] sp[j]).len() <= 4 && all_hex_digits(sp[j]),
            acc as nat == v6_groups_value(sp.take(i as int)),
            (acc as nat) < pow2((16 * i) as nat),
        decreases 8 - i,
    {
        let g = match parse_hex16(parts[i].as_str()) {
            Some(v) => v,
            None => {
                proof {
                    assert(parts@[i as int]@ == sp[i as int]);
                    if is_v6_full(s@) {
                        let spp = crate::text::spec_split(s@, ':');
                        assert(spp.len() == 8);
                        assert(1 <= (spp[i as int]).len() <= 4);
                        assert(all_hex_digits(spp[i as int]));
                        assert(spp[i as int] == sp[i as int]);
                        assert(false);
                    }
                }
                return None;
            }
        };
        proof {
            lemma_pow2_adds((16 * i) as nat, 16);
            lemma_pow2_128();
            if 16 * i + 16 < 128 {
                lemma_pow2_strictly_increases((16 * i + 16) as nat, 128);
            }
            lemma2_to64();
            assert(pow2(16) == 0x1_0000);
        }
        acc = acc * 0x1_0000 + (g as u128);
        proof {
            assert(sp.take(i + 1).drop_last() =~= sp.take(i as int));
            assert(sp.take(i + 1).last() == sp[i as int]);
        }
        i = i + 1;
    }
    proof {
        assert(sp.take(8) =~= sp);
    }
    Some(acc)
}

/// The address a character sequence denotes, if any: a dotted decimal
/// IPv4 address, else a full-form IPv6 address.
pub open spec fn spec_net_addr(s: Seq<char>) -> Option<IpAddress> {
    if is_dotted_quad(s) {
        Some(IpAddress::V4(dotted_quad_value(s)))
    } else if is_v6_full(s) {
        Some(IpAddress::V6(v6_full_value(s) as u128))
    } else {
        None
    }
}

/// Parse an address: dotted decimal IPv4, or full-form IPv6 when the
/// string holds a colon.
pub fn parse_ip(s: &str) -> (r: Option<IpAddress>)
    ensures
        r matches Some(a) ==> (match a {
            IpAddress::V4(v) => is_dotted_quad(s@) && v == dotted_quad_value(s@),
            IpAddress::V6(v) => is_v6_full(s@) && v as nat == v6_full_value(s@),
        }),
        r is None ==> !is_dotted_quad(s@) && !is_v6_full(s@),
        r == spec_net_addr(s@),
{
    proof {
        reveal_strlit(":");
        reveal_strlit(".");
        assert(":"@ =~= seq![':']);
    }
    if crate::text::str_contains(s, ":") {
        proof {
            if is_dotted_quad(s@) {
                lemma_quad_has_no_colon(s@);
            }
        }
        match parse_v6(s) {
            Some(v) => Some(IpAddress::V6(v)),
            None => None,
        }
    } else {
        proof {
            if is_v6_full(s@) {
                lemma_v6_full_has_colon(s@);
            }
        }
        match parse_v4(s) {
            Some(v) => Some(IpAddress::V4(v)),
            None => None,
        }
    }
}

/// A dotted quad holds no colon.
proof fn lemma_quad_has_no_colon(s: Seq<char>)
    requires
        is_dotted_quad(s),
    ensures
        !crate::text::contains_seq(s, seq![':']),
{
    if crate::text::contains_seq(s, seq![':']) {
        let i = choose|i: int|
            0 <= i && i + 1 <= s.len() && #[trigger] s.subrange(i, i + 1) == seq![':'];
        assert(s.subrange(i, i + 1)[0] == ':');
        assert(s[i] == ':');
        lemma_split_chars(s, '.', i);
        let parts = crate::text::spec_split(s, '.');
        let (j, k) = choose|j: int, k: int|
            0 <= j < parts.len() && 0 <= k < parts[j].len() && #[trigger] parts[j][k] == s[i];
        assert(crate::text::all_digits(parts[j]));
        assert(crate::text::is_digit(parts[j][k]));
    }
}

/// A full-form IPv6 address holds a colon.
proof fn lemma_v6_full_has_colon(s: Seq<char>)
    requires
        is_v6_full(s),
    ensures
        crate::text::contains_seq(s, seq![':']),
{
    let parts = crate::text::spec_split(s, ':');
    lemma_split_sep_present(s, ':');
    let i = choose|i: int| 0 <= i < s.len() && s[i] == ':';
    assert(s.subrange(i, i + 1) =~= seq![':']);
}

/// Every character of a split input is either a separator or a character
/// of one of the fields; in particular a character that no field may hold
/// must be the separator.
proof fn lemma_split_chars(s: Seq<char>, sep: char, i: int)
    requires
        0 <= i < s.len(),
        s[i] != sep,
    ensures
        exists|j: int, k: int|
            0 <= j < crate::text::spec_split(s, sep).len() && 0 <= k < crate::text::spec_split(
                s, sep)[j].len() && #[trigger] crate::text::spec_split(s, sep)[j][k] == s[i],
    decreases s.len(),
{
    crate::text::lemma_first_sep(s, sep);
    let f = crate::text::first_sep(s, sep);
    let parts = crate::text::spec_split(s, sep);
    if f >= s.len() {
        assert(parts[0] == s);
        assert(parts[0][i] == s[i]);
    } else {
        if i < f {
            assert(parts[0] == s.take(f as int));
            assert(parts[0][i] == s[i]);
        } else {
            assert(i != f);
            let rest = s.skip(f as int + 1);
            lemma_split_chars(rest, sep, i - f - 1);
            let sub = crate::text::spec_split(rest, sep);
            let (j, k) = choose|j: int, k: int|
                0 <= j < sub.len() && 0 <= k < sub[j].len() && #[trigger] sub[j][k] == rest[i - f
                    - 1];
            assert(parts[j + 1] == sub[j]);
            assert(parts[j + 1][k] == s[i]);
        }
    }
}

/// When a split yields more than one field, the separator occurs in the
/// input.
proof fn lemma_split_sep_present(s: Seq<char>, sep: char)
    requires
        crate::text::spec_split(s, sep).len() > 1,
    ensures
        exists|i: int| 0 <= i < s.len() && s[i] == sep,
{
    crate::text::lemma_first_sep(s, sep);
    let f = crate::text::first_sep(s, sep);
    assert(f < s.len());
    assert(s[f as int] == sep);
}

/// `pow2(128) - 1` is the largest `u128`.
proof fn lemma_pow2_128()
    ensures
        pow2(128) == 0x1_0000_0000_0000_0000_0000_0000_0000_0000,
        pow2(32) == 0x1_0000_0000,
{
    lemma2_to64();
    lemma2_to64_rest();
    lemma_pow2_adds(64, 64);
}

/// An IP subnet: the network base address with its prefix length.
#[derive(Clone, Copy, Debug, PartialEq, Eq, Structural)]
pub struct Subnet {
    /// Whether this is an IPv6 subnet.
    pub v6: bool,
    /// The network base address (host bits zero), widened to 128 bits.
    pub base: u128,
    /// The prefix length.
    pub prefix: u8,
}

impl Subnet {
    /// The address width of the family.
    pub open spec fn width(self) -> nat {
        if self.v6 {
            128
        } else {
            32
        }
    }

    /// The number of addresses in the subnet.
    pub open spec fn span(self) -> nat {
        pow2((self.width() - self.prefix) as nat)
    }

    /// Well-formed: the prefix fits the family, the base is aligned to the
    /// prefix, and the subnet lies inside the address space.
    pub open spec fn wf(self) -> bool {
        &&& self.prefix <= self.width()
        &&& self.base as nat % self.span() == 0
        &&& self.base as nat + self.span() <= pow2(self.width())
    }

    /// The first usable host address.  For IPv4 prefixes up to /30 the
    /// network address is skipped; for /31, /32 and for IPv6 the subnet
    /// base itself is usable.
    pub open spec fn host_first(self) -> nat {
        if !self.v6 && self.prefix <= 30 {
            self.base as nat + 1
        } else {
            self.base as nat
        }
    }

    /// The last usable host address.  For IPv4 prefixes up to /30 the
    /// broadcast address is skipped.
    pub open spec fn host_last(self) -> nat {
        if !self.v6 && self.prefix <= 30 {
            (self.base as nat + self.span() - 2) as nat
        } else {
            (self.base as nat + self.span() - 1) as nat
        }
    }

    /// The last host address the allocator will consider: allocation scans
    /// at most 65536 addresses of an IPv6 subnet.
    pub open spec fn scan_last(self) -> nat {
        if self.v6 && self.host_last() >= self.host_first() + 65535 {
            self.host_first() + 65535
        } else {
            self.host_last()
        }
    }

    /// Whether the numeric address value lies in the subnet.
    pub open spec fn contains_bits(self, b: nat) -> bool {
        self.base as nat <= b < self.base as nat + self.span()
    }

    /// Whether an address lies in the subnet (same family, in range).
    pub open spec fn spec_contains(self, a: IpAddress) -> bool {
        a.spec_is_v6() == self.v6 && self.contains_bits(a.spec_bits() as nat)
    }

    /// The mask of host bits: one less than the subnet's size.
    fn host_mask(&self) -> (r: u128)
        requires
            self.wf(),
        ensures
            r as nat == self.span() - 1,
    {
        let width: u32 = if self.v6 {
            128
        } else {
            32
        };
        let shift: u32 = width - (self.prefix as u32);
        let mut mask: u128 = 0;
        let mut i: u32 = 0;
        proof {
            lemma_pow2_128();
            assert(pow2(0) == 1) by {
                lemma2_to64();
            }
        }
        while i < shift
            invariant
                shift <= 128,
                i <= shift,
                mask as nat == pow2(i as nat) - 1,
            decreases shift - i,
        {
            proof {
                let ip1 = (i + 1) as nat;
                lemma_pow2_unfold(ip1);
                if ip1 < 128 {
                    lemma_pow2_strictly_increases(ip1, 128);
                }
                lemma_pow2_128();
            }
            mask = mask * 2 + 1;
            i = i + 1;
        }
        mask
    }

    /// The subnet of the given family, address and prefix: the address's
    /// host bits are cleared to form the base.  Fails exactly when the
    /// prefix is too long for the family or an IPv4 address overflows.
    pub fn from_addr(v6: bool, addr: u128, prefix: u8) -> (r: Result<Subnet, crate::errors::Error>)
        ensures
            r is Ok <==> (prefix <= (if v6 { 128int } else { 32int })) && (v6 || addr
                < 0x1_0000_0000),
            r matches Ok(s) ==> s.wf() && s.v6 == v6 && s.prefix == prefix && s.base as nat
                == addr as nat - (addr as nat % s.span()) && s.base <= addr,
    {
        let width: u16 = if v6 {
            128
        } else {
            32
        };
        if (prefix as u16) > width {
            return Err(crate::errors::Error::Network(String::from_str(
                "prefix length too long for the address family")));
        }
        if !v6 && addr >= 0x1_0000_0000 {
            return Err(crate::errors::Error::Network(String::from_str(
                "IPv4 address out of range")));
        }
        let probe = Subnet { v6, base: 0, prefix };
        proof {
            lemma_pow2_128();
            lemma_pow2_pos((probe.width() - probe.prefix) as nat);
            lemma_small_mod(0, probe.span());
            lemma_pow2_adds((probe.width() - probe.prefix as nat) as nat, probe.prefix as nat);
            lemma_pow2_pos(probe.prefix as nat);
            assert(probe.span() <= pow2(probe.width())) by (nonlinear_arith)
                requires
                    pow2(probe.width()) == probe.span() * pow2(probe.prefix as nat),
                    pow2(probe.prefix as nat) >= 1,
                    probe.span() >= 0,
            {
            }
        }
        let base: u128 = if prefix == 0 {
            0
        } else {
            let mask = probe.host_mask();
            proof {
                lemma_pow2_128();
                lemma_pow2_strictly_increases((probe.width() - probe.prefix) as nat, 128);
            }
            let span: u128 = mask + 1;
            let rem = addr % span;
            proof {
                assert(rem <= addr) by (nonlinear_arith)
                    requires
                        span > 0,
                        rem == addr % span,
                {
                }
            }
            addr - rem
        };
        let s = Subnet { v6, base, prefix };
        proof {
            let m = s.span() as int;
            let a = addr as int;
            if prefix != 0 {
                lemma_pow2_pos((s.width() - s.prefix) as nat);
                lemma_fundamental_div_mod(a, m);
                lemma_mod_multiples_basic(a / m, m);
                assert(s.base as int == (a / m) * m);
                assert(s.base as nat % s.span() == 0);
                // the aligned base plus one span stays inside the space
                let cap = pow2(s.width()) as int;
                lemma_pow2_adds((s.width() - s.prefix as nat) as nat, s.prefix as nat);
                let tt = pow2(s.prefix as nat) as int;
                let q = a / m;
                assert(cap == m * tt);
                assert(a < cap);
                assert(q * m + m <= cap) by (nonlinear_arith)
                    requires
                        q * m <= a,
                        a < cap,
                        m >= 1,
                        cap == m * tt,
                {
                }
                assert(s.base as nat + s.span() <= pow2(s.width()));
            } else {
                assert(s.base == 0);
                assert(s.span() == pow2(s.width()));
                lemma_pow2_pos(s.width());
                lemma_small_mod(0, s.span());
            }
        }
        Ok(s)
    }

    /// Whether an address lies in the subnet.
    pub fn contains(&self, a: IpAddress) -> (r: bool)
        requires
            self.wf(),
        ensures
            r == self.spec_contains(a),
    {
        if a.is_v6() != self.v6 {
            return false;
        }
        let mask = self.host_mask();
        let b = a.bits();
        b >= self.base && b - self.base <= mask
    }

    /// For IPv4 prefixes up to /30 the subnet holds at least four
    /// addresses.
    proof fn lemma_v4_span(self)
        requires
            self.wf(),
            !self.v6,
            self.prefix <= 30,
        ensures
            self.span() >= 4,
    {
        if (self.width() - self.prefix) as nat > 2 {
            lemma_pow2_strictly_increases(2, (self.width() - self.prefix) as nat);
        }
        lemma2_to64();
    }

    /// The first usable host address.
    fn first_host(&self) -> (r: u128)
        requires
            self.wf(),
        ensures
            r as nat == self.host_first(),
    {
        if !self.v6 && self.prefix <= 30 {
            proof {
                self.lemma_v4_span();
                lemma_pow2_128();
            }
            self.base + 1
        } else {
            self.base
        }
    }

    /// The last host address the allocator will consider.
    fn last_scan_host(&self) -> (r: u128)
        requires
            self.wf(),
        ensures
            r as nat == self.scan_last(),
            self.host_first() <= r as nat,
    {
        proof {
            lemma_pow2_128();
            lemma_pow2_pos((self.width() - self.prefix) as nat);
        }
        let mask = self.host_mask();
        let last_all = self.base + mask;
        let last = if !self.v6 && self.prefix <= 30 {
            proof {
                self.lemma_v4_span();
            }
            last_all - 1
        } else {
            last_all
        };
        if self.v6 {
            let first = self.base;
            if last - first >= 65535 {
                first + 65535
            } else {
                last
            }
        } else {
            last
        }
    }
}

/// Removing one position of a duplicate-free sequence removes exactly its
/// value from the membership.
proof fn lemma_remove_membership(s: Seq<u128>, i: int)
    requires
        0 <= i < s.len(),
        s.no_duplicates(),
    ensures
        s.remove(i).no_duplicates(),
        forall|y: u128| #[trigger] s.remove(i).contains(y) <==> (s.contains(y) && y != s[i]),
{
    s.remove_ensures(i);
    let t = s.remove(i);
    assert forall|y: u128| #[trigger] t.contains(y) implies (s.contains(y) && y != s[i]) by {
        let j = choose|j: int| 0 <= j < t.len() && t[j] == y;
        if j < i {
            assert(s[j] == y);
        } else {
            assert(s[j + 1] == y);
        }
    }
    assert forall|y: u128| s.contains(y) && y != s[i] implies #[trigger] t.contains(y) by {
        let j = choose|j: int| 0 <= j < s.len() && s[j] == y;
        if j < i {
            assert(t[j] == y);
        } else {
            assert(j > i);
            assert(t[j - 1] == y);
        }
    }
    assert forall|p: int, q: int| 0 <= p < q < t.len() implies t[p] != t[q] by {
        let sp: int = if p < i {
            p
        } else {
            p + 1
        };
        let sq: int = if q < i {
            q
        } else {
            q + 1
        };
        assert(t[p] == s[sp]);
        assert(t[q] == s[sq]);
    }
}

/// Whether a pool still has an unreserved host within the range its
/// allocation scans.
pub open spec fn pool_has_free(p: IpPool) -> bool {
    exists|h: nat|
        p.subnet.host_first() <= h <= p.subnet.scan_last() && !(
        #[trigger] p.reserved().contains(h as u128))
}

/// An address pool for one subnet.  The gateway is reserved from the
/// start; allocation hands out the lowest unreserved host.
pub struct IpPool {
    /// The subnet the pool draws from.
    pub subnet: Subnet,
    /// The gateway address value; always reserved, never released.
    pub gateway: u128,
    /// The reserved address values, in order of reservation.
    pub allocated: Vec<u128>,
}

impl IpPool {
    /// The pool invariant: the subnet is well formed, the gateway lies in
    /// the subnet and is reserved, and the reservations are distinct
    /// members of the subnet.
    pub open spec fn wf(self) -> bool {
        &&& self.subnet.wf()
        &&& self.subnet.contains_bits(self.gateway as nat)
        &&& self.allocated@.no_duplicates()
        &&& self.allocated@.contains(self.gateway)
        &&& forall|i: int|
            0 <= i < self.allocated@.len() ==> self.subnet.contains_bits(
                (#[trigger] self.allocated@[i]) as nat)
    }

    /// The set of reserved address values.
    pub open spec fn reserved(self) -> Set<u128> {
        Set::new(|b: u128| self.allocated@.contains(b))
    }

    /// The address of the pool's family with the given value.
    pub open spec fn addr_of(self, b: u128) -> IpAddress {
        if self.subnet.v6 {
            IpAddress::V6(b)
        } else {
            IpAddress::V4(b as u32)
        }
    }

    /// A pool over `subnet` whose gateway is the first usable host.
    pub fn new(subnet: Subnet) -> (r: Result<IpPool, crate::errors::Error>)
        requires
            subnet.wf(),
        ensures
            r matches Ok(p) && p.wf() && p.subnet == subnet && p.gateway as nat
                == subnet.host_first() && p.allocated@ =~= seq![p.gateway],
    {
        proof {
            lemma_pow2_pos((subnet.width() - subnet.prefix) as nat);
            if !subnet.v6 && subnet.prefix <= 30 {
                subnet.lemma_v4_span();
            }
        }
        let gateway = subnet.first_host();
        let mut allocated: Vec<u128> = Vec::new();
        allocated.push(gateway);
        let p = IpPool { subnet, gateway, allocated };
        proof {
            assert(p.allocated@.contains(p.gateway)) by {
                assert(p.allocated@[0] == p.gateway);
            }
        }
        Ok(p)
    }

    /// A pool over `subnet` with an explicit gateway.  Fails exactly when
    /// the gateway does not lie in the subnet.
    pub fn with_gateway(subnet: Subnet, gateway: IpAddress) -> (r: Result<
        IpPool,
        crate::errors::Error,
    >)
        requires
            subnet.wf(),
        ensures
            r is Ok <==> subnet.spec_contains(gateway),
            r matches Ok(p) ==> p.wf() && p.subnet == subnet && p.gateway
                == gateway.spec_bits() && p.allocated@ =~= seq![p.gateway],
    {
        if !subnet.contains(gateway) {
            return Err(crate::errors::Error::Network(String::from_str(
                "gateway is not in the subnet")));
        }
        let gw = gateway.bits();
        let mut allocated: Vec<u128> = Vec::new();
        allocated.push(gw);
        let p = IpPool { subnet, gateway: gw, allocated };
        proof {
            assert(p.allocated@.contains(p.gateway)) by {
                assert(p.allocated@[0] == p.gateway);
            }
        }
        Ok(p)
    }

    /// Whether the given address value is reserved.
    fn is_reserved_bits(&self, b: u128) -> (r: bool)
        ensures
            r <==> self.allocated@.contains(b),
    {
        let mut i: usize = 0;
        while i < self.allocated.len()
            invariant
                i <= self.allocated@.len(),
                forall|j: int| 0 <= j < i ==> self.allocated@[j] != b,
            decreases self.allocated@.len() - i,
        {
            if self.allocated[i] == b {
                return true;
            }
            i = i + 1;
        }
        false
    }

    /// Allocate the lowest unreserved host address.  Succeeds exactly when
    /// an unreserved host exists within the scanned range, and never
    /// returns the gateway.
    pub fn allocate(&mut self) -> (r: Result<IpAddress, crate::errors::Error>)
        requires
            old(self).wf(),
        ensures
            final(self).wf(),
            final(self).subnet == old(self).subnet,
            final(self).gateway == old(self).gateway,
            r is Ok <==> pool_has_free(*old(self)),
            r matches Ok(ip) ==> {
                let b = ip.spec_bits() as nat;
                &&& ip == old(self).addr_of(b as u128)
                &&& old(self).subnet.host_first() <= b <= old(self).subnet.scan_last()
                &&& !old(self).reserved().contains(b as u128)
                &&& b != old(self).gateway as nat
                &&& forall|h: nat|
                    old(self).subnet.host_first() <= h < b ==> #[trigger] old(
                        self).reserved().contains(h as u128)
                &&& final(self).allocated@ == old(self).allocated@.push(b as u128)
                &&& final(self).reserved() =~= old(self).reserved().insert(b as u128)
            },
            r is Err ==> *final(self) == *old(self),
    {
        proof {
            lemma_pow2_pos((self.subnet.width() - self.subnet.prefix) as nat);
        }
        let first = self.subnet.first_host();
        let last = self.subnet.last_scan_host();
        let ghost orig = *self;
        let mut cur = first;
        loop
            invariant
                self.wf(),
                *self == orig,
                orig == *old(self),
                orig.wf(),
                first as nat == orig.subnet.host_first(),
                last as nat == orig.subnet.scan_last(),
                first <= cur <= last,
                forall|h: nat| first as nat <= h < cur as nat ==> #[trigger] orig.reserved().contains(h as u128),
            decreases last - cur,
        {
            if !self.is_reserved_bits(cur) {
                self.allocated.push(cur);
                let ip = if self.subnet.v6 {
                    IpAddress::V6(cur)
                } else {
                    IpAddress::V4(cur as u32)
                };
                proof {
                    let hh = cur as nat;
                    assert(!(old(self).reserved().contains(hh as u128)));
                    assert(orig.subnet.contains_bits(cur as nat)) by {
                        if !orig.subnet.v6 && orig.subnet.prefix <= 30 {
                            orig.subnet.lemma_v4_span();
                        }
                    }
                    assert(self.allocated@.contains(self.gateway)) by {
                        let k = choose|k: int|
                            0 <= k < orig.allocated@.len() && orig.allocated@[k]
                                == orig.gateway;
                        assert(self.allocated@[k] == self.gateway);
                    }
                    assert(self.allocated@.no_duplicates()) by {
                        assert forall|p: int, q: int|
                            0 <= p < q < self.allocated@.len() implies self.allocated@[p]
                            != self.allocated@[q] by {
                            if q == self.allocated@.len() - 1 {
                                assert(self.allocated@[q] == cur);
                                assert(orig.allocated@[p] == self.allocated@[p]);
                            }
                        }
                    }
                    assert(cur != orig.gateway) by {
                        assert(orig.allocated@.contains(orig.gateway));
                    }
                    assert(self.reserved() =~= orig.reserved().insert(cur)) by {
                        assert forall|y: u128| self.allocated@.contains(y) implies
                            (orig.allocated@.contains(y) || y == cur) by {
                            let j = choose|j: int|
                                0 <= j < self.allocated@.len() && self.allocated@[j] == y;
                            if j < orig.allocated@.len() {
                                assert(orig.allocated@[j] == y);
                            }
                        }
                        assert forall|y: u128| orig.allocated@.contains(y) implies
                            self.allocated@.contains(y) by {
                            let j = choose|j: int|
                                0 <= j < orig.allocated@.len() && orig.allocated@[j] == y;
                            assert(self.allocated@[j] == y);
                        }
                        assert(self.allocated@.contains(cur)) by {
                            assert(self.allocated@[self.allocated@.len() - 1] == cur);
                        }
                    }
                    assert(ip == orig.addr_of(cur));
                    if orig.subnet.v6 {
                        assert(ip.spec_bits() == cur);
                    } else {
                        lemma_pow2_128();
                        assert(cur < 0x1_0000_0000);
                        assert(ip.spec_bits() == cur);
                    }
                }
                return Ok(ip);
            }
            if cur == last {
                proof {
                    assert forall|h: nat|
                        orig.subnet.host_first() <= h <= orig.subnet.scan_last()
                        implies #[trigger] orig.reserved().contains(h as u128) by {
                        if h < last as nat {
                            assert(orig.reserved().contains(h as u128));
                        } else {
                            assert(h == last as nat);
                            assert(orig.allocated@.contains(last));
                        }
                    }
                }
                return Err(crate::errors::Error::Network(String::from_str(
                    "no available addresses in the subnet")));
            }
            cur = cur + 1;
        }
    }

    /// Reserve a specific address.  Fails exactly when the address lies
    /// outside the subnet or is already reserved.
    pub fn allocate_specific(&mut self, addr: IpAddress) -> (r: Result<
        (),
        crate::errors::Error,
    >)
        requires
            old(self).wf(),
        ensures
            final(self).wf(),
            final(self).subnet == old(self).subnet,
            final(self).gateway == old(self).gateway,
            r is Ok <==> old(self).subnet.spec_contains(addr) && !old(self).reserved().contains(
                addr.spec_bits()),
            r is Ok ==> final(self).allocated@ == old(self).allocated@.push(addr.spec_bits())
                && final(self).reserved() =~= old(self).reserved().insert(addr.spec_bits()),
            r is Err ==> *final(self) == *old(self),
    {
        if !self.subnet.contains(addr) {
            return Err(crate::errors::Error::Network(String::from_str(
                "address is not in the subnet")));
        }
        let b = addr.bits();
        if self.is_reserved_bits(b) {
            return Err(crate::errors::Error::Network(String::from_str(
                "address is already allocated")));
        }
        let ghost orig = *self;
        self.allocated.push(b);
        proof {
            assert(self.allocated@.contains(self.gateway)) by {
                let k = choose|k: int|
                    0 <= k < orig.allocated@.len() && orig.allocated@[k] == orig.gateway;
                assert(self.allocated@[k] == self.gateway);
            }
            assert(self.allocated@.no_duplicates()) by {
                assert forall|p: int, q: int|
                    0 <= p < q < self.allocated@.len() implies self.allocated@[p]
                    != self.allocated@[q] by {
                    if q == self.allocated@.len() - 1 {
                        assert(self.allocated@[q] == b);
                        assert(orig.allocated@[p] == self.allocated@[p]);
                    }
                }
            }
            assert(self.reserved() =~= orig.reserved().insert(b)) by {
                assert forall|y: u128| self.allocated@.contains(y) implies
                    (orig.allocated@.contains(y) || y == b) by {
                    let j = choose|j: int|
                        0 <= j < self.allocated@.len() && self.allocated@[j] == y;
                    if j < orig.allocated@.len() {
                        assert(orig.allocated@[j] == y);
                    }
                }
                assert forall|y: u128| orig.allocated@.contains(y) implies
                    self.allocated@.contains(y) by {
                    let j = choose|j: int|
                        0 <= j < orig.allocated@.len() && orig.allocated@[j] == y;
                    assert(self.allocated@[j] == y);
                }
                assert(self.allocated@.contains(b)) by {
                    assert(self.allocated@[self.allocated@.len() - 1] == b);
                }
            }
        }
        Ok(())
    }

    /// Release a reserved address.  Releasing the gateway, an address of
    /// the other family or an unreserved address changes nothing;
    /// otherwise exactly that address leaves the reserved set.
    pub fn release(&mut self, addr: &IpAddress)
        requires
            old(self).wf(),
        ensures
            final(self).wf(),
            final(self).subnet == old(self).subnet,
            final(self).gateway == old(self).gateway,
            final(self).reserved() =~= if addr.spec_is_v6() == old(self).subnet.v6
                && addr.spec_bits() != old(self).gateway {
                old(self).reserved().remove(addr.spec_bits())
            } else {
                old(self).reserved()
            },
    {
        if addr.is_v6() != self.subnet.v6 {
            return;
        }
        let b = addr.bits();
        if b == self.gateway {
            return;
        }
        let ghost orig = *self;
        let mut i: usize = 0;
        while i < self.allocated.len()
            invariant
                *self == orig,
                orig == *old(self),
                orig.wf(),
                b == addr.spec_bits(),
                b != orig.gateway,
                addr.spec_is_v6() == orig.subnet.v6,
                i <= self.allocated@.len(),
                forall|j: int| 0 <= j < i ==> self.allocated@[j] != b,
            decreases self.allocated@.len() - i,
        {
            if self.allocated[i] == b {
                proof {
                    lemma_remove_membership(orig.allocated@, i as int);
                }
                self.allocated.remove(i);
                proof {
                    assert(self.allocated@ == orig.allocated@.remove(i as int));
                    assert(orig.allocated@.contains(orig.gateway));
                    assert(self.allocated@.contains(self.gateway));
                    assert forall|k: int| 0 <= k < self.allocated@.len() implies
                        orig.subnet.contains_bits((#[trigger] self.allocated@[k]) as nat) by {
                        assert(self.allocated@.contains(self.allocated@[k]));
                        assert(orig.allocated@.contains(self.allocated@[k]));
                        let j = choose|j: int|
                            0 <= j < orig.allocated@.len() && orig.allocated@[j]
                                == self.allocated@[k];
                    }
                    assert(self.reserved() =~= orig.reserved().remove(b));
                }
                return;
            }
            i = i + 1;
        }
        proof {
            assert(self.reserved() =~= orig.reserved().remove(b)) by {
                assert(!orig.allocated@.contains(b));
            }
        }
    }

    /// The pool's subnet.
    pub fn subnet(&self) -> (r: Subnet)
        ensures
            r == self.subnet,
    {
        self.subnet
    }

    /// The pool's gateway address.
    pub fn gateway(&self) -> (r: IpAddress)
        ensures
            r == self.addr_of(self.gateway),
    {
        if self.subnet.v6 {
            IpAddress::V6(self.gateway)
        } else {
            IpAddress::V4(self.gateway as u32)
        }
    }

    /// Whether an address lies in the subnet and is not reserved.
    pub fn is_available(&self, addr: &IpAddress) -> (r: bool)
        requires
            self.wf(),
        ensures
            r <==> self.subnet.spec_contains(*addr) && !self.reserved().contains(
                addr.spec_bits()),
    {
        self.subnet.contains(*addr) && !self.is_reserved_bits(addr.bits())
    }

    /// The number of reserved addresses, the gateway included.
    pub fn allocated_count(&self) -> (r: usize)
        ensures
            r == self.allocated@.len(),
    {
        self.allocated.len()
    }
}

/// The IP allocator: one pool per named network.
pub struct IpAllocator {
    /// The pools, each under its network name.
    pub pools: Vec<(String, IpPool)>,
}

impl IpAllocator {
    /// All pools satisfy their invariant.
    pub open spec fn wf(self) -> bool {
        forall|i: int| 0 <= i < self.pools@.len() ==> (#[trigger] self.pools@[i]).1.wf()
    }

    /// The index of the pool under the given name.
    pub open spec fn spec_find(self, name: Seq<char>) -> Option<int> {
        if exists|i: int| 0 <= i < self.pools@.len() && (#[trigger] self.pools@[i]).0@ == name {
            Some(choose|i: int|
                0 <= i < self.pools@.len() && (#[trigger] self.pools@[i]).0@ == name)
        } else {
            None
        }
    }

    /// An allocator with no pools.
    pub fn new() -> (r: IpAllocator)
        ensures
            r.wf(),
            r.pools@.len() == 0,
    {
        IpAllocator { pools: Vec::new() }
    }

    /// The index of the first pool under `name`, if any.
    fn find(&self, name: &str) -> (r: Option<usize>)
        ensures
            r matches Some(i) ==> i < self.pools@.len() && self.pools@[i as int].0@ == name@
                && (forall|j: int| 0 <= j < i ==> (#[trigger] self.pools@[j]).0@ != name@),
            r is None ==> forall|i: int|
                0 <= i < self.pools@.len() ==> (#[trigger] self.pools@[i]).0@ != name@,
    {
        let mut i: usize = 0;
        while i < self.pools.len()
            invariant
                i <= self.pools@.len(),
                forall|j: int| 0 <= j < i ==> (#[trigger] self.pools@[j]).0@ != name@,
            decreases self.pools@.len() - i,
        {
            if crate::text::str_eq(self.pools[i].0.as_str(), name) {
                return Some(i);
            }
            i = i + 1;
        }
        None
    }

    /// Add (or replace) the pool under `name`.
    pub fn add_pool(&mut self, name: String, pool: IpPool)
        requires
            old(self).wf(),
            pool.wf(),
        ensures
            final(self).wf(),
            final(self).pools@.len() <= old(self).pools@.len() + 1,
            exists|i: int|
                0 <= i < final(self).pools@.len() && (#[trigger] final(self).pools@[i]).0@
                    == name@ && final(self).pools@[i].1 == pool,
    {
        let found = self.find(name.as_str());
        match found {
            Some(i) => {
                let ghost orig = self.pools@;
                self.pools.set(i, (name, pool));
                proof {
                    assert((final(self).pools@[i as int]).0@ == name@);
                }
            }
            None => {
                self.pools.push((name, pool));
                proof {
                    let last = self.pools@.len() - 1;
                    assert((self.pools@[last]).0@ == name@);
                }
            }
        }
    }

    /// Allocate the lowest unreserved host from the named pool.  Fails
    /// when the network is unknown or its pool is exhausted.
    pub fn allocate(&mut self, network: &str) -> (r: Result<IpAddress, crate::errors::Error>)
        requires
            old(self).wf(),
        ensures
            final(self).wf(),
            final(self).pools@.len() == old(self).pools@.len(),
            forall|i: int|
                0 <= i < final(self).pools@.len() ==> (#[trigger] final(self).pools@[i]).0
                    == old(self).pools@[i].0,
            forall|i: int|
                0 <= i < old(self).pools@.len() && (#[trigger] old(self).pools@[i]).0@
                    != network@ ==> final(self).pools@[i].1 == old(self).pools@[i].1,
            (forall|i: int|
                0 <= i < old(self).pools@.len() ==> (#[trigger] old(self).pools@[i]).0@
                    != network@) ==> r is Err && final(self).pools@ == old(self).pools@,
            r matches Ok(ip) ==> exists|i: int|
                0 <= i < old(self).pools@.len() && (#[trigger] old(self).pools@[i]).0@
                    == network@ && (forall|j: int|
                    0 <= j < i ==> (#[trigger] old(self).pools@[j]).0@ != network@)
                    && !old(self).pools@[i].1.reserved().contains(ip.spec_bits()) && final(
                    self).pools@[i].1.reserved() =~= old(self).pools@[i].1.reserved().insert(
                    ip.spec_bits()) && ip.spec_bits() != old(self).pools@[i].1.gateway,
            // success is owed exactly when the named pool exists and
            // still has a free host
            (exists|i: int|
                0 <= i < old(self).pools@.len() && (#[trigger] old(self).pools@[i]).0@
                    == network@) ==> exists|i: int|
                0 <= i < old(self).pools@.len() && (#[trigger] old(self).pools@[i]).0@
                    == network@ && (forall|j: int|
                    0 <= j < i ==> (#[trigger] old(self).pools@[j]).0@ != network@) && (r
                    is Ok <==> pool_has_free(old(self).pools@[i].1)),
            r is Err ==> final(self).pools@ == old(self).pools@,
    {
        let found = self.find(network);
        match found {
            Some(i) => {
                let ghost orig = self.pools@;
                let mut entry = self.pools.remove(i);
                let res = entry.1.allocate();
                self.pools.insert(i, entry);
                proof {
                    assert forall|j: int|
                        0 <= j < self.pools@.len() && j != i implies self.pools@[j]
                        == orig[j] by {
                        if j < i {
                            assert(orig.remove(i as int)[j] == orig[j]);
                        } else {
                            assert(orig.remove(i as int)[j - 1] == orig[j]);
                        }
                    }
                    assert(self.pools@[i as int].0 == orig[i as int].0);
                    if res is Err {
                        assert(self.pools@ =~= orig);
                    }
                }
                res
            }
            None => Err(crate::errors::Error::Network(String::from_str("network not found"))),
        }
    }

    /// Reserve a specific address in the named pool.  Unknown networks
    /// fail; the pool decides otherwise.
    pub fn allocate_specific(&mut self, network: &str, addr: IpAddress) -> (r: Result<
        (),
        crate::errors::Error,
    >)
        requires
            old(self).wf(),
        ensures
            final(self).wf(),
            final(self).pools@.len() == old(self).pools@.len(),
            forall|i: int|
                0 <= i < final(self).pools@.len() ==> (#[trigger] final(self).pools@[i]).0
                    == old(self).pools@[i].0,
            forall|i: int|
                0 <= i < old(self).pools@.len() && (#[trigger] old(self).pools@[i]).0@
                    != network@ ==> final(self).pools@[i].1 == old(self).pools@[i].1,
            r is Err ==> final(self).pools@ == old(self).pools@,
            // in the first pool of that name, the reservation succeeds
            // exactly for an unreserved member address, and then exactly
            // that address is added
            (exists|i: int|
                0 <= i < old(self).pools@.len() && (#[trigger] old(self).pools@[i]).0@
                    == network@) ==> exists|i: int|
                0 <= i < old(self).pools@.len() && (#[trigger] old(self).pools@[i]).0@
                    == network@ && (forall|j: int|
                    0 <= j < i ==> (#[trigger] old(self).pools@[j]).0@ != network@) && (r
                    is Ok <==> old(self).pools@[i].1.subnet.spec_contains(addr) && !old(
                    self).pools@[i].1.reserved().contains(addr.spec_bits())) && (r is Ok
                    ==> final(self).pools@[i].1.reserved() =~= old(
                    self).pools@[i].1.reserved().insert(addr.spec_bits())),
            (forall|i: int|
                0 <= i < old(self).pools@.len() ==> (#[trigger] old(self).pools@[i]).0@
                    != network@) ==> r is Err && final(self).pools@ == old(self).pools@,
    {
        let found = self.find(network);
        match found {
            Some(i) => {
                let ghost orig = self.pools@;
                let mut entry = self.pools.remove(i);
                let res = entry.1.allocate_specific(addr);
                self.pools.insert(i, entry);
                proof {
                    assert forall|j: int|
                        0 <= j < self.pools@.len() && j != i implies self.pools@[j]
                        == orig[j] by {
                        if j < i {
                            assert(orig.remove(i as int)[j] == orig[j]);
                        } else {
                            assert(orig.remove(i as int)[j - 1] == orig[j]);
                        }
                    }
                    assert(self.pools@[i as int].0 == orig[i as int].0);
                    if res is Err {
                        assert(self.pools@ =~= orig);
                    }
                }
                res
            }
            None => Err(crate::errors::Error::Network(String::from_str("network not found"))),
        }
    }

    /// Release an address back to the named pool; unknown networks are
    /// ignored, and the pool refuses to free its gateway.
    pub fn release(&mut self, network: &str, addr: &IpAddress)
        requires
            old(self).wf(),
        ensures
            final(self).wf(),
            final(self).pools@.len() == old(self).pools@.len(),
            forall|i: int|
                0 <= i < final(self).pools@.len() ==> (#[trigger] final(self).pools@[i]).0
                    == old(self).pools@[i].0,
            forall|i: int|
                0 <= i < old(self).pools@.len() && (#[trigger] old(self).pools@[i]).0@
                    != network@ ==> final(self).pools@[i].1 == old(self).pools@[i].1,
            (exists|i: int|
                0 <= i < old(self).pools@.len() && (#[trigger] old(self).pools@[i]).0@
                    == network@) ==> exists|i: int|
                0 <= i < old(self).pools@.len() && (#[trigger] old(self).pools@[i]).0@
                    == network@ && (forall|j: int|
                    0 <= j < i ==> (#[trigger] old(self).pools@[j]).0@ != network@) && final(
                    self).pools@[i].1.reserved() =~= (if addr.spec_is_v6() == old(
                    self).pools@[i].1.subnet.v6 && addr.spec_bits() != old(
                    self).pools@[i].1.gateway {
                    old(self).pools@[i].1.reserved().remove(addr.spec_bits())
                } else {
                    old(self).pools@[i].1.reserved()
                }),
    {
        let found = self.find(network);
        match found {
            Some(i) => {
                let ghost orig = self.pools@;
                let mut entry = self.pools.remove(i);
                entry.1.release(addr);
                self.pools.insert(i, entry);
                proof {
                    assert forall|j: int|
                        0 <= j < self.pools@.len() && j != i implies self.pools@[j]
                        == orig[j] by {
                        if j < i {
                            assert(orig.remove(i as int)[j] == orig[j]);
                        } else {
                            assert(orig.remove(i as int)[j - 1] == orig[j]);
                        }
                    }
                    assert(self.pools@[i as int].0 == orig[i as int].0);
                }
            }
            None => {}
        }
    }
}

/// Released then immediately re-allocated: the freshly allocated address
/// `x` comes back from the next allocation when nothing else intervened.
/// (If some other release had freed a lower host in between, that lower
/// host would be handed out instead.)
pub proof fn lemma_release_then_allocate_returns_same(p0: IpPool, p1: IpPool, x: IpAddress)
    requires
        p0.wf(),
        // x was just allocated from p0, giving p1
        x == p0.addr_of(x.spec_bits()),
        p0.subnet.host_first() <= x.spec_bits() as nat <= p0.subnet.scan_last(),
        !p0.reserved().contains(x.spec_bits()),
        x.spec_bits() != p0.gateway,
        forall|h: nat|
            p0.subnet.host_first() <= h < x.spec_bits() as nat ==> #[trigger] p0.reserved().contains(h as u128),
        p1.subnet == p0.subnet,
        p1.gateway == p0.gateway,
        p1.reserved() == p0.reserved().insert(x.spec_bits()),
        p1.wf(),
    ensures
        // after releasing x from p1, the next allocation must return x:
        // x is again the lowest unreserved host
        ({
            let after = p1.reserved().remove(x.spec_bits());
            &&& !after.contains(x.spec_bits())
            &&& forall|h: nat|
                p1.subnet.host_first() <= h < x.spec_bits() as nat ==> #[trigger] after.contains(h as u128)
        }),
{
    let after = p1.reserved().remove(x.spec_bits());
    assert forall|h: nat|
        p1.subnet.host_first() <= h < x.spec_bits() as nat implies #[trigger] after.contains(h as u128) by {
        assert(p0.reserved().contains(h as u128));
    }
}

} // verus!
