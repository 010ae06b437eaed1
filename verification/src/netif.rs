//! Network interface naming: name validation, epair pairs and VNET
//! setup records.
//!
//! Interface names are bounded by the kernel's buffer; the check here
//! rejects an over-long or nul-bearing name before any request reaches
//! the kernel.  An epair's two sides differ only in their trailing
//! letter, and a VNET setup records the epair and bridge a jail's
//! network is built from.

use vstd::prelude::*;
use vstd::string::*;
use crate::errors::Error;
use crate::ip::IpAddress;

verus! {

/// The kernel's interface-name buffer size, terminator included.
pub const IF_NAMESIZE: usize = 16;

/// Whether a name fits the kernel's interface-name buffer: at most
/// fifteen bytes of UTF-8, none of them nul.
pub open spec fn spec_ifname_ok(s: &str) -> bool {
    &&& s.spec_bytes().len() < IF_NAMESIZE
    &&& forall|i: int| 0 <= i < s.spec_bytes().len() ==> s.spec_bytes()[i] != 0
}

/// Check an interface name before any request is issued for it: a name
/// longer than the buffer allows, or one holding a nul byte, is rejected
/// here and never reaches the kernel.
pub fn check_ifname(s: &str) -> (r: Result<(), Error>)
    ensures
        r is Ok <==> spec_ifname_ok(s),
{
    let bytes = s.as_bytes();
    if bytes.len() >= IF_NAMESIZE {
        return Err(Error::Network(String::from_str("interface name too long")));
    }
    let mut i: usize = 0;
    while i < bytes.len()
        invariant
            bytes@ == s.spec_bytes(),
            i <= bytes@.len(),
            forall|j: int| 0 <= j < i ==> bytes@[j] != 0,
        decreases bytes@.len() - i,
    {
        if bytes[i] == 0 {
            return Err(Error::Network(String::from_str(
                "interface name holds a nul byte")));
        }
        i = i + 1;
    }
    Ok(())
}

/// The jail-side name derived from a host-side epair name: the trailing
/// `a` becomes `b`.
pub open spec fn spec_sibling(host: Seq<char>) -> Seq<char> {
    host.drop_last().push('b')
}

/// An epair: the host-side interface and the jail-side interface.
#[derive(Clone, Debug)]
pub struct EpairInterface {
    /// Host-side interface name.
    pub host_side: String,
    /// Jail-side interface name.
    pub jail_side: String,
}

impl EpairInterface {
    /// The pair derived from a freshly created host-side name
    /// (`epairNa`): the sibling swaps the trailing `a` for `b`.  Fails
    /// exactly when the name does not end in `a`.
    pub fn from_host_side(host: &str) -> (r: Result<EpairInterface, Error>)
        ensures
            r is Ok <==> host@.len() > 0 && host@.last() == 'a',
            r matches Ok(e) ==> e.host_side@ == host@ && e.jail_side@ == spec_sibling(host@),
    {
        let n = host.unicode_len();
        if n == 0 || host.get_char(n - 1) != 'a' {
            return Err(Error::Network(String::from_str("unexpected epair name format")));
        }
        let stem = host.substring_char(0, n - 1);
        let mut jail = stem.to_owned();
        jail.append("b");
        proof {
            reveal_strlit("b");
            assert(host@.subrange(0, n - 1) =~= host@.drop_last());
            assert(jail@ =~= spec_sibling(host@));
        }
        Ok(EpairInterface { host_side: host.to_owned(), jail_side: jail })
    }

    /// The host-side interface name.
    pub fn host_side(&self) -> (r: &str)
        ensures
            r@ == self.host_side@,
    {
        self.host_side.as_str()
    }

    /// The jail-side interface name.
    pub fn jail_side(&self) -> (r: &str)
        ensures
            r@ == self.jail_side@,
    {
        self.jail_side.as_str()
    }

    /// A jail name reduced to characters allowed in an interface name:
    /// letters, digits and underscores, at most ten of them; an empty
    /// result falls back to `jail`.
    pub fn sanitize_name(name: &str) -> (r: String)
        ensures
            r@ == (if spec_sanitized(name@).len() == 0 {
                "jail"@
            } else {
                spec_sanitized(name@)
            }),
    {
        let n = name.unicode_len();
        let mut out = String::new();
        let mut count: usize = 0;
        let mut i: usize = 0;
        proof {
            assert(name@.take(0) =~= Seq::<char>::empty());
        }
        while i < n
            invariant
                n == name@.len(),
                i <= n,
                out@ == spec_sanitized(name@.take(i as int)),
                count == out@.len(),
                count <= 10,
            decreases n - i,
        {
            let c = name.get_char(i);
            let keep = (('a' <= c && c <= 'z') || ('A' <= c && c <= 'Z') || ('0' <= c && c
                <= '9') || c == '_') && count < 10;
            proof {
                assert(name@.take(i + 1).drop_last() =~= name@.take(i as int));
                assert(name@.take(i + 1).last() == name@[i as int]);
            }
            if keep {
                let piece = name.substring_char(i, i + 1);
                out.append(piece);
                count = count + 1;
                proof {
                    assert(piece@ =~= seq![name@[i as int]]);
                    assert(out@ =~= spec_sanitized(name@.take(i + 1)));
                }
            }
            i = i + 1;
        }
        proof {
            assert(name@.take(n as int) =~= name@);
        }
        if count == 0 {
            String::from_str("jail")
        } else {
            out
        }
    }

    /// The renamed pair for a jail: `e<k>a_<name>` on the host side and
    /// `e<k>b_<name>` on the jail side, with the jail name sanitized.
    pub fn renamed_pair(counter: u64, jail_name: &str) -> (r: (String, String))
        ensures
            r.0@ == "e"@ + crate::text::dec_digits(counter as nat) + "a_"@ + (
            if spec_sanitized(jail_name@).len() == 0 {
                "jail"@
            } else {
                spec_sanitized(jail_name@)
            }),
            r.1@ == "e"@ + crate::text::dec_digits(counter as nat) + "b_"@ + (
            if spec_sanitized(jail_name@).len() == 0 {
                "jail"@
            } else {
                spec_sanitized(jail_name@)
            }),
    {
        let base = Self::sanitize_name(jail_name);
        let mut host = String::from_str("e");
        crate::text::push_dec(&mut host, counter);
        host.append("a_");
        host.append(base.as_str());
        let mut jail = String::from_str("e");
        crate::text::push_dec(&mut jail, counter);
        jail.append("b_");
        jail.append(base.as_str());
        proof {
            reveal_strlit("e");
            reveal_strlit("a_");
            reveal_strlit("b_");
            assert(host@ =~= "e"@ + crate::text::dec_digits(counter as nat) + "a_"@ + base@);
            assert(jail@ =~= "e"@ + crate::text::dec_digits(counter as nat) + "b_"@ + base@);
        }
        (host, jail)
    }
}

/// The first ten filename-safe characters of a name: letters, digits and
/// underscores kept in order.
pub open spec fn spec_sanitized(s: Seq<char>) -> Seq<char>
    decreases s.len(),
{
    if s.len() == 0 {
        Seq::empty()
    } else {
        let rest = spec_sanitized(s.drop_last());
        let c = s.last();
        if (('a' <= c <= 'z') || ('A' <= c <= 'Z') || ('0' <= c <= '9') || c == '_')
            && rest.len() < 10 {
            rest.push(c)
        } else {
            rest
        }
    }
}

/// Split an address that may carry a prefix length: `A.B.C.D` gives the
/// address alone, `A.B.C.D/n` the address and the prefix.
/// Whether an address text splits cleanly: no separator at all, or
/// exactly one with a decimal prefix of at most 255 after it.
pub open spec fn spec_addr_prefix_ok(s: Seq<char>) -> bool {
    let i = crate::text::first_sep(s, '/');
    i >= s.len() || (crate::text::spec_split(s, '/').len() == 2 && s.skip(i as int + 1).len()
        > 0 && crate::text::all_digits(s.skip(i as int + 1)) && crate::text::dec_value(
        s.skip(i as int + 1)) <= 255)
}

pub fn split_addr_prefix(s: &str) -> (r: Result<(String, Option<u8>), Error>)
    ensures
        r is Ok <==> spec_addr_prefix_ok(s@),
        r matches Ok(p) ==> {
            let i = crate::text::first_sep(s@, '/');
            if i >= s@.len() {
                p.0@ == s@ && p.1 is None
            } else {
                p.0@ == s@.take(i as int) && (p.1 matches Some(v) && v
                    == crate::text::dec_value(s@.skip(i as int + 1)))
            }
        },
        r is Err ==> {
            let i = crate::text::first_sep(s@, '/');
            i < s@.len() && !(crate::text::spec_split(s@, '/').len() == 2 && s@.skip(
                i as int + 1).len() > 0 && crate::text::all_digits(s@.skip(i as int + 1))
                && crate::text::dec_value(s@.skip(i as int + 1)) <= 255)
        },
{
    let parts = crate::text::split_char(s, '/');
    proof {
        let sp = crate::text::spec_split(s@, '/');
        assert forall|i: int| 0 <= i < parts@.len() implies (#[trigger] parts@[i])@
            == sp[i] by {
            assert(parts@.map_values(|t: String| t@)[i] == sp[i]);
        }
        crate::text::lemma_first_sep(s@, '/');
    }
    if parts.len() == 1 {
        proof {
            crate::text::lemma_split_len(s@, '/');
        }
        proof {
            assert(parts@[0]@ == s@);
        }
        return Ok((parts[0].clone(), None));
    }
    if parts.len() != 2 {
        proof {
            crate::text::lemma_split_len(s@, '/');
        }
        return Err(Error::Network(String::from_str("malformed address/prefix")));
    }
    let prefix = match crate::text::parse_u8(parts[1].as_str()) {
        Some(v) => v,
        None => {
            proof {
                lemma_split_two(s@, '/');
            }
            return Err(Error::Network(String::from_str("invalid prefix length")));
        }
    };
    proof {
        let i = crate::text::first_sep(s@, '/');
        assert(i < s@.len());
        lemma_split_two(s@, '/');
    }
    Ok((parts[0].clone(), Some(prefix)))
}

/// When a split on `sep` yields exactly two fields, they are the text
/// before and after the first separator.
proof fn lemma_split_two(s: Seq<char>, sep: char)
    requires
        crate::text::spec_split(s, sep).len() == 2,
    ensures
        ({
            let i = crate::text::first_sep(s, sep);
            &&& i < s.len()
            &&& crate::text::spec_split(s, sep)[0] == s.take(i as int)
            &&& crate::text::spec_split(s, sep)[1] == s.skip(i as int + 1)
        }),
{
    crate::text::lemma_first_sep(s, sep);
    let i = crate::text::first_sep(s, sep);
    assert(i < s.len());
    let rest = s.skip(i as int + 1);
    crate::text::lemma_first_sep(rest, sep);
    let j = crate::text::first_sep(rest, sep);
    if j < rest.len() {
        crate::text::lemma_split_len(rest, sep);
        assert(crate::text::spec_split(s, sep).len() >= 3);
    }
}

/// A jail's VNET configuration: the bridge to join, the address (with
/// optional prefix), the default gateway, and optional MAC address and
/// untagged VLAN.
#[derive(Clone, Debug)]
pub struct VnetConfig {
    /// Bridge to connect the epair to.
    pub bridge: String,
    /// Address, possibly with a prefix length, as text.
    pub ip: String,
    /// Default gateway inside the jail.
    pub gateway: IpAddress,
    /// Optional fixed MAC address for the jail side.
    pub mac_address: Option<String>,
    /// Optional untagged VLAN id for the host side.
    pub vlan_id: Option<u16>,
}

impl VnetConfig {
    /// A configuration for the given bridge, address and gateway.
    pub fn new(bridge: String, ip: String, gateway: IpAddress) -> (r: VnetConfig)
        ensures
            r.bridge == bridge,
            r.ip == ip,
            r.gateway == gateway,
            r.mac_address is None,
            r.vlan_id is None,
    {
        VnetConfig { bridge, ip, gateway, mac_address: None, vlan_id: None }
    }

    /// The same configuration with a fixed MAC address.
    pub fn with_mac_address(self, mac: String) -> (r: VnetConfig)
        ensures
            r.mac_address == Some(mac),
            r.bridge == self.bridge,
            r.ip == self.ip,
            r.gateway == self.gateway,
            r.vlan_id == self.vlan_id,
    {
        VnetConfig { mac_address: Some(mac), ..self }
    }

    /// The same configuration with an untagged VLAN id.
    pub fn with_vlan_id(self, vlan_id: u16) -> (r: VnetConfig)
        ensures
            r.vlan_id == Some(vlan_id),
            r.bridge == self.bridge,
            r.ip == self.ip,
            r.gateway == self.gateway,
            r.mac_address == self.mac_address,
    {
        VnetConfig { vlan_id: Some(vlan_id), ..self }
    }
}

/// The record of a jail's VNET wiring: the epair and the bridge it was
/// attached to, with the configuration it was built from.
#[derive(Clone, Debug)]
pub struct VnetSetup {
    /// The epair created for the jail.
    pub epair: EpairInterface,
    /// The bridge the host side joined.
    pub bridge_name: String,
    /// The configuration the setup was built from.
    pub config: VnetConfig,
}

impl VnetSetup {
    /// The interface that will carry the jail's traffic inside the jail.
    pub fn jail_interface(&self) -> (r: &str)
        ensures
            r@ == self.epair.jail_side@,
    {
        self.epair.jail_side.as_str()
    }
}

} // verus!
