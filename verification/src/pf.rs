//! PF port forwarding: the redirection rule table and its canonical rule
//! text.
//!
//! The manager owns the ordered list of active forwards and renders the
//! complete anchor body from it; every mutation yields the full new body,
//! which the caller loads into the anchor atomically.  The text is a pure
//! function of the forwards, so equal tables give byte-identical rules.

use vstd::prelude::*;
use vstd::string::*;
use crate::ip::IpAddress;

verus! {

/// One port forwarding rule.
#[derive(Clone, Debug)]
pub struct PortForward {
    /// External port to listen on.
    pub external_port: u16,
    /// Internal (jail) port to forward to.
    pub internal_port: u16,
    /// Protocol, "tcp" or "udp".
    pub protocol: String,
    /// The jail's IP address.
    pub jail_ip: IpAddress,
    /// Bind to one external address, or all when absent.
    pub bind_ip: Option<IpAddress>,
    /// The owning jail's name.
    pub jail_name: String,
}

/// The fields of a forward as plain values; the rule text depends on
/// nothing else.
pub open spec fn forward_model(f: PortForward) -> (
    u16,
    u16,
    Seq<char>,
    IpAddress,
    Option<IpAddress>,
    Seq<char>,
) {
    (f.external_port, f.internal_port, f.protocol@, f.jail_ip, f.bind_ip, f.jail_name@)
}

/// The canonical rule line of one forward.
pub open spec fn spec_rule(f: PortForward) -> Seq<char> {
    "rdr "@ + (match f.bind_ip {
        Some(ip) => "on "@ + ip.spec_text() + " "@,
        None => Seq::<char>::empty(),
    }) + "proto "@ + f.protocol@ + " from any to any port "@ + crate::text::dec_digits(
        f.external_port as nat) + " -> "@ + f.jail_ip.spec_text() + " port "@
        + crate::text::dec_digits(f.internal_port as nat) + " # jail:"@ + f.jail_name@
}

/// The canonical anchor body: the rules of all forwards in table order,
/// joined by newlines.
pub open spec fn spec_rules_text(fs: Seq<PortForward>) -> Seq<char> {
    crate::text::spec_join(fs.map_values(|f: PortForward| spec_rule(f)), seq!['\n'])
}

impl PortForward {
    /// A forward of `protocol` traffic from `external_port` to
    /// `internal_port` of the named jail at `jail_ip`, bound to every
    /// interface.
    pub fn new(
        external_port: u16,
        internal_port: u16,
        protocol: &str,
        jail_ip: IpAddress,
        jail_name: &str,
    ) -> (r: PortForward)
        ensures
            r.external_port == external_port,
            r.internal_port == internal_port,
            r.protocol@ == protocol@,
            r.jail_ip == jail_ip,
            r.bind_ip is None,
            r.jail_name@ == jail_name@,
    {
        PortForward {
            external_port,
            internal_port,
            protocol: protocol.to_owned(),
            jail_ip,
            bind_ip: None,
            jail_name: jail_name.to_owned(),
        }
    }

    /// The same forward bound to one external address.
    pub fn with_bind_ip(self, ip: IpAddress) -> (r: PortForward)
        ensures
            r.bind_ip == Some(ip),
            r.external_port == self.external_port,
            r.internal_port == self.internal_port,
            r.protocol == self.protocol,
            r.jail_ip == self.jail_ip,
            r.jail_name == self.jail_name,
    {
        PortForward { bind_ip: Some(ip), ..self }
    }

    /// An equal copy of this forward.
    pub fn duplicate(&self) -> (r: PortForward)
        ensures
            r == *self,
    {
        PortForward {
            external_port: self.external_port,
            internal_port: self.internal_port,
            protocol: self.protocol.clone(),
            jail_ip: self.jail_ip,
            bind_ip: self.bind_ip,
            jail_name: self.jail_name.clone(),
        }
    }

    /// Render the canonical PF redirection rule for this forward.
    pub fn to_pf_rule(&self) -> (r: String)
        ensures
            r@ == spec_rule(*self),
    {
        proof {
            reveal_strlit("rdr ");
            reveal_strlit("on ");
            reveal_strlit(" ");
            reveal_strlit("proto ");
            reveal_strlit(" from any to any port ");
            reveal_strlit(" -> ");
            reveal_strlit(" port ");
            reveal_strlit(" # jail:");
        }
        let mut s = String::from_str("rdr ");
        match &self.bind_ip {
            Some(ip) => {
                s.append("on ");
                let t = ip.to_text();
                s.append(t.as_str());
                s.append(" ");
            }
            None => {}
        }
        s.append("proto ");
        s.append(self.protocol.as_str());
        s.append(" from any to any port ");
        crate::text::push_dec(&mut s, self.external_port as u64);
        s.append(" -> ");
        let t = self.jail_ip.to_text();
        s.append(t.as_str());
        s.append(" port ");
        crate::text::push_dec(&mut s, self.internal_port as u64);
        s.append(" # jail:");
        s.append(self.jail_name.as_str());
        proof {
            assert(s@ =~= spec_rule(*self));
        }
        s
    }
}

/// The forwards that remain once one jail's are dropped, in order.
pub open spec fn spec_without_jail(fs: Seq<PortForward>, name: Seq<char>) -> Seq<PortForward>
    decreases fs.len(),
{
    if fs.len() == 0 {
        Seq::empty()
    } else {
        let rest = spec_without_jail(fs.drop_last(), name);
        if fs.last().jail_name@ == name {
            rest
        } else {
            rest.push(fs.last())
        }
    }
}

/// The port-forward manager: the authoritative ordered rule table.
#[derive(Debug)]
pub struct BulkheadManager {
    /// Active forwards, in the order they were added.
    pub forwards: Vec<PortForward>,
}

impl BulkheadManager {
    /// A manager with no forwards.
    pub fn new() -> (r: BulkheadManager)
        ensures
            r.forwards@.len() == 0,
    {
        BulkheadManager { forwards: Vec::new() }
    }

    /// The complete anchor body for the current table.
    pub fn rules_text(&self) -> (r: String)
        ensures
            r@ == spec_rules_text(self.forwards@),
    {
        let mut rules: Vec<String> = Vec::new();
        let mut i: usize = 0;
        while i < self.forwards.len()
            invariant
                i <= self.forwards@.len(),
                rules@.map_values(|t: String| t@) =~= self.forwards@.take(i as int).map_values(
                    |f: PortForward| spec_rule(f)),
            decreases self.forwards@.len() - i,
        {
            let rule = self.forwards[i].to_pf_rule();
            rules.push(rule);
            proof {
                let pre = self.forwards@.take(i as int).map_values(
                    |f: PortForward| spec_rule(f));
                assert(self.forwards@.take(i + 1).map_values(|f: PortForward| spec_rule(f))
                    =~= pre.push(spec_rule(self.forwards@[i as int])));
                assert(rules@.map_values(|t: String| t@) =~= self.forwards@.take(
                    i + 1).map_values(|f: PortForward| spec_rule(f)));
            }
            i = i + 1;
        }
        proof {
            assert(self.forwards@.take(self.forwards@.len() as int) =~= self.forwards@);
            reveal_strlit("\n");
            assert("\n"@ =~= seq!['\n']);
        }
        crate::text::join_strings(&rules, "\n")
    }

    /// Add a forward and return the new anchor body to load.
    pub fn add_forward(&mut self, forward: PortForward) -> (r: String)
        ensures
            final(self).forwards@ == old(self).forwards@.push(forward),
            r@ == spec_rules_text(final(self).forwards@),
    {
        self.forwards.push(forward);
        self.rules_text()
    }

    /// Remove every forward of the named jail and return the new anchor
    /// body to load.
    pub fn remove_jail_forwards(&mut self, jail_name: &str) -> (r: String)
        ensures
            final(self).forwards@ == spec_without_jail(old(self).forwards@, jail_name@),
            r@ == spec_rules_text(final(self).forwards@),
    {
        let mut kept: Vec<PortForward> = Vec::new();
        let mut i: usize = 0;
        proof {
            assert(old(self).forwards@.take(0) =~= Seq::<PortForward>::empty());
        }
        while i < self.forwards.len()
            invariant
                self.forwards@ == old(self).forwards@,
                i <= self.forwards@.len(),
                kept@ == spec_without_jail(old(self).forwards@.take(i as int), jail_name@),
            decreases self.forwards@.len() - i,
        {
            let ghost pre = old(self).forwards@.take(i as int);
            proof {
                assert(old(self).forwards@.take(i + 1).drop_last() =~= pre);
                assert(old(self).forwards@.take(i + 1).last() == old(self).forwards@[i as int]);
            }
            if !crate::text::str_eq(self.forwards[i].jail_name.as_str(), jail_name) {
                let f = self.forwards[i].duplicate();
                kept.push(f);
            }
            i = i + 1;
        }
        proof {
            assert(old(self).forwards@.take(old(self).forwards@.len() as int) =~= old(
                self).forwards@);
        }
        self.forwards = kept;
        self.rules_text()
    }

    /// The current forwards, in table order.
    pub fn list_forwards(&self) -> (r: &Vec<PortForward>)
        ensures
            r == self.forwards,
    {
        &self.forwards
    }

    /// The forwards of one jail, in table order.
    pub fn get_jail_forwards(&self, jail_name: &str) -> (r: Vec<PortForward>)
        ensures
            r@ == spec_without_jail_complement(self.forwards@, jail_name@),
    {
        let mut out: Vec<PortForward> = Vec::new();
        let mut i: usize = 0;
        proof {
            assert(self.forwards@.take(0) =~= Seq::<PortForward>::empty());
        }
        while i < self.forwards.len()
            invariant
                i <= self.forwards@.len(),
                out@ == spec_without_jail_complement(self.forwards@.take(i as int), jail_name@),
            decreases self.forwards@.len() - i,
        {
            let ghost pre = self.forwards@.take(i as int);
            proof {
                assert(self.forwards@.take(i + 1).drop_last() =~= pre);
                assert(self.forwards@.take(i + 1).last() == self.forwards@[i as int]);
            }
            if crate::text::str_eq(self.forwards[i].jail_name.as_str(), jail_name) {
                let f = self.forwards[i].duplicate();
                out.push(f);
            }
            i = i + 1;
        }
        proof {
            assert(self.forwards@.take(self.forwards@.len() as int) =~= self.forwards@);
        }
        out
    }
}

/// The forwards that belong to one jail, in order.
pub open spec fn spec_without_jail_complement(
    fs: Seq<PortForward>,
    name: Seq<char>,
) -> Seq<PortForward>
    decreases fs.len(),
{
    if fs.len() == 0 {
        Seq::empty()
    } else {
        let rest = spec_without_jail_complement(fs.drop_last(), name);
        if fs.last().jail_name@ == name {
            rest.push(fs.last())
        } else {
            rest
        }
    }
}

/// The anchor body is canonical: two tables whose forwards hold the same
/// values, entry for entry, render byte-identical rule text.
pub proof fn lemma_rules_text_canonical(f1: Seq<PortForward>, f2: Seq<PortForward>)
    requires
        f1.len() == f2.len(),
        forall|i: int| 0 <= i < f1.len() ==> forward_model(#[trigger] f1[i]) == forward_model(
            #[trigger] f2[i]),
    ensures
        spec_rules_text(f1) == spec_rules_text(f2),
{
    assert(f1.map_values(|f: PortForward| spec_rule(f)) =~= f2.map_values(
        |f: PortForward| spec_rule(f))) by {
        assert forall|i: int| 0 <= i < f1.len() implies spec_rule(f1[i]) == spec_rule(
            f2[i]) by {
            assert(forward_model(f1[i]) == forward_model(f2[i]));
            assert(f1[i].protocol@ == f2[i].protocol@);
            assert(f1[i].jail_name@ == f2[i].jail_name@);
        }
    }
}

} // verus!
