//! Release naming for provisioning: mirror URLs, release paths and the
//! checksum manifest format.
//!
//! Fetching, checksumming and unpacking happen outside; the names and
//! the parsing of the fetched checksum list are decided here.

use vstd::prelude::*;
use vstd::string::*;

verus! {

/// A machine architecture a release can be fetched for.
#[derive(Clone, Copy, Debug, PartialEq, Eq, Structural)]
pub enum Arch {
    Amd64,
    Arm64,
    I386,
}

impl Arch {
    /// The architecture's name in release URLs.
    pub fn freebsd_name(&self) -> (r: String)
        ensures
            *self == Arch::Amd64 ==> r@ == "amd64"@,
            *self == Arch::Arm64 ==> r@ == "arm64"@,
            *self == Arch::I386 ==> r@ == "i386"@,
    {
        match self {
            Arch::Amd64 => String::from_str("amd64"),
            Arch::Arm64 => String::from_str("arm64"),
            Arch::I386 => String::from_str("i386"),
        }
    }

    /// The architecture named by a machine identifier; any other
    /// machine is unrecognised.
    pub fn from_machine(machine: &str) -> (r: Option<Arch>)
        ensures
            r == (if machine@ == "x86_64"@ {
                Some(Arch::Amd64)
            } else if machine@ == "aarch64"@ {
                Some(Arch::Arm64)
            } else if machine@ == "x86"@ {
                Some(Arch::I386)
            } else {
                None::<Arch>
            }),
    {
        proof {
            reveal_strlit("x86_64");
            reveal_strlit("aarch64");
            reveal_strlit("x86");
            assert("x86"@.len() != "x86_64"@.len());
            assert("x86"@.len() != "aarch64"@.len());
            assert("x86_64"@.len() != "aarch64"@.len());
        }
        if crate::text::str_eq(machine, "x86_64") {
            Some(Arch::Amd64)
        } else if crate::text::str_eq(machine, "aarch64") {
            Some(Arch::Arm64)
        } else if crate::text::str_eq(machine, "x86") {
            Some(Arch::I386)
        } else {
            None
        }
    }
}

/// A release present on disk.
#[derive(Debug)]
pub struct Release {
    /// The release name.
    pub name: String,
    /// Where it is unpacked.
    pub path: String,
    /// The architecture it was fetched for.
    pub arch: Arch,
}

/// The provisioner: mirror, directories and fetch settings.
#[derive(Debug)]
pub struct Provisioner {
    /// The mirror base URL.
    pub mirror_url: String,
    /// Where releases are unpacked.
    pub releases_dir: String,
    /// Where downloads are cached.
    pub cache_dir: String,
    /// The archives to fetch.
    pub archives: Vec<String>,
    /// The architecture to fetch for.
    pub arch: Arch,
    /// Retry settings for fetches.
    pub retry_config: crate::manifest::RetryConfig,
}

impl Provisioner {
    /// A provisioner over the given mirror, directories, archive list
    /// and architecture.
    pub fn new(
        mirror_url: String,
        releases_dir: String,
        cache_dir: String,
        archives: Vec<String>,
        arch: Arch,
        retry_config: crate::manifest::RetryConfig,
    ) -> (r: Provisioner)
        ensures
            r.mirror_url == mirror_url,
            r.releases_dir == releases_dir,
            r.cache_dir == cache_dir,
            r.archives == archives,
            r.arch == arch,
            r.retry_config == retry_config,
    {
        Provisioner { mirror_url, releases_dir, cache_dir, archives, arch, retry_config }
    }

    /// The URL of one release archive:
    /// `<mirror>/<arch>/<release>/<archive>.txz`.
    pub fn archive_url(&self, release: &str, archive: &str) -> (r: String)
        ensures
            r@ == self.mirror_url@ + seq!['/'] + spec_arch_name(self.arch) + seq!['/']
                + release@ + seq!['/'] + archive@ + ".txz"@,
    {
        proof {
            reveal_strlit("/");
            assert("/"@ =~= seq!['/']);
        }
        let mut s = self.mirror_url.clone();
        s.append("/");
        let a = self.arch.freebsd_name();
        proof {
            reveal_strlit("amd64");
            reveal_strlit("arm64");
            reveal_strlit("i386");
        }
        s.append(a.as_str());
        s.append("/");
        s.append(release);
        s.append("/");
        s.append(archive);
        s.append(".txz");
        proof {
            assert(a@ == spec_arch_name(self.arch));
            assert(s@ =~= self.mirror_url@ + seq!['/'] + spec_arch_name(self.arch) + seq!['/']
                + release@ + seq!['/'] + archive@ + ".txz"@);
        }
        s
    }

    /// The URL of a release's checksum manifest:
    /// `<mirror>/<arch>/<release>/MANIFEST`.
    pub fn manifest_url(&self, release: &str) -> (r: String)
        ensures
            r@ == self.mirror_url@ + seq!['/'] + spec_arch_name(self.arch) + seq!['/']
                + release@ + "/MANIFEST"@,
    {
        proof {
            reveal_strlit("/");
            assert("/"@ =~= seq!['/']);
            reveal_strlit("amd64");
            reveal_strlit("arm64");
            reveal_strlit("i386");
        }
        let mut s = self.mirror_url.clone();
        s.append("/");
        let a = self.arch.freebsd_name();
        s.append(a.as_str());
        s.append("/");
        s.append(release);
        s.append("/MANIFEST");
        proof {
            assert(a@ == spec_arch_name(self.arch));
            assert(s@ =~= self.mirror_url@ + seq!['/'] + spec_arch_name(self.arch) + seq!['/']
                + release@ + "/MANIFEST"@);
        }
        s
    }

    /// Where a release unpacks: `<releases_dir>/<release>`.
    pub fn release_path(&self, release: &str) -> (r: String)
        ensures
            r@ == self.releases_dir@ + seq!['/'] + release@,
    {
        proof {
            reveal_strlit("/");
            assert("/"@ =~= seq!['/']);
        }
        let mut s = self.releases_dir.clone();
        s.append("/");
        s.append(release);
        s
    }

    /// Parse a checksum manifest: one archive per line, the archive
    /// file name and its checksum in the first two tab-separated
    /// fields; the `.txz` suffix is dropped from the name.  Lines with
    /// fewer than two fields are skipped.
    pub fn parse_manifest(&self, content: &str) -> (r: Vec<(String, String)>)
        ensures
            r@.map_values(|e: (String, String)| (e.0@, e.1@)) == spec_manifest_entries(
                crate::text::spec_split(content@, '\n'),
                crate::text::spec_split(content@, '\n').len() as int),
    {
        let lines = crate::text::split_char(content, '\n');
        proof {
            let sp = crate::text::spec_split(content@, '\n');
            assert forall|i: int| 0 <= i < lines@.len() implies (#[trigger] lines@[i])@
                == sp[i] by {
                assert(lines@.map_values(|t: String| t@)[i] == sp[i]);
            }
        }
        let mut out: Vec<(String, String)> = Vec::new();
        let mut i: usize = 0;
        proof {
            let sp = crate::text::spec_split(content@, '\n');
            assert(spec_manifest_entries(sp, 0) =~= Seq::<(Seq<char>, Seq<char>)>::empty());
            assert(out@.map_values(|e: (String, String)| (e.0@, e.1@)) =~= Seq::<(
                Seq<char>,
                Seq<char>,
            )>::empty());
        }
        while i < lines.len()
            invariant
                lines@.map_values(|t: String| t@) == crate::text::spec_split(content@, '\n'),
                forall|j: int|
                    0 <= j < lines@.len() ==> (#[trigger] lines@[j])@
                        == crate::text::spec_split(content@, '\n')[j],
                i <= lines@.len(),
                out@.map_values(|e: (String, String)| (e.0@, e.1@)) == spec_manifest_entries(
                    crate::text::spec_split(content@, '\n'), i as int),
            decreases lines@.len() - i,
        {
            let ghost sp = crate::text::spec_split(content@, '\n');
            let ghost pre = out@.map_values(|e: (String, String)| (e.0@, e.1@));
            let parts = crate::text::split_char(lines[i].as_str(), '\t');
            proof {
                let tp = crate::text::spec_split(sp[i as int], '\t');
                assert forall|j: int| 0 <= j < parts@.len() implies (#[trigger] parts@[j])@
                    == tp[j] by {
                    assert(parts@.map_values(|t: String| t@)[j] == tp[j]);
                }
            }
            if parts.len() >= 2 {
                let name = strip_txz(parts[0].as_str());
                out.push((name, parts[1].clone()));
                proof {
                    assert(out@.map_values(|e: (String, String)| (e.0@, e.1@))
                        =~= pre.push((spec_strip_txz(
                        crate::text::spec_split(sp[i as int], '\t')[0]),
                        crate::text::spec_split(sp[i as int], '\t')[1])));
                    assert(spec_manifest_entries(sp, i + 1) =~= pre.push((spec_strip_txz(
                        crate::text::spec_split(sp[i as int], '\t')[0]),
                        crate::text::spec_split(sp[i as int], '\t')[1])));
                }
            } else {
                proof {
                    assert(spec_manifest_entries(sp, i + 1) =~= pre);
                }
            }
            i = i + 1;
        }
        out
    }
}

/// The architecture's URL name.
pub open spec fn spec_arch_name(a: Arch) -> Seq<char> {
    match a {
        Arch::Amd64 => "amd64"@,
        Arch::Arm64 => "arm64"@,
        Arch::I386 => "i386"@,
    }
}

/// A name with a trailing `.txz` dropped.
pub open spec fn spec_strip_txz(s: Seq<char>) -> Seq<char> {
    if ".txz"@.is_suffix_of(s) {
        s.take(s.len() - 4)
    } else {
        s
    }
}

/// The manifest entries of the first `n` lines: the stripped first
/// field and the second field of every line with at least two fields.
pub open spec fn spec_manifest_entries(lines: Seq<Seq<char>>, n: int) -> Seq<(Seq<char>, Seq<
    char>)>
    decreases n,
{
    if n <= 0 {
        Seq::empty()
    } else {
        let rest = spec_manifest_entries(lines, n - 1);
        let parts = crate::text::spec_split(lines[n - 1], '\t');
        if parts.len() >= 2 {
            rest.push((spec_strip_txz(parts[0]), parts[1]))
        } else {
            rest
        }
    }
}

/// Drop a trailing `.txz` from a name.
pub fn strip_txz(s: &str) -> (r: String)
    ensures
        r@ == spec_strip_txz(s@),
{
    proof {
        reveal_strlit(".txz");
    }
    if crate::text::str_ends_with(s, ".txz") {
        let n = s.unicode_len();
        let stem = s.substring_char(0, n - 4);
        proof {
            assert(stem@ =~= s@.take(s@.len() - 4));
        }
        stem.to_owned()
    } else {
        s.to_owned()
    }
}

} // verus!
