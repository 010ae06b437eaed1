//! ZFS dataset naming for jail roots.
//!
//! The manager owns the naming scheme: every jail's dataset lives under
//! `<pool>/<base>/jails/`, and its mountpoint is the dataset path rooted
//! at `/`.  The commands that create, destroy and query datasets run
//! outside and are handed these names.

use vstd::prelude::*;
use vstd::string::*;

verus! {

/// The dataset naming manager.
#[derive(Clone, Debug)]
pub struct ZfsManager {
    /// The pool name.
    pub pool: String,
    /// The base dataset: `<pool>/<base>`.
    pub base_dataset: String,
}

impl ZfsManager {
    /// A manager for `<pool>/<base>`.
    pub fn new(pool: &str, base: &str) -> (r: ZfsManager)
        ensures
            r.pool@ == pool@,
            r.base_dataset@ == pool@ + seq!['/'] + base@,
    {
        proof {
            reveal_strlit("/");
            assert("/"@ =~= seq!['/']);
        }
        let mut base_dataset = pool.to_owned();
        base_dataset.append("/");
        base_dataset.append(base);
        ZfsManager { pool: pool.to_owned(), base_dataset }
    }

    /// The dataset all jail datasets live under.
    pub fn jails_dataset(&self) -> (r: String)
        ensures
            r@ == self.base_dataset@ + "/jails"@,
    {
        let mut s = self.base_dataset.clone();
        s.append("/jails");
        s
    }

    /// The dataset of one jail.
    pub fn jail_dataset(&self, name: &str) -> (r: String)
        ensures
            r@ == self.base_dataset@ + "/jails"@ + seq!['/'] + name@,
    {
        proof {
            reveal_strlit("/");
            assert("/"@ =~= seq!['/']);
        }
        let mut s = self.jails_dataset();
        s.append("/");
        s.append(name);
        s
    }

    /// The dataset of one jail (public accessor).
    pub fn get_jail_dataset(&self, name: &str) -> (r: String)
        ensures
            r@ == self.base_dataset@ + "/jails"@ + seq!['/'] + name@,
    {
        self.jail_dataset(name)
    }

    /// The mountpoint of one jail's dataset.
    pub fn jail_path(&self, name: &str) -> (r: String)
        ensures
            r@ == seq!['/'] + self.base_dataset@ + "/jails"@ + seq!['/'] + name@,
    {
        proof {
            reveal_strlit("/");
            assert("/"@ =~= seq!['/']);
        }
        let mut s = String::from_str("/");
        let d = self.jail_dataset(name);
        s.append(d.as_str());
        proof {
            assert(s@ =~= seq!['/'] + self.base_dataset@ + "/jails"@ + seq!['/'] + name@);
        }
        s
    }

    /// The datasets to create when initializing, in creation order: the
    /// base dataset when it is missing, then the jails dataset when it
    /// is missing.
    pub fn init_plan(&self, base_exists: bool, jails_exists: bool) -> (r: Vec<String>)
        ensures
            r@.map_values(|t: String| t@) =~= (if !base_exists {
                seq![self.base_dataset@]
            } else {
                Seq::<Seq<char>>::empty()
            }) + (if !jails_exists {
                seq![self.base_dataset@ + "/jails"@]
            } else {
                Seq::<Seq<char>>::empty()
            }),
    {
        let mut v: Vec<String> = Vec::new();
        if !base_exists {
            v.push(self.base_dataset.clone());
        }
        if !jails_exists {
            v.push(self.jails_dataset());
        }
        v
    }

    /// The full snapshot name `dataset@snapshot` for one jail.
    pub fn snapshot_name(&self, jail: &str, snapshot: &str) -> (r: String)
        ensures
            r@ == self.base_dataset@ + "/jails"@ + seq!['/'] + jail@ + seq!['@'] + snapshot@,
    {
        proof {
            reveal_strlit("@");
            assert("@"@ =~= seq!['@']);
        }
        let mut s = self.jail_dataset(jail);
        s.append("@");
        s.append(snapshot);
        proof {
            assert(s@ =~= self.base_dataset@ + "/jails"@ + seq!['/'] + jail@ + seq!['@']
                + snapshot@);
        }
        s
    }
}

/// One snapshot as reported by a dataset listing.
#[derive(Clone, Debug)]
pub struct SnapshotInfo {
    /// The snapshot's own name, after the `@`.
    pub name: String,
    /// Creation time, as reported.
    pub creation: String,
    /// Space used, as reported.
    pub used: String,
    /// Space referenced, as reported.
    pub refer: String,
}

} // verus!
