//! The build context: arguments, environment, working directory and the
//! paths a build resolves against.

use vstd::prelude::*;
use vstd::string::*;

verus! {

/// The context a template executes in.
#[derive(Debug)]
pub struct BuildContext {
    /// The directory the template and its files live in.
    pub context_dir: String,
    /// Build arguments, in order of setting.
    pub args: Vec<(String, String)>,
    /// Environment variables, in order of setting.
    pub env: Vec<(String, String)>,
    /// The jail root being built.
    pub target_path: String,
    /// The working directory inside the jail.
    pub workdir: String,
    /// The jail being built.
    pub jail_name: String,
    /// Whether to report each step.
    pub verbose: bool,
}

/// The value under `name` in a pair list, scanning from the end so the
/// latest setting wins.
pub open spec fn spec_lookup(pairs: Seq<(String, String)>, name: Seq<char>) -> Option<
    Seq<char>>
    decreases pairs.len(),
{
    if pairs.len() == 0 {
        None
    } else if pairs.last().0@ == name {
        Some(pairs.last().1@)
    } else {
        spec_lookup(pairs.drop_last(), name)
    }
}

impl BuildContext {
    /// A context for building `jail_name` into `target_path` from
    /// `context_dir`, starting at the root working directory.
    pub fn new(context_dir: &str, target_path: &str, jail_name: &str) -> (r: BuildContext)
        ensures
            r.context_dir@ == context_dir@,
            r.target_path@ == target_path@,
            r.jail_name@ == jail_name@,
            r.workdir@ == "/"@,
            r.args@.len() == 0,
            r.env@.len() == 0,
            !r.verbose,
    {
        BuildContext {
            context_dir: context_dir.to_owned(),
            args: Vec::new(),
            env: Vec::new(),
            target_path: target_path.to_owned(),
            workdir: String::from_str("/"),
            jail_name: jail_name.to_owned(),
            verbose: false,
        }
    }

    /// The same context with verbosity set.
    pub fn verbose(self, verbose: bool) -> (r: BuildContext)
        ensures
            r.verbose == verbose,
            r.args == self.args,
            r.env == self.env,
            r.workdir == self.workdir,
            r.context_dir == self.context_dir,
            r.target_path == self.target_path,
            r.jail_name == self.jail_name,
    {
        BuildContext { verbose, ..self }
    }

    /// Set a build argument.
    pub fn set_arg(&mut self, name: &str, value: &str)
        ensures
            final(self).args@.len() == old(self).args@.len() + 1,
            final(self).args@.last().0@ == name@,
            final(self).args@.last().1@ == value@,
            forall|i: int| 0 <= i < old(self).args@.len() ==> final(self).args@[i] == old(
                self).args@[i],
            final(self).env == old(self).env,
            final(self).workdir == old(self).workdir,
            final(self).jail_name == old(self).jail_name,
            final(self).target_path == old(self).target_path,
            final(self).context_dir == old(self).context_dir,
            final(self).verbose == old(self).verbose,
    {
        self.args.push((name.to_owned(), value.to_owned()));
    }

    /// The latest value set for a build argument.
    pub fn get_arg(&self, name: &str) -> (r: Option<String>)
        ensures
            (match r {
                Some(v) => spec_lookup(self.args@, name@) matches Some(w) && v@ == w,
                None => spec_lookup(self.args@, name@) is None,
            }),
    {
        let mut i: usize = self.args.len();
        proof {
            assert(self.args@.take(self.args@.len() as int) =~= self.args@);
        }
        while i > 0
            invariant
                i <= self.args@.len(),
                spec_lookup(self.args@, name@) == spec_lookup(
                    self.args@.take(i as int), name@),
            decreases i,
        {
            i = i - 1;
            if crate::text::str_eq(self.args[i].0.as_str(), name) {
                proof {
                    assert(self.args@.take(i + 1).last() == self.args@[i as int]);
                }
                return Some(self.args[i].1.clone());
            }
            proof {
                assert(self.args@.take(i + 1).last() == self.args@[i as int]);
                assert(self.args@.take(i + 1).drop_last() =~= self.args@.take(i as int));
            }
        }
        proof {
            assert(self.args@.take(0) =~= Seq::<(String, String)>::empty());
        }
        None
    }

    /// Set an environment variable.
    pub fn set_env(&mut self, name: &str, value: &str)
        ensures
            final(self).env@.len() == old(self).env@.len() + 1,
            final(self).env@.last().0@ == name@,
            final(self).env@.last().1@ == value@,
            forall|i: int| 0 <= i < old(self).env@.len() ==> final(self).env@[i] == old(
                self).env@[i],
            final(self).args == old(self).args,
            final(self).workdir == old(self).workdir,
            final(self).jail_name == old(self).jail_name,
            final(self).target_path == old(self).target_path,
            final(self).context_dir == old(self).context_dir,
            final(self).verbose == old(self).verbose,
    {
        self.env.push((name.to_owned(), value.to_owned()));
    }

    /// The environment variables, in order of setting.
    pub fn env(&self) -> (r: &Vec<(String, String)>)
        ensures
            r == self.env,
    {
        &self.env
    }

    /// The latest value set for an environment variable.
    pub fn get_env(&self, name: &str) -> (r: Option<String>)
        ensures
            (match r {
                Some(v) => spec_lookup(self.env@, name@) matches Some(w) && v@ == w,
                None => spec_lookup(self.env@, name@) is None,
            }),
    {
        let mut i: usize = self.env.len();
        proof {
            assert(self.env@.take(self.env@.len() as int) =~= self.env@);
        }
        while i > 0
            invariant
                i <= self.env@.len(),
                spec_lookup(self.env@, name@) == spec_lookup(self.env@.take(i as int), name@),
            decreases i,
        {
            i = i - 1;
            if crate::text::str_eq(self.env[i].0.as_str(), name) {
                proof {
                    assert(self.env@.take(i + 1).last() == self.env@[i as int]);
                }
                return Some(self.env[i].1.clone());
            }
            proof {
                assert(self.env@.take(i + 1).last() == self.env@[i as int]);
                assert(self.env@.take(i + 1).drop_last() =~= self.env@.take(i as int));
            }
        }
        proof {
            assert(self.env@.take(0) =~= Seq::<(String, String)>::empty());
        }
        None
    }

    /// Set the working directory.
    pub fn set_workdir(&mut self, path: &str)
        ensures
            final(self).workdir@ == path@,
            final(self).args == old(self).args,
            final(self).env == old(self).env,
            final(self).jail_name == old(self).jail_name,
            final(self).target_path == old(self).target_path,
            final(self).context_dir == old(self).context_dir,
            final(self).verbose == old(self).verbose,
    {
        self.workdir = path.to_owned();
    }

    /// The working directory.
    pub fn workdir(&self) -> (r: &str)
        ensures
            r@ == self.workdir@,
    {
        self.workdir.as_str()
    }

    /// The template's directory.
    pub fn context_dir(&self) -> (r: &str)
        ensures
            r@ == self.context_dir@,
    {
        self.context_dir.as_str()
    }

    /// The jail root being built.
    pub fn target_path(&self) -> (r: &str)
        ensures
            r@ == self.target_path@,
    {
        self.target_path.as_str()
    }

    /// The jail being built.
    pub fn jail_name(&self) -> (r: &str)
        ensures
            r@ == self.jail_name@,
    {
        self.jail_name.as_str()
    }

    /// Whether verbose reporting is on.
    pub fn is_verbose(&self) -> (r: bool)
        ensures
            r == self.verbose,
    {
        self.verbose
    }

    /// A source path resolved against the template's directory:
    /// absolute paths stand, others join the context directory.
    pub fn resolve_source(&self, src: &str) -> (r: String)
        ensures
            src@.len() > 0 && src@[0] == '/' ==> r@ == src@,
            !(src@.len() > 0 && src@[0] == '/') ==> r@ == self.context_dir@ + seq!['/'] + src@,
    {
        proof {
            reveal_strlit("/");
            assert("/"@ =~= seq!['/']);
        }
        if src.unicode_len() > 0 && src.get_char(0) == '/' {
            src.to_owned()
        } else {
            let mut s = self.context_dir.clone();
            s.append("/");
            s.append(src);
            s
        }
    }

    /// A destination path resolved into the jail root: the destination
    /// (absolute, or joined to the working directory) loses its leading
    /// slash and joins the target path.
    pub fn resolve_dest(&self, dest: &str) -> (r: String)
        ensures
            r@ == self.target_path@ + seq!['/'] + spec_strip_slash(
                if dest@.len() > 0 && dest@[0] == '/' {
                    dest@
                } else {
                    self.workdir@ + seq!['/'] + dest@
                },
            ),
    {
        proof {
            reveal_strlit("/");
            assert("/"@ =~= seq!['/']);
        }
        let path: String = if dest.unicode_len() > 0 && dest.get_char(0) == '/' {
            dest.to_owned()
        } else {
            let mut p = self.workdir.clone();
            p.append("/");
            p.append(dest);
            p
        };
        let rel: String = if path.as_str().unicode_len() > 0 && path.as_str().get_char(0)
            == '/' {
            let stripped = path.as_str().substring_char(1, path.as_str().unicode_len());
            proof {
                assert(stripped@ =~= path@.skip(1));
            }
            stripped.to_owned()
        } else {
            path
        };
        let mut s = self.target_path.clone();
        s.append("/");
        s.append(rel.as_str());
        s
    }

    /// Substitute the context's variables into `input`: every argument
    /// and environment variable as `${NAME}` then `$NAME`, in order of
    /// setting, then the jail name and working directory likewise.
    pub fn substitute(&self, input: &str) -> (r: String)
        ensures
            r@ == spec_ctx_substitute(*self, input@),
    {
        proof {
            reveal_strlit("${");
            reveal_strlit("}");
            reveal_strlit("$");
            reveal_strlit("${JAIL_NAME}");
            reveal_strlit("$JAIL_NAME");
            reveal_strlit("${WORKDIR}");
            reveal_strlit("$WORKDIR");
        }
        let mut out = input.to_owned();
        let mut i: usize = 0;
        let ghost start = out@;
        proof {
            assert(spec_pair_substitute(self.args@, start, 0) == spec_pair_substitute(
                self.args@, out@, 0));
        }
        while i < self.args.len()
            invariant
                i <= self.args@.len(),
                spec_pair_substitute(self.args@, start, 0) == spec_pair_substitute(
                    self.args@, out@, i as int),
            decreases self.args@.len() - i,
        {
            out = replace_var(out, self.args[i].0.as_str(), self.args[i].1.as_str());
            i = i + 1;
        }
        let ghost after_args = out@;
        let mut k: usize = 0;
        while k < self.env.len()
            invariant
                k <= self.env@.len(),
                spec_pair_substitute(self.env@, after_args, 0) == spec_pair_substitute(
                    self.env@, out@, k as int),
            decreases self.env@.len() - k,
        {
            out = replace_var(out, self.env[k].0.as_str(), self.env[k].1.as_str());
            k = k + 1;
        }
        proof {
            reveal_strlit("${JAIL_NAME}");
            reveal_strlit("$JAIL_NAME");
            reveal_strlit("${WORKDIR}");
            reveal_strlit("$WORKDIR");
        }
        out = crate::text::replace_all(out.as_str(), "${JAIL_NAME}", self.jail_name.as_str());
        out = crate::text::replace_all(out.as_str(), "$JAIL_NAME", self.jail_name.as_str());
        out = crate::text::replace_all(out.as_str(), "${WORKDIR}", self.workdir.as_str());
        out = crate::text::replace_all(out.as_str(), "$WORKDIR", self.workdir.as_str());
        out
    }
}

/// A path without its leading slash.
pub open spec fn spec_strip_slash(p: Seq<char>) -> Seq<char> {
    if p.len() > 0 && p[0] == '/' {
        p.skip(1)
    } else {
        p
    }
}

/// One variable substituted in both its brace and bare forms.
pub open spec fn spec_var_substitute(
    input: Seq<char>,
    name: Seq<char>,
    value: Seq<char>,
) -> Seq<char> {
    crate::text::spec_replace(
        crate::text::spec_replace(input, "${"@ + name + "}"@, value),
        "$"@ + name,
        value,
    )
}

/// The pairs from index `i` on substituted in order.
pub open spec fn spec_pair_substitute(
    pairs: Seq<(String, String)>,
    input: Seq<char>,
    i: int,
) -> Seq<char>
    decreases pairs.len() - i,
{
    if i < 0 || i >= pairs.len() {
        input
    } else {
        spec_pair_substitute(
            pairs,
            spec_var_substitute(input, pairs[i].0@, pairs[i].1@),
            i + 1,
        )
    }
}

/// The whole substitution: arguments, then environment, then the
/// built-in names.
pub open spec fn spec_ctx_substitute(ctx: BuildContext, input: Seq<char>) -> Seq<char> {
    let a = spec_pair_substitute(ctx.args@, input, 0);
    let b = spec_pair_substitute(ctx.env@, a, 0);
    let c = crate::text::spec_replace(b, "${JAIL_NAME}"@, ctx.jail_name@);
    let d = crate::text::spec_replace(c, "$JAIL_NAME"@, ctx.jail_name@);
    let e = crate::text::spec_replace(d, "${WORKDIR}"@, ctx.workdir@);
    crate::text::spec_replace(e, "$WORKDIR"@, ctx.workdir@)
}

/// Replace one variable in both its forms.
fn replace_var(input: String, name: &str, value: &str) -> (r: String)
    ensures
        r@ == spec_var_substitute(input@, name@, value@),
{
    proof {
        reveal_strlit("${");
        reveal_strlit("}");
        reveal_strlit("$");
    }
    let mut pat = String::from_str("${");
    pat.append(name);
    pat.append("}");
    proof {
        assert(pat@ =~= "${"@ + name@ + "}"@);
        assert(pat@.len() > 0);
    }
    let step1 = crate::text::replace_all(input.as_str(), pat.as_str(), value);
    let mut bare = String::from_str("$");
    bare.append(name);
    proof {
        assert(bare@ =~= "$"@ + name@);
        assert(bare@.len() > 0);
    }
    crate::text::replace_all(step1.as_str(), bare.as_str(), value)
}

} // verus!
