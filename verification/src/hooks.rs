//! Lifecycle hooks: declarative commands run around a jail's lifecycle
//! phases, with variable substitution and a per-hook failure policy.
//!
//! The library selects the hooks of a phase, substitutes the context
//! variables into command and arguments, and decides what a failure
//! means; running the prepared commands (with their timeout) is the
//! caller's part.

use vstd::prelude::*;
use vstd::string::*;
use crate::errors::Error;
use crate::text::spec_replace;

verus! {

/// The lifecycle phases at which hooks run.
#[derive(Clone, Copy, Debug, PartialEq, Eq, Structural)]
pub enum HookPhase {
    /// Before the jail filesystem is created.
    PreCreate,
    /// After the jail filesystem is created.
    PostCreate,
    /// Before the jail is started.
    PreStart,
    /// After the jail is started and running.
    PostStart,
    /// Before the jail is stopped.
    PreStop,
    /// After the jail is stopped.
    PostStop,
}

impl HookPhase {
    /// All phases in lifecycle order.
    pub fn all() -> (r: Vec<HookPhase>)
        ensures
            r@ =~= seq![
                HookPhase::PreCreate,
                HookPhase::PostCreate,
                HookPhase::PreStart,
                HookPhase::PostStart,
                HookPhase::PreStop,
                HookPhase::PostStop,
            ],
    {
        let mut v: Vec<HookPhase> = Vec::new();
        v.push(HookPhase::PreCreate);
        v.push(HookPhase::PostCreate);
        v.push(HookPhase::PreStart);
        v.push(HookPhase::PostStart);
        v.push(HookPhase::PreStop);
        v.push(HookPhase::PostStop);
        v
    }

    /// Whether hooks of this phase need a running jail.
    pub fn requires_running_jail(&self) -> (r: bool)
        ensures
            r == (*self == HookPhase::PostStart || *self == HookPhase::PreStop),
    {
        matches!(self, HookPhase::PostStart | HookPhase::PreStop)
    }

    /// The phase name as written in configuration.
    pub open spec fn spec_label(self) -> Seq<char> {
        match self {
            HookPhase::PreCreate => "pre_create"@,
            HookPhase::PostCreate => "post_create"@,
            HookPhase::PreStart => "pre_start"@,
            HookPhase::PostStart => "post_start"@,
            HookPhase::PreStop => "pre_stop"@,
            HookPhase::PostStop => "post_stop"@,
        }
    }

    /// The phase name as written in configuration.
    pub fn label(&self) -> (r: String)
        ensures
            r@ == self.spec_label(),
    {
        match self {
            HookPhase::PreCreate => String::from_str("pre_create"),
            HookPhase::PostCreate => String::from_str("post_create"),
            HookPhase::PreStart => String::from_str("pre_start"),
            HookPhase::PostStart => String::from_str("post_start"),
            HookPhase::PreStop => String::from_str("pre_stop"),
            HookPhase::PostStop => String::from_str("post_stop"),
        }
    }
}

/// Where a hook command runs.
#[derive(Clone, Copy, Debug, PartialEq, Eq, Structural)]
pub enum HookTarget {
    /// On the host.
    Host,
    /// Inside the jail (needs a running jail).
    Jail,
}

/// What a failing hook means for the operation around it.
#[derive(Clone, Copy, Debug, PartialEq, Eq, Structural)]
pub enum OnFailure {
    /// The failure aborts the operation.
    Abort,
    /// The failure is reported and the operation continues.
    Continue,
}

/// One hook definition.
#[derive(Clone, Debug)]
pub struct Hook {
    /// The phase this hook runs at.
    pub phase: HookPhase,
    /// Where the command runs.
    pub target: HookTarget,
    /// The command (variables are substituted).
    pub command: String,
    /// Arguments (variables are substituted).
    pub args: Vec<String>,
    /// Timeout in seconds.
    pub timeout: u64,
    /// What a failure means.
    pub on_failure: OnFailure,
    /// Optional description for reporting.
    pub description: Option<String>,
}

impl Hook {
    /// A host hook at the given phase with a thirty-second timeout that
    /// aborts on failure.
    pub fn new(phase: HookPhase, command: String) -> (r: Hook)
        ensures
            r.phase == phase,
            r.target == HookTarget::Host,
            r.command == command,
            r.args@.len() == 0,
            r.timeout == 30,
            r.on_failure == OnFailure::Abort,
            r.description is None,
    {
        Hook {
            phase,
            target: HookTarget::Host,
            command,
            args: Vec::new(),
            timeout: 30,
            on_failure: OnFailure::Abort,
            description: None,
        }
    }

    /// The same hook with another target.
    pub fn with_target(self, target: HookTarget) -> (r: Hook)
        ensures
            r == (Hook { target, ..self }),
    {
        Hook { target, ..self }
    }

    /// The same hook with arguments.
    pub fn with_args(self, args: Vec<String>) -> (r: Hook)
        ensures
            r == (Hook { args, ..self }),
    {
        Hook { args, ..self }
    }

    /// The same hook with another timeout.
    pub fn with_timeout(self, timeout: u64) -> (r: Hook)
        ensures
            r == (Hook { timeout, ..self }),
    {
        Hook { timeout, ..self }
    }

    /// The same hook with another failure policy.
    pub fn with_on_failure(self, on_failure: OnFailure) -> (r: Hook)
        ensures
            r == (Hook { on_failure, ..self }),
    {
        Hook { on_failure, ..self }
    }

    /// The same hook with a description.
    pub fn with_description(self, description: String) -> (r: Hook)
        ensures
            r.description == Some(description),
            r.phase == self.phase,
            r.target == self.target,
            r.command == self.command,
            r.args == self.args,
            r.timeout == self.timeout,
            r.on_failure == self.on_failure,
    {
        Hook { description: Some(description), ..self }
    }

    /// An equal copy of this hook.
    pub fn duplicate(&self) -> (r: Hook)
        ensures
            r.phase == self.phase,
            r.target == self.target,
            r.command@ == self.command@,
            r.args@.map_values(|t: String| t@) == self.args@.map_values(|t: String| t@),
            r.timeout == self.timeout,
            r.on_failure == self.on_failure,
            r.description is Some <==> self.description is Some,
    {
        let mut args: Vec<String> = Vec::new();
        let mut i: usize = 0;
        while i < self.args.len()
            invariant
                i <= self.args@.len(),
                args@.map_values(|t: String| t@) =~= self.args@.take(i as int).map_values(
                    |t: String| t@),
            decreases self.args@.len() - i,
        {
            let ghost pre = args@.map_values(|t: String| t@);
            args.push(self.args[i].clone());
            proof {
                assert(self.args@.take(i + 1) =~= self.args@.take(i as int).push(
                    self.args@[i as int]));
                assert(args@.map_values(|t: String| t@) =~= pre.push(
                    self.args@[i as int]@));
                assert(self.args@.take(i + 1).map_values(|t: String| t@) =~= self.args@.take(
                    i as int).map_values(|t: String| t@).push(self.args@[i as int]@));
            }
            i = i + 1;
        }
        proof {
            assert(self.args@.take(self.args@.len() as int) =~= self.args@);
        }
        let description = match &self.description {
            Some(d) => Some(d.clone()),
            None => None,
        };
        Hook {
            phase: self.phase,
            target: self.target,
            command: self.command.clone(),
            args,
            timeout: self.timeout,
            on_failure: self.on_failure,
            description,
        }
    }
}

/// The variables substituted into hook commands.
#[derive(Debug)]
pub struct HookContext {
    /// The jail's name.
    pub jail_name: String,
    /// The jail's root path.
    pub jail_path: String,
    /// The jail's IP address as text, when one is assigned.
    pub jail_ip: Option<String>,
    /// The kernel jail id, when the jail runs.
    pub jid: Option<i32>,
    /// Additional variables, substituted in order.
    pub extra: Vec<(String, String)>,
}

/// The decimal text of a jail id (never negative in practice; a negative
/// id renders as its absolute value preceded by a minus sign).
pub open spec fn spec_jid_text(jid: i32) -> Seq<char> {
    if jid >= 0 {
        crate::text::dec_digits(jid as nat)
    } else {
        seq!['-'] + crate::text::dec_digits((-(jid as int)) as nat)
    }
}

/// The built-in substitutions applied to one input.
pub open spec fn spec_substitute_builtin(ctx: HookContext, input: Seq<char>) -> Seq<char> {
    let s1 = spec_replace(input, "${jail_name}"@, ctx.jail_name@);
    let s2 = spec_replace(s1, "${jail_path}"@, ctx.jail_path@);
    let s3 = spec_replace(
        s2,
        "${jail_ip}"@,
        match ctx.jail_ip {
            Some(ip) => ip@,
            None => Seq::empty(),
        },
    );
    spec_replace(
        s3,
        "${jid}"@,
        match ctx.jid {
            Some(j) => spec_jid_text(j),
            None => Seq::empty(),
        },
    )
}

/// The extra substitutions applied in order, from index `i` on.
pub open spec fn spec_substitute_extras(
    extras: Seq<(String, String)>,
    input: Seq<char>,
    i: int,
) -> Seq<char>
    decreases extras.len() - i,
{
    if i < 0 || i >= extras.len() {
        input
    } else {
        spec_substitute_extras(
            extras,
            spec_replace(input, "${"@ + extras[i].0@ + "}"@, extras[i].1@),
            i + 1,
        )
    }
}

/// The full substitution: built-ins first, then the extras in order.
pub open spec fn spec_substitute(ctx: HookContext, input: Seq<char>) -> Seq<char> {
    spec_substitute_extras(ctx.extra@, spec_substitute_builtin(ctx, input), 0)
}

impl HookContext {
    /// A context for the named jail at the given root path.
    pub fn new(jail_name: &str, jail_path: &str) -> (r: HookContext)
        ensures
            r.jail_name@ == jail_name@,
            r.jail_path@ == jail_path@,
            r.jail_ip is None,
            r.jid is None,
            r.extra@.len() == 0,
    {
        HookContext {
            jail_name: jail_name.to_owned(),
            jail_path: jail_path.to_owned(),
            jail_ip: None,
            jid: None,
            extra: Vec::new(),
        }
    }

    /// The same context with the jail's IP address.
    pub fn with_ip(self, ip: String) -> (r: HookContext)
        ensures
            r.jail_ip == Some(ip),
            r.jail_name == self.jail_name,
            r.jail_path == self.jail_path,
            r.jid == self.jid,
            r.extra == self.extra,
    {
        HookContext { jail_ip: Some(ip), ..self }
    }

    /// The same context with the kernel jail id.
    pub fn with_jid(self, jid: i32) -> (r: HookContext)
        ensures
            r.jid == Some(jid),
            r.jail_name == self.jail_name,
            r.jail_path == self.jail_path,
            r.jail_ip == self.jail_ip,
            r.extra == self.extra,
    {
        HookContext { jid: Some(jid), ..self }
    }

    /// The same context with one more variable.
    pub fn with_var(self, name: &str, value: &str) -> (r: HookContext)
        ensures
            r.extra@.len() == self.extra@.len() + 1,
            r.extra@.last().0@ == name@,
            r.extra@.last().1@ == value@,
            forall|i: int| 0 <= i < self.extra@.len() ==> r.extra@[i] == self.extra@[i],
            r.jail_name == self.jail_name,
            r.jail_path == self.jail_path,
            r.jail_ip == self.jail_ip,
            r.jid == self.jid,
    {
        let mut c = self;
        c.extra.push((name.to_owned(), value.to_owned()));
        c
    }

    /// Substitute the context's variables into `input`: `${jail_name}`,
    /// `${jail_path}`, `${jail_ip}`, `${jid}` (an unset IP or jid becomes
    /// empty text), then each extra variable as `${name}`, in order.
    pub fn substitute(&self, input: &str) -> (r: String)
        ensures
            r@ == spec_substitute(*self, input@),
    {
        proof {
            reveal_strlit("${jail_name}");
            reveal_strlit("${jail_path}");
            reveal_strlit("${jail_ip}");
            reveal_strlit("${jid}");
            reveal_strlit("");
            reveal_strlit("${");
            reveal_strlit("}");
            reveal_strlit("-");
            assert(""@ =~= Seq::<char>::empty());
        }
        let mut out = crate::text::replace_all(input, "${jail_name}", self.jail_name.as_str());
        out = crate::text::replace_all(out.as_str(), "${jail_path}", self.jail_path.as_str());
        out = match &self.jail_ip {
            Some(ip) => crate::text::replace_all(out.as_str(), "${jail_ip}", ip.as_str()),
            None => crate::text::replace_all(out.as_str(), "${jail_ip}", ""),
        };
        out = match self.jid {
            Some(j) => {
                let jt = jid_text(j);
                crate::text::replace_all(out.as_str(), "${jid}", jt.as_str())
            }
            None => crate::text::replace_all(out.as_str(), "${jid}", ""),
        };
        let mut i: usize = 0;
        proof {
            assert(out@ == spec_substitute_builtin(*self, input@));
            assert(spec_substitute_extras(self.extra@, out@, self.extra@.len() as int) == out@);
        }
        let ghost builtin = out@;
        while i < self.extra.len()
            invariant
                i <= self.extra@.len(),
                spec_substitute_extras(self.extra@, builtin, 0) == spec_substitute_extras(
                    self.extra@, out@, i as int),
            decreases self.extra@.len() - i,
        {
            let mut pat = String::from_str("${");
            pat.append(self.extra[i].0.as_str());
            pat.append("}");
            proof {
                reveal_strlit("${");
                reveal_strlit("}");
                assert(pat@ =~= "${"@ + self.extra@[i as int].0@ + "}"@);
                assert(pat@.len() > 0);
            }
            out = crate::text::replace_all(out.as_str(), pat.as_str(),
                self.extra[i].1.as_str());
            i = i + 1;
        }
        out
    }
}

/// The decimal text of a jail id.
pub fn jid_text(jid: i32) -> (r: String)
    ensures
        r@ == spec_jid_text(jid),
{
    proof {
        reveal_strlit("-");
    }
    if jid >= 0 {
        crate::text::u64_to_string(jid as u64)
    } else {
        let mut s = String::from_str("-");
        let mag: u64 = if jid == i32::MIN {
            0x8000_0000u64
        } else {
            (-jid) as u64
        };
        crate::text::push_dec(&mut s, mag);
        proof {
            assert(s@ =~= spec_jid_text(jid));
        }
        s
    }
}

/// The result of one hook execution, as the runner reports it back.
#[derive(Debug)]
pub struct HookResult {
    /// Whether the command exited successfully.
    pub success: bool,
    /// The exit code, when one was delivered.
    pub exit_code: Option<i32>,
    /// Captured standard output.
    pub stdout: String,
    /// Captured standard error.
    pub stderr: String,
}

impl HookResult {
    /// A one-word summary with the exit code when present.
    pub fn summary(&self) -> (r: String)
        ensures
            self.success && self.exit_code is None ==> r@ == "success"@,
            !self.success && self.exit_code is None ==> r@ == "failed"@,
    {
        let mut s = if self.success {
            String::from_str("success")
        } else {
            String::from_str("failed")
        };
        match self.exit_code {
            Some(c) => {
                s.append(" (exit ");
                let ct = jid_text(c);
                s.append(ct.as_str());
                s.append(")");
            }
            None => {}
        }
        s
    }

    /// Combined output: standard output, standard error, or both
    /// separated by a newline.
    pub fn output(&self) -> (r: String)
        ensures
            self.stdout@.len() == 0 ==> r@ == self.stderr@,
            self.stdout@.len() > 0 && self.stderr@.len() == 0 ==> r@ == self.stdout@,
            self.stdout@.len() > 0 && self.stderr@.len() > 0 ==> r@ == self.stdout@ + seq!['\n']
                + self.stderr@,
    {
        if self.stdout.unicode_len() == 0 {
            self.stderr.clone()
        } else if self.stderr.unicode_len() == 0 {
            self.stdout.clone()
        } else {
            let mut s = self.stdout.clone();
            s.append("\n");
            s.append(self.stderr.as_str());
            proof {
                reveal_strlit("\n");
                assert(s@ =~= self.stdout@ + seq!['\n'] + self.stderr@);
            }
            s
        }
    }
}

/// A hook prepared for execution: target and failure policy with the
/// substituted command and arguments.
#[derive(Debug)]
pub struct PreparedHook {
    /// The phase it belongs to.
    pub phase: HookPhase,
    /// Where to run.
    pub target: HookTarget,
    /// The command after substitution.
    pub command: String,
    /// The arguments after substitution.
    pub args: Vec<String>,
    /// Timeout in seconds.
    pub timeout: u64,
    /// What a failure means.
    pub on_failure: OnFailure,
}

/// The runner: the hooks of one jail.
pub struct HookRunner {
    /// All configured hooks, in order.
    pub hooks: Vec<Hook>,
    /// Whether to report each hook as it runs.
    pub verbose: bool,
}

impl HookRunner {
    /// A runner over the given hooks.
    pub fn new(hooks: Vec<Hook>) -> (r: HookRunner)
        ensures
            r.hooks == hooks,
            !r.verbose,
    {
        HookRunner { hooks, verbose: false }
    }

    /// The same runner with verbosity set.
    pub fn verbose(self, verbose: bool) -> (r: HookRunner)
        ensures
            r.hooks == self.hooks,
            r.verbose == verbose,
    {
        HookRunner { verbose, ..self }
    }

    /// Prepare the hooks of one phase: exactly the phase's hooks, in
    /// order, with the context substituted into each command and each
    /// argument.  Running a jail-targeted hook needs a jail id;
    /// preparing one without is rejected, exactly as running it would
    /// be.
    pub fn plan_phase(&self, phase: HookPhase, context: &HookContext) -> (r: Result<
        Vec<PreparedHook>,
        Error,
    >)
        ensures
            r is Err <==> context.jid is None && (exists|i: int|
                0 <= i < self.hooks@.len() && (#[trigger] self.hooks@[i]).phase == phase
                    && self.hooks@[i].target == HookTarget::Jail),
            r matches Ok(v) ==> {
                let sel = spec_phase_hooks(self.hooks@, phase);
                &&& v@.len() == sel.len()
                &&& forall|i: int|
                    0 <= i < v@.len() ==> spec_prepared_from(
                        #[trigger] v@[i], sel[i], phase, *context)
            },
    {
        let mut out: Vec<PreparedHook> = Vec::new();
        let mut i: usize = 0;
        proof {
            assert(self.hooks@.take(0) =~= Seq::<Hook>::empty());
        }
        while i < self.hooks.len()
            invariant
                i <= self.hooks@.len(),
                out@.len() == spec_phase_hooks(self.hooks@.take(i as int), phase).len(),
                forall|k: int|
                    0 <= k < out@.len() ==> spec_prepared_from(
                        #[trigger] out@[k],
                        spec_phase_hooks(self.hooks@.take(i as int), phase)[k],
                        phase,
                        *context,
                    ),
                forall|j: int|
                    0 <= j < i ==> !((#[trigger] self.hooks@[j]).phase == phase
                        && self.hooks@[j].target == HookTarget::Jail && context.jid is None),
            decreases self.hooks@.len() - i,
        {
            let ghost pre_sel = spec_phase_hooks(self.hooks@.take(i as int), phase);
            proof {
                assert(self.hooks@.take(i + 1).drop_last() =~= self.hooks@.take(i as int));
                assert(self.hooks@.take(i + 1).last() == self.hooks@[i as int]);
            }
            let h = &self.hooks[i];
            if h.phase == phase {
                if matches!(h.target, HookTarget::Jail) && self_jid_missing(context) {
                    return Err(Error::HookFailed {
                        phase: phase.label(),
                        command: h.command.clone(),
                        message: String::from_str(
                            "cannot execute jail hook: jail is not running"),
                    });
                }
                let command = context.substitute(h.command.as_str());
                let mut args: Vec<String> = Vec::new();
                let mut k: usize = 0;
                while k < h.args.len()
                    invariant
                        k <= h.args@.len(),
                        args@.len() == k,
                        forall|q: int|
                            0 <= q < k ==> (#[trigger] args@[q])@ == spec_substitute(
                                *context, h.args@[q]@),
                    decreases h.args@.len() - k,
                {
                    args.push(context.substitute(h.args[k].as_str()));
                    k = k + 1;
                }
                out.push(PreparedHook {
                    phase,
                    target: h.target,
                    command,
                    args,
                    timeout: h.timeout,
                    on_failure: h.on_failure,
                });
                proof {
                    assert(spec_phase_hooks(self.hooks@.take(i + 1), phase) =~= pre_sel.push(
                        self.hooks@[i as int]));
                }
            } else {
                proof {
                    assert(spec_phase_hooks(self.hooks@.take(i + 1), phase) =~= pre_sel);
                }
            }
            i = i + 1;
        }
        proof {
            assert(self.hooks@.take(self.hooks@.len() as int) =~= self.hooks@);
        }
        Ok(out)
    }

    /// What a finished hook means: a failure aborts the phase exactly
    /// when the hook's policy says so; success and tolerated failures
    /// continue.
    pub fn judge(&self, hook: &PreparedHook, result: &HookResult) -> (r: Result<(), Error>)
        ensures
            r is Ok <==> result.success || hook.on_failure == OnFailure::Continue,
    {
        if result.success {
            Ok(())
        } else {
            match hook.on_failure {
                OnFailure::Abort => Err(Error::HookFailed {
                    phase: hook.phase.label(),
                    command: hook.command.clone(),
                    message: result.stderr.clone(),
                }),
                OnFailure::Continue => Ok(()),
            }
        }
    }
}

/// The hooks of one phase, in order.
pub open spec fn spec_phase_hooks(hooks: Seq<Hook>, phase: HookPhase) -> Seq<Hook>
    decreases hooks.len(),
{
    if hooks.len() == 0 {
        Seq::empty()
    } else {
        let rest = spec_phase_hooks(hooks.drop_last(), phase);
        if hooks.last().phase == phase {
            rest.push(hooks.last())
        } else {
            rest
        }
    }
}

/// Whether a prepared hook is hook `h` of the given phase with the
/// context substituted into its command and each of its arguments.
pub open spec fn spec_prepared_from(
    p: PreparedHook,
    h: Hook,
    phase: HookPhase,
    ctx: HookContext,
) -> bool {
    &&& p.phase == phase
    &&& p.target == h.target
    &&& p.timeout == h.timeout
    &&& p.on_failure == h.on_failure
    &&& p.command@ == spec_substitute(ctx, h.command@)
    &&& p.args@.len() == h.args@.len()
    &&& forall|k: int|
        0 <= k < p.args@.len() ==> (#[trigger] p.args@[k])@ == spec_substitute(
            ctx, h.args@[k]@)
}

/// Whether the context lacks a jail id.
fn self_jid_missing(context: &HookContext) -> (r: bool)
    ensures
        r == (context.jid is None),
{
    matches!(context.jid, None)
}

/// The hooks of one phase, in order.
pub fn filter_by_phase(hooks: &Vec<Hook>, phase: HookPhase) -> (r: Vec<Hook>)
    ensures
        forall|i: int| 0 <= i < r@.len() ==> (#[trigger] r@[i]).phase == phase,
{
    let mut out: Vec<Hook> = Vec::new();
    let mut i: usize = 0;
    while i < hooks.len()
        invariant
            i <= hooks@.len(),
            forall|k: int| 0 <= k < out@.len() ==> (#[trigger] out@[k]).phase == phase,
        decreases hooks@.len() - i,
    {
        if hooks[i].phase == phase {
            out.push(hooks[i].duplicate());
        }
        i = i + 1;
    }
    out
}

} // verus!
