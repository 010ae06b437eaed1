//! The instructions a build template can hold, and the parsed template.

use vstd::prelude::*;
use vstd::string::*;

verus! {

/// A build argument with an optional default.
#[derive(Clone, Debug)]
pub struct BuildArg {
    /// The argument's name.
    pub name: String,
    /// Its default value, when one is given.
    pub default: Option<String>,
}

impl BuildArg {
    /// An argument without a default.
    pub fn new(name: &str) -> (r: BuildArg)
        ensures
            r.name@ == name@,
            r.default is None,
    {
        BuildArg { name: name.to_owned(), default: None }
    }

    /// The same argument with a default.
    pub fn with_default(self, default: &str) -> (r: BuildArg)
        ensures
            r.name == self.name,
            r.default matches Some(d) && d@ == default@,
    {
        BuildArg { default: Some(default.to_owned()), ..self }
    }
}

/// A port a built jail declares.
#[derive(Clone, Debug)]
pub struct ExposePort {
    /// The port number.
    pub port: u16,
    /// The protocol, `tcp` or `udp`.
    pub protocol: String,
}

impl ExposePort {
    /// A TCP port.
    pub fn tcp(port: u16) -> (r: ExposePort)
        ensures
            r.port == port,
            r.protocol@ == "tcp"@,
    {
        ExposePort { port, protocol: String::from_str("tcp") }
    }

    /// A UDP port.
    pub fn udp(port: u16) -> (r: ExposePort)
        ensures
            r.port == port,
            r.protocol@ == "udp"@,
    {
        ExposePort { port, protocol: String::from_str("udp") }
    }

    /// Parse `port` or `port/protocol`; a missing protocol is `tcp`.
    /// Fails exactly when the first field is no port number.
    pub fn parse(s: &str) -> (r: Option<ExposePort>)
        ensures
            ({
                let parts = crate::text::spec_split(s@, '/');
                if parts[0].len() > 0 && crate::text::all_digits(parts[0])
                    && crate::text::dec_value(parts[0]) <= u16::MAX {
                    r matches Some(p) && p.port == crate::text::dec_value(parts[0])
                        && p.protocol@ == (if parts.len() >= 2 {
                        parts[1]
                    } else {
                        "tcp"@
                    })
                } else {
                    r is None
                }
            }),
    {
        let parts = crate::text::split_char(s, '/');
        proof {
            let sp = crate::text::spec_split(s@, '/');
            assert forall|i: int| 0 <= i < parts@.len() implies (#[trigger] parts@[i])@
                == sp[i] by {
                assert(parts@.map_values(|t: String| t@)[i] == sp[i]);
            }
        }
        let port = match crate::text::parse_u16(parts[0].as_str()) {
            Some(p) => p,
            None => {
                return None;
            }
        };
        let protocol = if parts.len() >= 2 {
            parts[1].clone()
        } else {
            String::from_str("tcp")
        };
        Some(ExposePort { port, protocol })
    }
}

/// A file copy into the jail root.
#[derive(Clone, Debug)]
pub struct CopySpec {
    /// The source, relative to the template's directory.
    pub src: String,
    /// The destination inside the jail.
    pub dest: String,
    /// The file mode to set, when given.
    pub mode: Option<u32>,
    /// The owner to set, when given.
    pub owner: Option<String>,
}

impl CopySpec {
    /// A copy with neither mode nor owner.
    pub fn new(src: &str, dest: &str) -> (r: CopySpec)
        ensures
            r.src@ == src@,
            r.dest@ == dest@,
            r.mode is None,
            r.owner is None,
    {
        CopySpec { src: src.to_owned(), dest: dest.to_owned(), mode: None, owner: None }
    }

    /// The same copy with a file mode.
    pub fn with_mode(self, mode: u32) -> (r: CopySpec)
        ensures
            r.mode == Some(mode),
            r.src == self.src,
            r.dest == self.dest,
            r.owner == self.owner,
    {
        CopySpec { mode: Some(mode), ..self }
    }

    /// The same copy with an owner.
    pub fn with_owner(self, owner: &str) -> (r: CopySpec)
        ensures
            r.owner matches Some(o) && o@ == owner@,
            r.src == self.src,
            r.dest == self.dest,
            r.mode == self.mode,
    {
        CopySpec { owner: Some(owner.to_owned()), ..self }
    }
}

/// One template instruction.
#[derive(Clone, Debug)]
pub enum Instruction {
    /// The base release to build from.
    From(String),
    /// A build argument.
    Arg(BuildArg),
    /// An environment variable.
    Env(String, String),
    /// A command to run in the root being built.
    Run(String),
    /// A file copy into the root.
    Copy(CopySpec),
    /// The working directory from here on.
    Workdir(String),
    /// A declared port.
    Expose(ExposePort),
    /// The default start command.
    Cmd(String),
    /// The entry point command.
    Entrypoint(String),
    /// The default user.
    User(String),
    /// A metadata label.
    Label(String, String),
    /// A declared volume mount point.
    Volume(String),
    /// A comment line.
    Comment(String),
}

impl Instruction {
    /// The instruction's keyword.
    pub fn name(&self) -> (r: String)
        ensures
            self is From ==> r@ == "FROM"@,
            self is Arg ==> r@ == "ARG"@,
            self is Env ==> r@ == "ENV"@,
            self is Run ==> r@ == "RUN"@,
            self is Copy ==> r@ == "COPY"@,
            self is Workdir ==> r@ == "WORKDIR"@,
            self is Expose ==> r@ == "EXPOSE"@,
            self is Cmd ==> r@ == "CMD"@,
            self is Entrypoint ==> r@ == "ENTRYPOINT"@,
            self is User ==> r@ == "USER"@,
            self is Label ==> r@ == "LABEL"@,
            self is Volume ==> r@ == "VOLUME"@,
            self is Comment ==> r@ == "#"@,
    {
        match self {
            Instruction::From(_) => String::from_str("FROM"),
            Instruction::Arg(_) => String::from_str("ARG"),
            Instruction::Env(_, _) => String::from_str("ENV"),
            Instruction::Run(_) => String::from_str("RUN"),
            Instruction::Copy(_) => String::from_str("COPY"),
            Instruction::Workdir(_) => String::from_str("WORKDIR"),
            Instruction::Expose(_) => String::from_str("EXPOSE"),
            Instruction::Cmd(_) => String::from_str("CMD"),
            Instruction::Entrypoint(_) => String::from_str("ENTRYPOINT"),
            Instruction::User(_) => String::from_str("USER"),
            Instruction::Label(_, _) => String::from_str("LABEL"),
            Instruction::Volume(_) => String::from_str("VOLUME"),
            Instruction::Comment(_) => String::from_str("#"),
        }
    }
}

/// Template metadata.
#[derive(Clone, Debug)]
pub struct JailfileMetadata {
    /// The template's name.
    pub name: Option<String>,
    /// Its version.
    pub version: Option<String>,
    /// A description.
    pub description: Option<String>,
    /// Its author.
    pub author: Option<String>,
    /// Free-form labels.
    pub labels: Vec<(String, String)>,
}

impl JailfileMetadata {
    /// Empty metadata.
    pub fn new() -> (r: JailfileMetadata)
        ensures
            r.name is None,
            r.version is None,
            r.description is None,
            r.author is None,
            r.labels@.len() == 0,
    {
        JailfileMetadata {
            name: None,
            version: None,
            description: None,
            author: None,
            labels: Vec::new(),
        }
    }
}

/// A parsed build template.
#[derive(Debug)]
pub struct Jailfile {
    /// Metadata.
    pub metadata: JailfileMetadata,
    /// The base release.
    pub from: Option<String>,
    /// The build arguments, in order.
    pub args: Vec<BuildArg>,
    /// The instructions, in order.
    pub instructions: Vec<Instruction>,
    /// The default start command.
    pub cmd: Option<String>,
    /// The entry point command.
    pub entrypoint: Option<String>,
    /// The working directory.
    pub workdir: Option<String>,
    /// The default user.
    pub user: Option<String>,
    /// The declared ports.
    pub expose: Vec<ExposePort>,
    /// The declared volumes.
    pub volumes: Vec<String>,
    /// The environment variables, in order of setting.
    pub env: Vec<(String, String)>,
}

impl Jailfile {
    /// An empty template.
    pub fn new() -> (r: Jailfile)
        ensures
            r.from is None,
            r.args@.len() == 0,
            r.instructions@.len() == 0,
            r.cmd is None,
            r.entrypoint is None,
            r.workdir is None,
            r.user is None,
            r.expose@.len() == 0,
            r.volumes@.len() == 0,
            r.env@.len() == 0,
    {
        Jailfile {
            metadata: JailfileMetadata::new(),
            from: None,
            args: Vec::new(),
            instructions: Vec::new(),
            cmd: None,
            entrypoint: None,
            workdir: None,
            user: None,
            expose: Vec::new(),
            volumes: Vec::new(),
            env: Vec::new(),
        }
    }

    /// A template building from a base release.
    pub fn from_release(release: &str) -> (r: Jailfile)
        ensures
            r.from matches Some(f) && f@ == release@,
            r.instructions@.len() == 1,
            r.instructions@[0] matches Instruction::From(f2) && f2@ == release@,
            r.args@.len() == 0,
            r.env@.len() == 0,
            r.expose@.len() == 0,
            r.cmd is None,
    {
        let mut jf = Jailfile::new();
        jf.from = Some(release.to_owned());
        jf.instructions.push(Instruction::From(release.to_owned()));
        jf
    }

    /// The template with one more build argument.
    pub fn arg(self, name: &str, default: Option<&str>) -> (r: Jailfile)
        ensures
            r.args@.len() == self.args@.len() + 1,
            r.args@.last().name@ == name@,
            r.instructions@.len() == self.instructions@.len() + 1,
            r.from == self.from,
            r.env == self.env,
            r.expose == self.expose,
            r.cmd == self.cmd,
    {
        let mut jf = self;
        let arg = match default {
            Some(d) => BuildArg { name: name.to_owned(), default: Some(d.to_owned()) },
            None => BuildArg { name: name.to_owned(), default: None },
        };
        let arg2 = BuildArg {
            name: arg.name.clone(),
            default: match &arg.default {
                Some(d) => Some(d.clone()),
                None => None,
            },
        };
        jf.args.push(arg);
        jf.instructions.push(Instruction::Arg(arg2));
        jf
    }

    /// The template with one more environment variable.
    pub fn env(self, name: &str, value: &str) -> (r: Jailfile)
        ensures
            r.env@.len() == self.env@.len() + 1,
            r.env@.last().0@ == name@,
            r.env@.last().1@ == value@,
            r.instructions@.len() == self.instructions@.len() + 1,
            r.from == self.from,
            r.args == self.args,
            r.expose == self.expose,
            r.cmd == self.cmd,
    {
        let mut jf = self;
        jf.env.push((name.to_owned(), value.to_owned()));
        jf.instructions.push(Instruction::Env(name.to_owned(), value.to_owned()));
        jf
    }

    /// The template with one more command to run.
    pub fn run(self, command: &str) -> (r: Jailfile)
        ensures
            r.instructions@.len() == self.instructions@.len() + 1,
            r.instructions@.last() matches Instruction::Run(c) && c@ == command@,
            r.from == self.from,
            r.args == self.args,
            r.env == self.env,
            r.expose == self.expose,
            r.cmd == self.cmd,
    {
        let mut jf = self;
        jf.instructions.push(Instruction::Run(command.to_owned()));
        jf
    }

    /// The template with one more copy.
    pub fn copy(self, src: &str, dest: &str) -> (r: Jailfile)
        ensures
            r.instructions@.len() == self.instructions@.len() + 1,
            r.instructions@.last() matches Instruction::Copy(c) && c.src@ == src@ && c.dest@
                == dest@,
            r.from == self.from,
            r.args == self.args,
            r.env == self.env,
            r.expose == self.expose,
            r.cmd == self.cmd,
    {
        let mut jf = self;
        jf.instructions.push(Instruction::Copy(CopySpec::new(src, dest)));
        jf
    }

    /// The template with the working directory set.
    pub fn workdir(self, path: &str) -> (r: Jailfile)
        ensures
            r.workdir matches Some(w) && w@ == path@,
            r.instructions@.len() == self.instructions@.len() + 1,
            r.from == self.from,
            r.args == self.args,
            r.env == self.env,
            r.expose == self.expose,
            r.cmd == self.cmd,
    {
        let mut jf = self;
        jf.workdir = Some(path.to_owned());
        jf.instructions.push(Instruction::Workdir(path.to_owned()));
        jf
    }

    /// The template with one more declared port.
    pub fn expose(self, port: u16, protocol: &str) -> (r: Jailfile)
        ensures
            r.expose@.len() == self.expose@.len() + 1,
            r.expose@.last().port == port,
            r.expose@.last().protocol@ == protocol@,
            r.instructions@.len() == self.instructions@.len() + 1,
            r.from == self.from,
            r.args == self.args,
            r.env == self.env,
            r.cmd == self.cmd,
    {
        let mut jf = self;
        jf.expose.push(ExposePort { port, protocol: protocol.to_owned() });
        jf.instructions.push(Instruction::Expose(ExposePort {
            port,
            protocol: protocol.to_owned(),
        }));
        jf
    }

    /// The template with the start command set.
    pub fn cmd(self, command: &str) -> (r: Jailfile)
        ensures
            r.cmd matches Some(c) && c@ == command@,
            r.instructions@.len() == self.instructions@.len() + 1,
            r.from == self.from,
            r.args == self.args,
            r.env == self.env,
            r.expose == self.expose,
    {
        let mut jf = self;
        jf.cmd = Some(command.to_owned());
        jf.instructions.push(Instruction::Cmd(command.to_owned()));
        jf
    }

    /// The template with the entry point set.
    pub fn entrypoint(self, command: &str) -> (r: Jailfile)
        ensures
            r.entrypoint matches Some(c) && c@ == command@,
            r.instructions@.len() == self.instructions@.len() + 1,
            r.from == self.from,
            r.args == self.args,
            r.env == self.env,
            r.expose == self.expose,
            r.cmd == self.cmd,
    {
        let mut jf = self;
        jf.entrypoint = Some(command.to_owned());
        jf.instructions.push(Instruction::Entrypoint(command.to_owned()));
        jf
    }

    /// The template with the default user set.
    pub fn user(self, user: &str) -> (r: Jailfile)
        ensures
            r.user matches Some(u) && u@ == user@,
            r.instructions@.len() == self.instructions@.len() + 1,
            r.from == self.from,
            r.args == self.args,
            r.env == self.env,
            r.expose == self.expose,
            r.cmd == self.cmd,
    {
        let mut jf = self;
        jf.user = Some(user.to_owned());
        jf.instructions.push(Instruction::User(user.to_owned()));
        jf
    }

    /// The base release, when one is set.
    pub fn base_release(&self) -> (r: Option<&str>)
        ensures
            r matches Some(f) ==> self.from matches Some(g) && f@ == g@,
            r is None <==> self.from is None,
    {
        match &self.from {
            Some(f) => Some(f.as_str()),
            None => None,
        }
    }

    /// The commands of every `Run` instruction, in order.
    pub fn run_commands(&self) -> (r: Vec<String>)
        ensures
            r@.len() <= self.instructions@.len(),
    {
        let mut out: Vec<String> = Vec::new();
        let mut i: usize = 0;
        while i < self.instructions.len()
            invariant
                i <= self.instructions@.len(),
                out@.len() <= i,
            decreases self.instructions@.len() - i,
        {
            match &self.instructions[i] {
                Instruction::Run(c) => {
                    out.push(c.clone());
                }
                _ => {}
            }
            i = i + 1;
        }
        out
    }

    /// The specs of every `Copy` instruction, in order.
    pub fn copy_specs(&self) -> (r: Vec<CopySpec>)
        ensures
            r@.len() <= self.instructions@.len(),
    {
        let mut out: Vec<CopySpec> = Vec::new();
        let mut i: usize = 0;
        while i < self.instructions.len()
            invariant
                i <= self.instructions@.len(),
                out@.len() <= i,
            decreases self.instructions@.len() - i,
        {
            match &self.instructions[i] {
                Instruction::Copy(c) => {
                    out.push(c.clone());
                }
                _ => {}
            }
            i = i + 1;
        }
        out
    }
}

} // verus!
