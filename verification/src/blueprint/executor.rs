//! The template executor: walks a parsed template, keeps the build
//! context up to date, and emits the actions — commands to run in the
//! root, files to copy, directories to make — for the build driver to
//! perform.  In dry-run mode no actions are emitted.

use vstd::prelude::*;
use vstd::string::*;
use crate::blueprint::context::BuildContext;
use crate::blueprint::instructions::{CopySpec, Instruction, Jailfile};
use crate::errors::Error;

verus! {

/// One action the build driver must perform.
#[derive(Debug)]
pub enum BuildAction {
    /// Run a command in the root being built, with the context's
    /// environment.
    RunCommand { command: String },
    /// Copy a file or directory into the root.
    CopyFile { src: String, dest: String, mode: Option<u32>, owner: Option<String> },
    /// Make a directory inside the root.
    MakeDir { path: String },
}

/// The executor: a build context and a dry-run switch.
pub struct TemplateExecutor {
    /// The context instructions update and read.
    pub context: BuildContext,
    /// Whether to only walk the template, performing nothing.
    pub dry_run: bool,
}

impl TemplateExecutor {
    /// An executor over the given context, not in dry-run mode.
    pub fn new(context: BuildContext) -> (r: TemplateExecutor)
        ensures
            r.context == context,
            !r.dry_run,
    {
        TemplateExecutor { context, dry_run: false }
    }

    /// The same executor with dry-run set.
    pub fn dry_run(self, dry_run: bool) -> (r: TemplateExecutor)
        ensures
            r.dry_run == dry_run,
            r.context == self.context,
    {
        TemplateExecutor { dry_run, ..self }
    }

    /// The build context.
    pub fn context(&self) -> (r: &BuildContext)
        ensures
            r == self.context,
    {
        &self.context
    }

    /// Set a build argument on the context.
    pub fn set_arg(&mut self, name: &str, value: &str)
        ensures
            final(self).context.args@.len() == old(self).context.args@.len() + 1,
            final(self).context.args@.last().0@ == name@,
            final(self).context.args@.last().1@ == value@,
            final(self).dry_run == old(self).dry_run,
            final(self).context.env == old(self).context.env,
            final(self).context.jail_name == old(self).context.jail_name,
    {
        self.context.set_arg(name, value);
    }

    /// Walk a template: fill in argument defaults, update environment
    /// and working directory as instructions direct, and collect the
    /// actions to perform.  A dry run collects none.
    pub fn execute(&mut self, jailfile: &Jailfile) -> (r: Result<Vec<BuildAction>, Error>)
        ensures
            r is Ok,
            old(self).dry_run ==> (r matches Ok(v) && v@.len() == 0),
            final(self).dry_run == old(self).dry_run,
            final(self).context.jail_name == old(self).context.jail_name,
            final(self).context.target_path == old(self).context.target_path,
            final(self).context.context_dir == old(self).context.context_dir,
    {
        let mut i: usize = 0;
        while i < jailfile.args.len()
            invariant
                i <= jailfile.args@.len(),
                self.dry_run == old(self).dry_run,
                self.context.jail_name == old(self).context.jail_name,
                self.context.target_path == old(self).context.target_path,
                self.context.context_dir == old(self).context.context_dir,
            decreases jailfile.args@.len() - i,
        {
            let name = jailfile.args[i].name.clone();
            let have = match self.context.get_arg(name.as_str()) {
                Some(_) => true,
                None => false,
            };
            if !have {
                match &jailfile.args[i].default {
                    Some(d) => {
                        self.context.set_arg(name.as_str(), d.as_str());
                    }
                    None => {}
                }
            }
            i = i + 1;
        }
        let mut actions: Vec<BuildAction> = Vec::new();
        let mut k: usize = 0;
        while k < jailfile.instructions.len()
            invariant
                k <= jailfile.instructions@.len(),
                self.dry_run == old(self).dry_run,
                self.context.jail_name == old(self).context.jail_name,
                self.context.target_path == old(self).context.target_path,
                self.context.context_dir == old(self).context.context_dir,
                old(self).dry_run ==> actions@.len() == 0,
            decreases jailfile.instructions@.len() - k,
        {
            match &jailfile.instructions[k] {
                Instruction::From(_) => {}
                Instruction::Arg(_) => {}
                Instruction::Env(name, value) => {
                    let v = self.context.substitute(value.as_str());
                    self.context.set_env(name.as_str(), v.as_str());
                }
                Instruction::Run(command) => {
                    let c = self.context.substitute(command.as_str());
                    if !self.dry_run {
                        actions.push(BuildAction::RunCommand { command: c });
                    }
                }
                Instruction::Copy(spec) => {
                    let src = self.context.substitute(spec.src.as_str());
                    let dest = self.context.substitute(spec.dest.as_str());
                    let rsrc = self.context.resolve_source(src.as_str());
                    let rdest = self.context.resolve_dest(dest.as_str());
                    if !self.dry_run {
                        let owner = match &spec.owner {
                            Some(o) => Some(o.clone()),
                            None => None,
                        };
                        actions.push(BuildAction::CopyFile {
                            src: rsrc,
                            dest: rdest,
                            mode: spec.mode,
                            owner,
                        });
                    }
                }
                Instruction::Workdir(path) => {
                    let p = self.context.substitute(path.as_str());
                    self.context.set_workdir(p.as_str());
                    if !self.dry_run {
                        let full = self.context.resolve_dest(p.as_str());
                        actions.push(BuildAction::MakeDir { path: full });
                    }
                }
                Instruction::Expose(_) => {}
                Instruction::Cmd(_) => {}
                Instruction::Entrypoint(_) => {}
                Instruction::User(_) => {}
                Instruction::Label(_, _) => {}
                Instruction::Volume(path) => {
                    let p = self.context.substitute(path.as_str());
                    if !self.dry_run {
                        let full = self.context.resolve_dest(p.as_str());
                        actions.push(BuildAction::MakeDir { path: full });
                    }
                }
                Instruction::Comment(_) => {}
            }
            k = k + 1;
        }
        Ok(actions)
    }
}

} // verus!
