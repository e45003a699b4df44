//! Turning an abstract runtime descriptor into a program and its arguments.

use vstd::prelude::*;

verus! {

/// How an agent is invoked.
#[derive(Debug, Clone)]
pub enum Runtime {
    /// A Python script, run by `python3` with unbuffered output.
    Python3,
    /// A JavaScript file, run by `node`.
    NodeJS,
    /// An entrypoint that is itself executable.
    Native,
    /// A service reached over the network; it is never spawned as a process.
    RemoteApi { endpoint: String, method: String },
}

/// The program that `build_command` resolves a remote runtime to. It names no
/// real binary, so spawning it fails.
pub open spec fn remote_placeholder() -> Seq<char> {
    "network_call"@
}

impl Runtime {
    /// The program to run for this runtime and entrypoint.
    pub open spec fn program_of(&self, entrypoint: Seq<char>) -> Seq<char> {
        match self {
            Runtime::Python3 => "python3"@,
            Runtime::NodeJS => "node"@,
            Runtime::Native => entrypoint,
            Runtime::RemoteApi { .. } => remote_placeholder(),
        }
    }

    /// The arguments handed to that program.
    pub open spec fn args_of(&self, entrypoint: Seq<char>) -> Seq<Seq<char>> {
        match self {
            Runtime::Python3 => seq!["-u"@, entrypoint],
            Runtime::NodeJS => seq![entrypoint],
            Runtime::Native => Seq::empty(),
            Runtime::RemoteApi { .. } => Seq::empty(),
        }
    }

    /// Resolves this runtime and an entrypoint to `(program, arguments)`.
    ///
    /// Interpreted runtimes put their flags before the entrypoint; a native
    /// runtime runs the entrypoint with no arguments. A remote runtime is not
    /// meant to be spawned: it resolves to a placeholder program with no
    /// arguments.
    pub fn build_command(&self, entrypoint: &str) -> (r: (String, Vec<String>))
        ensures
            r.0@ == self.program_of(entrypoint@),
            r.1@.len() == self.args_of(entrypoint@).len(),
            forall|i: int| 0 <= i < r.1@.len() ==> #[trigger] r.1@[i]@ == self.args_of(entrypoint@)[i],
    {
        match self {
            Runtime::Python3 => {
                let args = vec!["-u".to_owned(), entrypoint.to_owned()];
                ("python3".to_owned(), args)
            },
            Runtime::NodeJS => {
                let args = vec![entrypoint.to_owned()];
                ("node".to_owned(), args)
            },
            Runtime::Native => {
                let args: Vec<String> = Vec::new();
                (entrypoint.to_owned(), args)
            },
            Runtime::RemoteApi { .. } => {
                let args: Vec<String> = Vec::new();
                ("network_call".to_owned(), args)
            },
        }
    }
}

} // verus!
