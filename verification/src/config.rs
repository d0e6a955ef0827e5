//! The process-wide job configuration: an immutable snapshot built once
//! from the parsed command line and shared read-only with every component.
use vstd::prelude::*;
use crate::parse::CommandLine;
use crate::parse::SocketAddr;

verus! {

/// One job assignment: scheduler address, target language, engine
/// identifier, persistence count, and the literal fuzzer invocation string.
/// Built exactly once per process and never mutated afterwards.
pub struct ServerConfig {
    pub server_addr: SocketAddr,
    pub language: String,
    pub engine: String,
    pub persistent: u8,
    pub args: String,
}

impl Default for ServerConfig {
    /// The loopback scheduler address on port 50051, with every other
    /// field empty.
    fn default() -> (r: ServerConfig)
        ensures
            r.server_addr == (SocketAddr { o1: 127, o2: 0, o3: 0, o4: 1, port: 50051 }),
            r.language@ == Seq::<char>::empty(),
            r.engine@ == Seq::<char>::empty(),
            r.persistent == 0,
            r.args@ == Seq::<char>::empty(),
    {
        ServerConfig {
            server_addr: SocketAddr { o1: 127, o2: 0, o3: 0, o4: 1, port: 50051 },
            language: String::new(),
            engine: String::new(),
            persistent: 0,
            args: String::new(),
        }
    }
}

/// Build the configuration snapshot from the parsed command line. Every
/// field is copied verbatim; the snapshot is immutable from here on.
pub fn init_config(opt: &CommandLine) -> (r: ServerConfig)
    ensures
        r.server_addr == opt.address,
        r.language == opt.language,
        r.engine == opt.engine,
        r.persistent == opt.persistent,
        r.args == opt.args,
{
    ServerConfig {
        server_addr: opt.address,
        language: opt.language.clone(),
        engine: opt.engine.clone(),
        persistent: opt.persistent,
        args: opt.args.clone(),
    }
}

} // verus!
