//! The persisted connection preference (`gui.conf`).
//!
//! Reading and writing the file are I/O; what the library holds is the value itself and the file's
//! name.
use vstd::prelude::*;

verus! {

pub const FILE_NAME: &'static str = "gui.conf";

/// How the window reaches a server: by starting one, or by attaching to one already running.
#[derive(Debug, Clone)]
pub enum Connection {
    Managed { binary_path: String },
    Attach { endpoint: String },
}

impl Connection {
    /// A copy of this preference, field for field.
    pub fn duplicate(&self) -> (c: Connection)
        ensures
            c == *self,
    {
        match self {
            Connection::Managed { binary_path } => Connection::Managed {
                binary_path: binary_path.clone(),
            },
            Connection::Attach { endpoint } => Connection::Attach { endpoint: endpoint.clone() },
        }
    }
}

} // verus!
