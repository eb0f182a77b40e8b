//! The client side: what the user asks for on the command line, and the
//! request that it becomes.
use vstd::prelude::*;

use crate::connection::WrappaRequest;
use crate::text::chars_of;
use crate::{Gid, Pid, Uid};

verus! {

/// The client's command line.
#[derive(Debug)]
pub struct Args {
    /// The user id to map into the sandbox; the caller's own where absent.
    pub uid: Option<u32>,
    /// The group id to map into the sandbox; the caller's own where absent.
    pub gid: Option<u32>,
    /// The capabilities to use within the sandbox, comma-separated.
    pub caps: String,
    /// Whether `setgroups(2)` must work in the sandbox.
    pub setgroups: bool,
    /// The command to run, program first.
    pub command: Vec<String>,
}

/// The program to run is not named by an absolute path.
#[derive(Debug)]
pub struct RelativeProgram {
    pub program: String,
}

impl Args {
    /// Checks that the program is named by an absolute path.
    pub fn check_program(&self) -> (r: Result<(), RelativeProgram>)
        requires
            self.command.len() > 0,
        ensures
            r is Ok <==> (self.command[0]@.len() > 0 && self.command[0]@[0] == '/'),
            r matches Err(e) ==> e.program == self.command[0],
    {
        let p = chars_of(self.command[0].as_str());
        if p.len() > 0 && p[0] == '/' {
            Ok(())
        } else {
            Err(RelativeProgram { program: self.command[0].clone() })
        }
    }

    /// The request for the child `child`; where no ids were given, those of
    /// the caller (`own_uid`, `own_gid`) are asked for.
    pub fn into_request(self, child: Pid, own_uid: Uid, own_gid: Gid) -> (r: WrappaRequest)
        ensures
            r.child == child,
            r.requested_uid == (match self.uid {
                Some(u) => u,
                None => own_uid,
            }),
            r.requested_gid == (match self.gid {
                Some(g) => g,
                None => own_gid,
            }),
            r.requested_capabilities == self.caps,
            r.needs_setgroups == self.setgroups,
    {
        let requested_uid = match self.uid {
            Some(u) => u,
            None => own_uid,
        };
        let requested_gid = match self.gid {
            Some(g) => g,
            None => own_gid,
        };
        WrappaRequest {
            child,
            requested_gid,
            requested_uid,
            requested_capabilities: self.caps,
            needs_setgroups: self.setgroups,
        }
    }
}

/// The stack size for the child: the stack limit where it fits in memory, else 8192.
pub fn stack_size(limit: u64) -> (r: usize)
    ensures
        r == (if limit > usize::MAX {
            8192
        } else {
            limit
        }),
{
    if limit > usize::MAX as u64 {
        8192
    } else {
        limit as usize
    }
}

} // verus!
