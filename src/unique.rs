//! A connection with its own command buffer, for one caller at a time.
use vstd::prelude::*;

use crate::error::{GencmdCmdError, GencmdInitError};
use crate::gencmd::{command_result, raw_result, Command, Gencmd};
use crate::global::{open_outcome, GlobalInstance, Host};
use crate::transport::Transport;
use vstd::string::StringSliceAdditionalSpecFns;

verus! {

/// A command buffer together with the connection that it uses.
pub struct GencmdUnique(pub Gencmd, pub GlobalInstance);

impl GencmdUnique {
    /// Whether the buffer has the size of a response and the connection is open and idle.
    pub open spec fn ready(&self) -> bool {
        &&& self.0.wf()
        &&& !self.1.is_deinitialized_spec()
        &&& !self.1.awaiting_response()
    }

    /// Opens the connection on `host` and gives it a fresh buffer.
    pub fn new<T: Transport>(host: &mut Host<T>) -> (r: Result<Self, GencmdInitError>)
        ensures
            match r {
                Ok(u) => u.ready() && open_outcome(
                    *old(host),
                    *final(host),
                    Ok::<GlobalInstance, GencmdInitError>(u.1),
                ),
                Err(e) => open_outcome(
                    *old(host),
                    *final(host),
                    Err::<GlobalInstance, GencmdInitError>(e),
                ),
            },
    {
        let instance = match GlobalInstance::new(host) {
            Ok(instance) => instance,
            Err(e) => return Err(e),
        };
        let gencmd = Gencmd::new();
        Ok(GencmdUnique(gencmd, instance))
    }

    /// Sends `command` and reads its response; see [`Gencmd::send_cmd_raw`].
    pub fn send_cmd_raw<'a, T: Transport>(&'a mut self, host: &mut Host<T>, command: &str) -> (r:
        Result<&'a str, GencmdCmdError>)
        requires
            old(self).ready(),
        ensures
            final(self).ready(),
            final(self).1.handle() == old(self).1.handle(),
            final(host).is_claimed() == old(host).is_claimed(),
            final(host).calls().take(old(host).calls().len() as int) == old(host).calls(),
            command.spec_bytes().len() >= crate::transport::GENCMD_MAX_LENGTH ==> *final(host)
                == *old(host),
            raw_result(
                command.spec_bytes(),
                final(host).calls().skip(old(host).calls().len() as int),
                final(self).0.buffer(),
                r,
            ),
    {
        self.0.send_cmd_raw(&mut self.1, host, command)
    }

    /// Sends command `C` and parses its response; see [`Gencmd::send_cmd`].
    pub fn send_cmd<'a, C: Command<'a>, T: Transport>(&'a mut self, host: &mut Host<T>) -> (r:
        Result<C::Response, GencmdCmdError>)
        requires
            old(self).ready(),
        ensures
            final(self).ready(),
            final(self).1.handle() == old(self).1.handle(),
            final(host).is_claimed() == old(host).is_claimed(),
            final(host).calls().take(old(host).calls().len() as int) == old(host).calls(),
            command_result::<C>(
                final(host).calls().skip(old(host).calls().len() as int),
                final(self).0.buffer(),
                r,
            ),
    {
        self.0.send_cmd::<C, T>(&mut self.1, host)
    }
}

} // verus!
