//! The calls through which the library reaches the gencmd service.
use vstd::prelude::*;

use crate::error::VCOS_STATUS_T;

verus! {

/// The longest request frame, terminating NUL included.
pub const GENCMD_MAX_LENGTH: usize = 512;

/// The size of a response buffer.
pub const GENCMDSERVICE_MSGFIFO_SIZE: usize = 4092;

/// The vchi connection record, which the transport keeps to itself.
#[allow(non_camel_case_types)]
#[derive(Debug, Clone, Copy)]
pub struct vchi_connection_t {
    pub _bindgen_opaque_blob: [u64; 3],
}

/// What a vchi instance handle points to, which the transport keeps to itself.
#[allow(non_camel_case_types)]
#[derive(Debug, Clone, Copy)]
pub struct opaque_vchi_instance_handle_t {
    _unused: [u8; 0],
}

/// The operations of the service's transport layer (vcos, vchi and gencmd), all synchronous.
///
/// Handles are plain integers; `0` stands for a null handle.
pub trait Transport {
    /// Initializes the vcos layer. Calls nest: only the first one has an effect.
    fn vcos_init(&mut self) -> (r: VCOS_STATUS_T)
        ensures
            r.0 <= 10,
    ;

    /// Releases the vcos layer; only the call that balances the first `vcos_init` has an effect.
    fn vcos_deinit(&mut self);

    /// Initializes the vchi layer: its status (`0` on success) and the instance handle.
    fn vchi_initialise(&mut self) -> (i32, usize);

    /// Connects the vchi instance: `0` on success.
    fn vchi_connect(&mut self, instance: usize) -> i32;

    /// Disconnects the vchi instance: `0` on success.
    fn vchi_disconnect(&mut self, instance: usize) -> i32;

    /// Starts the gencmd service on the instance and returns its connection descriptor.
    fn vc_vchi_gencmd_init(&mut self, instance: usize) -> usize;

    /// Tells the gencmd service that it is stopped.
    fn vc_gencmd_stop(&mut self);

    /// Sends a request: `frame` is the command's bytes followed by a NUL. `0` on success.
    fn vc_gencmd_send(&mut self, frame: &[u8]) -> i32;

    /// Blocks until the response comes and writes it into `buffer`, NUL-terminated where it
    /// fits. `0` on success.
    fn vc_gencmd_read_response(&mut self, buffer: &mut Vec<u8>) -> (r: i32)
        ensures
            final(buffer)@.len() == old(buffer)@.len(),
    ;
}

} // verus!
