//! The connection to the gencmd service, of which at most one is live at a time.
use vstd::prelude::*;

use crate::error::{vcos_error_of, GencmdCmdError, GencmdDeinitError, GencmdInitError};
use crate::transport::{Transport, GENCMD_MAX_LENGTH};
use vstd::string::StringSliceAdditionalSpecFns;

verus! {

/// A call made on the transport, as recorded by a [`Host`]; handles are those passed.
pub enum TransportCall {
    /// `vcos_init`, with the status that it returned.
    VcosInit(u32),
    /// `vcos_deinit`.
    VcosDeinit,
    /// `vchi_initialise`, with the status and the instance handle that it returned.
    VchiInitialise(i32, usize),
    /// `vchi_connect` of an instance, with the status that it returned.
    VchiConnect(usize, i32),
    /// `vchi_disconnect` of an instance, with the status that it returned.
    VchiDisconnect(usize, i32),
    /// `vc_vchi_gencmd_init` on an instance.
    GencmdInit(usize),
    /// `vc_gencmd_stop`.
    GencmdStop,
    /// A request frame, with the status that the send returned.
    GencmdSend(Seq<u8>, i32),
    /// A read of a response, with the status that it returned.
    GencmdReadResponse(i32),
}

/// The process-wide side of the service: its transport, and the claim that a connection is
/// live. A program keeps one `Host` and shares it.
pub struct Host<T: Transport> {
    transport: T,
    one_instance: bool,
    calls: Ghost<Seq<TransportCall>>,
}

impl<T: Transport> Host<T> {
    /// Whether a connection is live on this host.
    pub closed spec fn is_claimed(&self) -> bool {
        self.one_instance
    }

    /// The calls made on the transport so far, oldest first.
    pub closed spec fn calls(&self) -> Seq<TransportCall> {
        self.calls@
    }

    /// A host over `transport`, with no connection.
    pub fn new(transport: T) -> (r: Self)
        ensures
            !r.is_claimed(),
            r.calls() == Seq::<TransportCall>::empty(),
    {
        Host { transport, one_instance: false, calls: Ghost(Seq::empty()) }
    }

    /// Whether a connection is live on this host.
    pub fn has_instance(&self) -> (r: bool)
        ensures
            r == self.is_claimed(),
    {
        self.one_instance
    }

    /// Claims the host for a connection; returns whether it was claimed already.
    fn claim(&mut self) -> (was: bool)
        ensures
            was == old(self).is_claimed(),
            was ==> *final(self) == *old(self),
            final(self).is_claimed(),
            final(self).calls() == old(self).calls(),
    {
        let was = self.one_instance;
        self.one_instance = true;
        was
    }

    /// Gives up the claim of a connection.
    fn release(&mut self)
        ensures
            !final(self).is_claimed(),
            final(self).calls() == old(self).calls(),
    {
        self.one_instance = false;
    }

    fn vcos_init(&mut self) -> (r: crate::error::VCOS_STATUS_T)
        ensures
            r.0 <= 10,
            final(self).is_claimed() == old(self).is_claimed(),
            final(self).calls() == old(self).calls().push(TransportCall::VcosInit(r.0)),
    {
        let r = self.transport.vcos_init();
        self.calls = Ghost(self.calls@.push(TransportCall::VcosInit(r.0)));
        r
    }

    fn vcos_deinit(&mut self)
        ensures
            final(self).is_claimed() == old(self).is_claimed(),
            final(self).calls() == old(self).calls().push(TransportCall::VcosDeinit),
    {
        self.calls = Ghost(self.calls@.push(TransportCall::VcosDeinit));
        self.transport.vcos_deinit()
    }

    fn vchi_initialise(&mut self) -> (r: (i32, usize))
        ensures
            final(self).is_claimed() == old(self).is_claimed(),
            final(self).calls() == old(self).calls().push(TransportCall::VchiInitialise(r.0, r.1)),
    {
        let r = self.transport.vchi_initialise();
        self.calls = Ghost(self.calls@.push(TransportCall::VchiInitialise(r.0, r.1)));
        r
    }

    fn vchi_connect(&mut self, instance: usize) -> (r: i32)
        ensures
            final(self).is_claimed() == old(self).is_claimed(),
            final(self).calls() == old(self).calls().push(TransportCall::VchiConnect(instance, r)),
    {
        let r = self.transport.vchi_connect(instance);
        self.calls = Ghost(self.calls@.push(TransportCall::VchiConnect(instance, r)));
        r
    }

    fn vchi_disconnect(&mut self, instance: usize) -> (r: i32)
        ensures
            final(self).is_claimed() == old(self).is_claimed(),
            final(self).calls() == old(self).calls().push(TransportCall::VchiDisconnect(instance, r)),
    {
        let r = self.transport.vchi_disconnect(instance);
        self.calls = Ghost(self.calls@.push(TransportCall::VchiDisconnect(instance, r)));
        r
    }

    fn gencmd_init(&mut self, instance: usize) -> (r: usize)
        ensures
            final(self).is_claimed() == old(self).is_claimed(),
            final(self).calls() == old(self).calls().push(TransportCall::GencmdInit(instance)),
    {
        self.calls = Ghost(self.calls@.push(TransportCall::GencmdInit(instance)));
        self.transport.vc_vchi_gencmd_init(instance)
    }

    fn gencmd_stop(&mut self)
        ensures
            final(self).is_claimed() == old(self).is_claimed(),
            final(self).calls() == old(self).calls().push(TransportCall::GencmdStop),
    {
        self.calls = Ghost(self.calls@.push(TransportCall::GencmdStop));
        self.transport.vc_gencmd_stop()
    }

    fn gencmd_send(&mut self, frame: &Vec<u8>) -> (r: i32)
        ensures
            final(self).is_claimed() == old(self).is_claimed(),
            final(self).calls() == old(self).calls().push(TransportCall::GencmdSend(frame@, r)),
    {
        let r = self.transport.vc_gencmd_send(frame.as_slice());
        self.calls = Ghost(self.calls@.push(TransportCall::GencmdSend(frame@, r)));
        r
    }

    fn gencmd_read_response(&mut self, buffer: &mut Vec<u8>) -> (r: i32)
        ensures
            final(buffer)@.len() == old(buffer)@.len(),
            final(self).is_claimed() == old(self).is_claimed(),
            final(self).calls() == old(self).calls().push(TransportCall::GencmdReadResponse(r)),
    {
        let r = self.transport.vc_gencmd_read_response(buffer);
        self.calls = Ghost(self.calls@.push(TransportCall::GencmdReadResponse(r)));
        r
    }
}

/// Whether `made` are the transport calls of an open of a connection and `r` the result that
/// they decide. The steps come in order and stop at the first failure: a vcos status other than
/// success gives the failure that it stands for; a vchi failure status or a null handle gives
/// `VchiInit`; a failed connect gives `VchiConnect`; else the gencmd service is started on the
/// handle and the connection holds it.
pub open spec fn open_calls(made: Seq<TransportCall>, r: Result<GlobalInstance, GencmdInitError>) -> bool {
    &&& made.len() > 0
    &&& made[0] is VcosInit
    &&& if made[0]->VcosInit_0 != 0 {
        &&& made.len() == 1
        &&& vcos_error_of(made[0]->VcosInit_0) is Some
        &&& r == Err::<GlobalInstance, GencmdInitError>(
            GencmdInitError::VcosInit(vcos_error_of(made[0]->VcosInit_0)->Some_0),
        )
    } else {
        &&& made.len() > 1
        &&& made[1] is VchiInitialise
        &&& if made[1]->VchiInitialise_0 != 0 || made[1]->VchiInitialise_1 == 0 {
            made.len() == 2 && r == Err::<GlobalInstance, GencmdInitError>(GencmdInitError::VchiInit)
        } else {
            &&& made.len() > 2
            &&& made[2] is VchiConnect
            &&& made[2]->VchiConnect_0 == made[1]->VchiInitialise_1
            &&& if made[2]->VchiConnect_1 != 0 {
                made.len() == 3 && r == Err::<GlobalInstance, GencmdInitError>(
                    GencmdInitError::VchiConnect,
                )
            } else {
                &&& made.len() == 4
                &&& made[3] == TransportCall::GencmdInit(made[1]->VchiInitialise_1)
                &&& r is Ok
                &&& r->Ok_0.handle() == made[1]->VchiInitialise_1
                &&& !r->Ok_0.awaiting_response()
            }
        }
    }
}

/// Whether every step of the open recorded in `made` succeeded: vcos, vchi with a non-null
/// handle, and the connect.
pub open spec fn open_steps_succeed(made: Seq<TransportCall>) -> bool {
    &&& made.len() > 2
    &&& made[0] == TransportCall::VcosInit(0)
    &&& made[1] is VchiInitialise
    &&& made[1]->VchiInitialise_0 == 0
    &&& made[1]->VchiInitialise_1 != 0
    &&& made[2] is VchiConnect
    &&& made[2]->VchiConnect_1 == 0
}

/// The calls made on `after`'s transport since `before`, where `after` extends `before`.
pub open spec fn calls_since<T: Transport>(before: Host<T>, after: Host<T>) -> Seq<TransportCall> {
    after.calls().skip(before.calls().len() as int)
}

/// Whether the calls of `after` extend those of `before`.
pub open spec fn extends<T: Transport>(before: Host<T>, after: Host<T>) -> bool {
    &&& before.calls().len() <= after.calls().len()
    &&& after.calls().take(before.calls().len() as int) == before.calls()
}

/// What opening a connection on a host in state `before` leads to: the host in state `after`
/// and the result `r`. On a claimed host nothing is called and the result is
/// `AlreadyInitialized`; else the calls decide the result, and the host stays claimed exactly
/// when the open succeeded.
pub open spec fn open_outcome<T: Transport>(
    before: Host<T>,
    after: Host<T>,
    r: Result<GlobalInstance, GencmdInitError>,
) -> bool {
    if before.is_claimed() {
        &&& r == Err::<GlobalInstance, GencmdInitError>(GencmdInitError::AlreadyInitialized)
        &&& after == before
    } else {
        &&& extends(before, after)
        &&& open_calls(calls_since(before, after), r)
        &&& after.is_claimed() == r is Ok
    }
}

/// The connection to the gencmd service.
///
/// At most one is live on a [`Host`]. A connection that is no longer needed is closed with
/// [`GlobalInstance::deinit`] or [`GlobalInstance::deinit_ref_mut`]; using a closed one is a
/// contract violation.
pub struct GlobalInstance {
    instance: usize,
    connection: usize,
    awaiting_response: bool,
}

impl GlobalInstance {
    /// The vchi instance handle; `0` once the connection is closed.
    pub closed spec fn handle(&self) -> usize {
        self.instance
    }

    /// Whether the connection has been closed.
    pub open spec fn is_deinitialized_spec(&self) -> bool {
        self.handle() == 0
    }

    /// Whether a request was sent whose response has not been read yet.
    pub closed spec fn awaiting_response(&self) -> bool {
        self.awaiting_response
    }

    /// Opens the connection: claims the host, then initializes vcos, initializes vchi (which
    /// must give a non-null handle), connects it and starts the gencmd service. Fails with
    /// `AlreadyInitialized`, calling nothing, where a connection is live on the host. Every other
    /// failure gives the claim up again.
    pub fn new<T: Transport>(host: &mut Host<T>) -> (r: Result<GlobalInstance, GencmdInitError>)
        ensures
            open_outcome(*old(host), *final(host), r),
    {
        let ghost n = old(host).calls().len() as int;
        if host.claim() {
            return Err(GencmdInitError::AlreadyInitialized);
        }
        let status = host.vcos_init();
        let ghost c0 = host.calls().last();
        match status.to_result() {
            Ok(()) => {},
            Err(e) => {
                host.release();
                assert(host.calls().take(n) =~= old(host).calls());
                assert(host.calls().skip(n) =~= seq![c0]);
                return Err(GencmdInitError::VcosInit(e));
            },
        }
        let (result, instance) = host.vchi_initialise();
        let ghost c1 = host.calls().last();
        if result != 0 || instance == 0 {
            host.release();
            assert(host.calls().take(n) =~= old(host).calls());
            assert(host.calls().skip(n) =~= seq![c0, c1]);
            return Err(GencmdInitError::VchiInit);
        }
        let connected = host.vchi_connect(instance);
        let ghost c2 = host.calls().last();
        if connected != 0 {
            host.release();
            assert(host.calls().take(n) =~= old(host).calls());
            assert(host.calls().skip(n) =~= seq![c0, c1, c2]);
            return Err(GencmdInitError::VchiConnect);
        }
        let connection = host.gencmd_init(instance);
        let r = GlobalInstance { instance, connection, awaiting_response: false };
        assert(host.calls().take(n) =~= old(host).calls());
        assert(host.calls().skip(n) =~= seq![c0, c1, c2, TransportCall::GencmdInit(instance)]);
        Ok(r)
    }

    /// Sends a command: its bytes, then a NUL. The command must fit in a request frame: at most
    /// `GENCMD_MAX_LENGTH - 1` bytes, else nothing is sent and the result is `CommandTooLong`.
    ///
    /// Each request must have its response read with [`Self::retrieve_response`] before the next
    /// one is sent: a second request sent first corrupts the service for the whole process.
    pub fn send_command<T: Transport>(&mut self, host: &mut Host<T>, command: &str) -> (r: Result<
        (),
        GencmdCmdError,
    >)
        requires
            !old(self).is_deinitialized_spec(),
            !old(self).awaiting_response(),
        ensures
            final(self).handle() == old(self).handle(),
            final(host).is_claimed() == old(host).is_claimed(),
            command.spec_bytes().len() >= GENCMD_MAX_LENGTH ==> {
                &&& r matches Err(GencmdCmdError::CommandTooLong)
                &&& *final(host) == *old(host)
                &&& *final(self) == *old(self)
            },
            command.spec_bytes().len() < GENCMD_MAX_LENGTH ==> {
                &&& final(host).calls().len() == old(host).calls().len() + 1
                &&& final(host).calls().drop_last() == old(host).calls()
                &&& final(host).calls().last() is GencmdSend
                &&& final(host).calls().last()->GencmdSend_0 == command.spec_bytes().push(0u8)
                &&& (r is Ok <==> final(host).calls().last()->GencmdSend_1 == 0)
                &&& (r is Ok || r matches Err(GencmdCmdError::Send))
                &&& final(self).awaiting_response() == r is Ok
            },
    {
        let bytes = command.as_bytes();
        let n = bytes.len();
        if n >= GENCMD_MAX_LENGTH {
            return Err(GencmdCmdError::CommandTooLong);
        }
        let mut frame: Vec<u8> = Vec::new();
        let mut i: usize = 0;
        while i < n
            invariant
                n == bytes@.len(),
                i <= n,
                frame@ == bytes@.take(i as int),
            decreases n - i,
        {
            frame.push(bytes[i]);
            i = i + 1;
            assert(frame@ =~= bytes@.take(i as int));
        }
        frame.push(0u8);
        assert(frame@ =~= command.spec_bytes().push(0u8));
        if host.gencmd_send(&frame) != 0 {
            return Err(GencmdCmdError::Send);
        }
        self.awaiting_response = true;
        Ok(())
    }

    /// Reads the response to the request sent last into `buffer` and returns the number of bytes
    /// before its terminating NUL (the whole buffer where it holds none).
    pub fn retrieve_response<T: Transport>(
        &mut self,
        host: &mut Host<T>,
        buffer: &mut Vec<u8>,
    ) -> (r: Result<usize, GencmdCmdError>)
        requires
            !old(self).is_deinitialized_spec(),
            old(self).awaiting_response(),
        ensures
            final(self).handle() == old(self).handle(),
            !final(self).awaiting_response(),
            final(host).is_claimed() == old(host).is_claimed(),
            final(host).calls().len() == old(host).calls().len() + 1,
            final(host).calls().drop_last() == old(host).calls(),
            final(host).calls().last() is GencmdReadResponse,
            final(buffer)@.len() == old(buffer)@.len(),
            match r {
                Ok(len) => final(host).calls().last()->GencmdReadResponse_0 == 0 && len == nul_index(
                    final(buffer)@,
                ) && len <= final(buffer)@.len(),
                Err(e) => final(host).calls().last()->GencmdReadResponse_0 != 0 && e matches GencmdCmdError::Read,
            },
    {
        let status = host.gencmd_read_response(buffer);
        self.awaiting_response = false;
        if status != 0 {
            return Err(GencmdCmdError::Read);
        }
        Ok(find_nul(buffer))
    }

    /// Whether the connection has been closed.
    pub fn is_deinitialized(&self) -> (r: bool)
        ensures
            r == self.is_deinitialized_spec(),
    {
        self.instance == 0
    }

    /// Whether a request was sent whose response has not been read yet.
    pub fn is_awaiting_response(&self) -> (r: bool)
        ensures
            r == self.awaiting_response(),
    {
        self.awaiting_response
    }

    /// Closes the connection, consuming it.
    pub fn deinit<T: Transport>(self, host: &mut Host<T>) -> (r: Result<(), GencmdDeinitError>)
        ensures
            close_outcome(self, *old(host), *final(host), r),
    {
        let mut this = self;
        this.deinit_ref_mut(host)
    }

    /// Closes the connection: stops the gencmd service, disconnects vchi (a failure there is
    /// returned and leaves the connection open), releases vcos and gives up the host's claim.
    /// Closing a closed connection does nothing.
    pub fn deinit_ref_mut<T: Transport>(&mut self, host: &mut Host<T>) -> (r: Result<
        (),
        GencmdDeinitError,
    >)
        ensures
            close_outcome(*old(self), *old(host), *final(host), r),
            r is Ok ==> final(self).is_deinitialized_spec(),
            r is Err ==> *final(self) == *old(self),
            old(self).is_deinitialized_spec() ==> *final(self) == *old(self),
    {
        if self.is_deinitialized() {
            return Ok(());
        }
        let ghost n = old(host).calls().len() as int;
        host.gencmd_stop();
        let disconnected = host.vchi_disconnect(self.instance);
        let ghost c1 = host.calls().last();
        if disconnected != 0 {
            assert(host.calls().take(n) =~= old(host).calls());
            assert(host.calls().skip(n) =~= seq![TransportCall::GencmdStop, c1]);
            return Err(GencmdDeinitError::VchiDisconnect);
        }
        host.vcos_deinit();
        self.instance = 0;
        host.release();
        assert(host.calls().take(n) =~= old(host).calls());
        assert(host.calls().skip(n) =~= seq![TransportCall::GencmdStop, c1, TransportCall::VcosDeinit]);
        Ok(())
    }
}

/// Whether to try again to open the shared connection after an attempt failed with `error`, with
/// `retries_left` retries left; returns the retries left after the next attempt.
///
/// Only `AlreadyInitialized` is worth a retry: it can come from a connection whose last user is
/// still closing it.
pub fn retry_after(error: GencmdInitError, retries_left: usize) -> (r: Option<usize>)
    ensures
        r == if error == GencmdInitError::AlreadyInitialized && retries_left > 0 {
            Some((retries_left - 1) as usize)
        } else {
            None::<usize>
        },
{
    match error {
        GencmdInitError::AlreadyInitialized => if retries_left > 0 {
            Some(retries_left - 1)
        } else {
            None
        },
        _ => None,
    }
}

/// What closing connection `inst` on a host in state `before` leads to. Closing a closed
/// connection calls nothing. Else the gencmd service is stopped and vchi disconnected; a zero
/// disconnect status then releases vcos, gives up the host's claim and gives `Ok`, any other
/// status gives `VchiDisconnect` and leaves the claim as it was.
pub open spec fn close_outcome<T: Transport>(
    inst: GlobalInstance,
    before: Host<T>,
    after: Host<T>,
    r: Result<(), GencmdDeinitError>,
) -> bool {
    if inst.is_deinitialized_spec() {
        r is Ok && after == before
    } else {
        let made = calls_since(before, after);
        &&& extends(before, after)
        &&& made.len() > 1
        &&& made[0] == TransportCall::GencmdStop
        &&& made[1] is VchiDisconnect
        &&& made[1]->VchiDisconnect_0 == inst.handle()
        &&& if made[1]->VchiDisconnect_1 == 0 {
            &&& made.len() == 3
            &&& made[2] == TransportCall::VcosDeinit
            &&& r is Ok
            &&& !after.is_claimed()
        } else {
            &&& made.len() == 2
            &&& r == Err::<(), GencmdDeinitError>(GencmdDeinitError::VchiDisconnect)
            &&& after.is_claimed() == before.is_claimed()
        }
    }
}

/// Index of the first NUL in `b`, or its length where it holds none.
pub open spec fn nul_index(b: Seq<u8>) -> nat
    decreases b.len(),
{
    if b.len() == 0 || b[0] == 0 {
        0
    } else {
        1 + nul_index(b.skip(1))
    }
}

/// Index of the first NUL in `b`, or its length where it holds none.
pub fn find_nul(b: &Vec<u8>) -> (r: usize)
    ensures
        r == nul_index(b@),
        r <= b@.len(),
{
    let n = b.len();
    let mut i: usize = 0;
    assert(b@.skip(0) =~= b@);
    while i < n
        invariant
            n == b@.len(),
            i <= n,
            nul_index(b@) == i + nul_index(b@.skip(i as int)),
        decreases n - i,
    {
        if b[i] == 0 {
            return i;
        }
        assert(b@.skip(i as int).skip(1) =~= b@.skip(i + 1));
        i = i + 1;
    }
    i
}

/// Opening a connection twice on one host, with no close between, never succeeds twice:
/// after a successful open the second one fails with `AlreadyInitialized`.
pub proof fn lemma_at_most_one_instance<T: Transport>(
    h0: Host<T>,
    h1: Host<T>,
    h2: Host<T>,
    first: Result<GlobalInstance, GencmdInitError>,
    second: Result<GlobalInstance, GencmdInitError>,
)
    requires
        open_outcome(h0, h1, first),
        open_outcome(h1, h2, second),
    ensures
        !(first is Ok && second is Ok),
        first is Ok ==> second == Err::<GlobalInstance, GencmdInitError>(
            GencmdInitError::AlreadyInitialized,
        ),
        h0.is_claimed() ==> first == Err::<GlobalInstance, GencmdInitError>(
            GencmdInitError::AlreadyInitialized,
        ) && second == Err::<GlobalInstance, GencmdInitError>(GencmdInitError::AlreadyInitialized),
{
}

/// On a host with no live connection, an open succeeds exactly when every step of it succeeds;
/// then a second open, with no close between, fails with `AlreadyInitialized`. So of two opens
/// exactly one succeeds where the transport works.
pub proof fn lemma_exactly_one_instance<T: Transport>(
    h0: Host<T>,
    h1: Host<T>,
    h2: Host<T>,
    first: Result<GlobalInstance, GencmdInitError>,
    second: Result<GlobalInstance, GencmdInitError>,
)
    requires
        !h0.is_claimed(),
        open_outcome(h0, h1, first),
        open_outcome(h1, h2, second),
    ensures
        first is Ok <==> open_steps_succeed(calls_since(h0, h1)),
        first is Ok ==> second == Err::<GlobalInstance, GencmdInitError>(
            GencmdInitError::AlreadyInitialized,
        ),
        first is Err ==> !h1.is_claimed() && first != Err::<GlobalInstance, GencmdInitError>(
            GencmdInitError::AlreadyInitialized,
        ),
{
}

/// After a connection is closed successfully, the next open is not refused with
/// `AlreadyInitialized`, and it succeeds when every step of it does.
pub proof fn lemma_open_after_close<T: Transport>(
    inst: GlobalInstance,
    h0: Host<T>,
    h1: Host<T>,
    closed: Result<(), GencmdDeinitError>,
    h2: Host<T>,
    reopened: Result<GlobalInstance, GencmdInitError>,
)
    requires
        !inst.is_deinitialized_spec(),
        close_outcome(inst, h0, h1, closed),
        closed is Ok,
        open_outcome(h1, h2, reopened),
    ensures
        reopened != Err::<GlobalInstance, GencmdInitError>(GencmdInitError::AlreadyInitialized),
        open_steps_succeed(calls_since(h1, h2)) ==> reopened is Ok,
{
}

} // verus!
