use videocore_gencmd::{
    classify_response, retry_after, Gencmd, GencmdCmdError, GencmdDeinitError,
    GencmdErrorResponse, GencmdInitError, GencmdUnique, GlobalInstance, Host, MockTransport,
    ResponseFormatError, Transport, VcosError, GENCMD_MAX_LENGTH, VCOS_STATUS_T,
};

/// A transport whose answers are set by each test, and which counts what it is asked.
struct Scripted {
    init: u32,
    initialise: (i32, usize),
    connect: i32,
    disconnect: i32,
    send: i32,
    read: i32,
    response: Vec<u8>,
    calls: usize,
    frames: Vec<Vec<u8>>,
}

impl Scripted {
    fn new(response: &[u8]) -> Self {
        Scripted {
            init: 0,
            initialise: (0, 7),
            connect: 0,
            disconnect: 0,
            send: 0,
            read: 0,
            response: response.to_vec(),
            calls: 0,
            frames: Vec::new(),
        }
    }
}

impl Transport for Scripted {
    fn vcos_init(&mut self) -> VCOS_STATUS_T {
        self.calls += 1;
        VCOS_STATUS_T(self.init)
    }

    fn vcos_deinit(&mut self) {
        self.calls += 1;
    }

    fn vchi_initialise(&mut self) -> (i32, usize) {
        self.calls += 1;
        self.initialise
    }

    fn vchi_connect(&mut self, _instance: usize) -> i32 {
        self.calls += 1;
        self.connect
    }

    fn vchi_disconnect(&mut self, _instance: usize) -> i32 {
        self.calls += 1;
        self.disconnect
    }

    fn vc_vchi_gencmd_init(&mut self, _instance: usize) -> usize {
        self.calls += 1;
        3
    }

    fn vc_gencmd_stop(&mut self) {
        self.calls += 1;
    }

    fn vc_gencmd_send(&mut self, frame: &[u8]) -> i32 {
        self.calls += 1;
        self.frames.push(frame.to_vec());
        self.send
    }

    fn vc_gencmd_read_response(&mut self, buffer: &mut Vec<u8>) -> i32 {
        self.calls += 1;
        for (i, b) in self.response.iter().enumerate() {
            buffer[i] = *b;
        }
        self.read
    }
}

fn with_response(response: &[u8]) -> (Host<Scripted>, GlobalInstance, Gencmd) {
    let mut host = Host::new(Scripted::new(response));
    let instance = GlobalInstance::new(&mut host).unwrap();
    (host, instance, Gencmd::new())
}

#[test]
fn command_at_max_length_is_too_long_and_sends_nothing() {
    let (mut host, mut instance, mut gencmd) = with_response(b"ok=1\0");
    let command = "a".repeat(GENCMD_MAX_LENGTH);
    let r = gencmd.send_cmd_raw(&mut instance, &mut host, &command);
    assert!(matches!(r, Err(GencmdCmdError::CommandTooLong)));
    let longer = "b".repeat(GENCMD_MAX_LENGTH + 40);
    let r = gencmd.send_cmd_raw(&mut instance, &mut host, &longer);
    assert!(matches!(r, Err(GencmdCmdError::CommandTooLong)));
    instance.deinit(&mut host).unwrap();
}

#[test]
fn command_one_below_max_length_is_sent_with_its_terminator() {
    let mut host = Host::new(Scripted::new(b"ok=1\0"));
    let mut instance = GlobalInstance::new(&mut host).unwrap();
    let mut gencmd = Gencmd::new();
    let command = "c".repeat(GENCMD_MAX_LENGTH - 1);
    let r = gencmd.send_cmd_raw(&mut instance, &mut host, &command).unwrap();
    assert_eq!(r, "ok=1");
}

#[test]
fn error_response_one_is_command_not_registered() {
    let (mut host, mut instance, mut gencmd) =
        with_response(b"error=1 error_msg=\"command not registered\"\0");
    let r = gencmd.send_cmd_raw(&mut instance, &mut host, "nope");
    assert!(matches!(
        r,
        Err(GencmdCmdError::ErrorResponse(GencmdErrorResponse::CommandNotRegistered))
    ));
}

#[test]
fn error_response_two_is_invalid_arguments() {
    let r = classify_response("error=2 error_msg=\"invalid arguments\"");
    assert!(matches!(
        r,
        Err(GencmdCmdError::ErrorResponse(GencmdErrorResponse::InvalidArguments))
    ));
    assert_eq!(GencmdErrorResponse::InvalidArguments.code(), 2);
    assert_eq!(GencmdErrorResponse::CommandNotRegistered.code(), 1);
}

#[test]
fn unknown_error_code_is_invalid_format() {
    let r = Gencmd::parse_error("error=3 error_msg=\"other\"");
    assert!(matches!(
        r,
        Err(GencmdCmdError::InvalidResponseFormat(ResponseFormatError::InvalidCode(3)))
    ));
}

#[test]
fn error_without_message_is_invalid_format() {
    let r = classify_response("error=1");
    assert!(matches!(
        r,
        Err(GencmdCmdError::InvalidResponseFormat(ResponseFormatError::Str(_)))
    ));
    let r = classify_response("error=x error_msg=\"m\"");
    assert!(matches!(
        r,
        Err(GencmdCmdError::InvalidResponseFormat(ResponseFormatError::Int(_)))
    ));
}

#[test]
fn success_response_is_returned_as_it_is() {
    assert_eq!(classify_response("temp=45.6'C").unwrap(), "temp=45.6'C");
    assert_eq!(classify_response("").unwrap(), "");
}

#[test]
fn response_that_is_not_utf8_is_an_error() {
    let (mut host, mut instance, mut gencmd) = with_response(b"a=\xff\xfe\0");
    let r = gencmd.send_cmd_raw(&mut instance, &mut host, "x");
    assert!(matches!(r, Err(GencmdCmdError::Utf8(_))));
}

#[test]
fn send_and_read_failures_are_reported() {
    let mut host = Host::new(Scripted { send: -1, ..Scripted::new(b"a=1\0") });
    let mut instance = GlobalInstance::new(&mut host).unwrap();
    let mut gencmd = Gencmd::new();
    let r = gencmd.send_cmd_raw(&mut instance, &mut host, "x");
    assert!(matches!(r, Err(GencmdCmdError::Send)));

    let mut host = Host::new(Scripted { read: -1, ..Scripted::new(b"a=1\0") });
    let mut instance = GlobalInstance::new(&mut host).unwrap();
    let r = gencmd.send_cmd_raw(&mut instance, &mut host, "x");
    assert!(matches!(r, Err(GencmdCmdError::Read)));
    let r = gencmd.send_cmd_raw(&mut instance, &mut host, "y");
    assert!(matches!(r, Err(GencmdCmdError::Read)));
}

#[test]
fn open_failures_give_up_the_claim() {
    let mut host = Host::new(Scripted { init: 5, ..Scripted::new(b"\0") });
    let r = GlobalInstance::new(&mut host);
    assert!(matches!(r, Err(GencmdInitError::VcosInit(VcosError::Access))));
    assert!(!host.has_instance());

    let mut host = Host::new(Scripted { initialise: (0, 0), ..Scripted::new(b"\0") });
    assert!(matches!(GlobalInstance::new(&mut host), Err(GencmdInitError::VchiInit)));
    assert!(!host.has_instance());

    let mut host = Host::new(Scripted { initialise: (-1, 9), ..Scripted::new(b"\0") });
    assert!(matches!(GlobalInstance::new(&mut host), Err(GencmdInitError::VchiInit)));

    let mut host = Host::new(Scripted { connect: 1, ..Scripted::new(b"\0") });
    assert!(matches!(GlobalInstance::new(&mut host), Err(GencmdInitError::VchiConnect)));
    assert!(!host.has_instance());
    assert!(GlobalInstance::new(&mut host).is_err());
}

#[test]
fn vcos_status_maps_to_errors() {
    assert!(VCOS_STATUS_T(0).to_result().is_ok());
    assert!(matches!(VCOS_STATUS_T(1).to_result(), Err(VcosError::Again)));
    assert!(matches!(VCOS_STATUS_T(4).to_result(), Err(VcosError::Invalid)));
    assert!(matches!(VCOS_STATUS_T(10).to_result(), Err(VcosError::Interrupt)));
}

#[test]
fn second_open_is_already_initialized() {
    let mut host = Host::new(MockTransport::new());
    let first = GlobalInstance::new(&mut host).unwrap();
    assert!(matches!(GlobalInstance::new(&mut host), Err(GencmdInitError::AlreadyInitialized)));
    assert!(matches!(GencmdUnique::new(&mut host), Err(GencmdInitError::AlreadyInitialized)));
    first.deinit(&mut host).unwrap();
    assert!(!host.has_instance());
    let again = GlobalInstance::new(&mut host).unwrap();
    assert!(!again.is_deinitialized());
}

#[test]
fn close_is_idempotent() {
    let mut host = Host::new(MockTransport::new());
    let mut instance = GlobalInstance::new(&mut host).unwrap();
    instance.deinit_ref_mut(&mut host).unwrap();
    assert!(instance.is_deinitialized());
    instance.deinit_ref_mut(&mut host).unwrap();
    assert!(instance.is_deinitialized());
}

#[test]
fn failed_disconnect_is_reported_and_keeps_the_connection() {
    let mut host = Host::new(Scripted { disconnect: 2, ..Scripted::new(b"\0") });
    let mut instance = GlobalInstance::new(&mut host).unwrap();
    let r = instance.deinit_ref_mut(&mut host);
    assert!(matches!(r, Err(GencmdDeinitError::VchiDisconnect)));
    assert!(!instance.is_deinitialized());
    assert!(host.has_instance());
}

#[test]
fn retry_budget_counts_down_on_already_initialized_only() {
    assert_eq!(retry_after(GencmdInitError::AlreadyInitialized, 3), Some(2));
    assert_eq!(retry_after(GencmdInitError::AlreadyInitialized, 0), None);
    assert_eq!(retry_after(GencmdInitError::VchiConnect, 3), None);
    let mut host = Host::new(MockTransport::new());
    let _held = GlobalInstance::new(&mut host).unwrap();
    let mut left = 4usize;
    let mut attempts = 0;
    let outcome = loop {
        attempts += 1;
        match GlobalInstance::new(&mut host) {
            Ok(i) => break Ok(i),
            Err(e) => match retry_after(e, left) {
                Some(l) => left = l,
                None => break Err(e),
            },
        }
    };
    assert!(matches!(outcome, Err(GencmdInitError::AlreadyInitialized)));
    assert_eq!(attempts, 5);
}
