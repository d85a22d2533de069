use videocore_gencmd::transport::{opaque_vchi_instance_handle_t, vchi_connection_t};
use videocore_gencmd::{
    CmdCommands, CmdGetThrottled, CmdMeasureClockArm, CmdMeasureTemp, CpuThrottled, Gencmd,
    GencmdUnique, GlobalInstance, Host, MockTransport, ThrottleStatus,
};

fn open() -> (Host<MockTransport>, GlobalInstance, Gencmd) {
    let mut host = Host::new(MockTransport::new());
    let instance = GlobalInstance::new(&mut host).unwrap();
    (host, instance, Gencmd::new())
}

#[test]
fn commands_test_cmd_commands() {
    let (mut host, mut instance, mut gencmd) = open();

    let commands = gencmd.cmd_commands(&mut instance, &mut host).unwrap();

    assert!(commands.contains(&"commands"));
    assert!(commands.contains(&"measure_clock"));
    assert!(commands.contains(&"measure_temp"));
    assert!(commands.contains(&"get_throttled"));
}

#[test]
fn commands_test_cmd_measure_clock_arm() {
    let (mut host, mut instance, mut gencmd) = open();

    let freq = gencmd.cmd_measure_clock_arm(&mut instance, &mut host).unwrap();

    assert!(freq > 0);
}

#[test]
fn commands_test_cmd_get_throttled() {
    let (mut host, mut instance, mut gencmd) = open();

    gencmd.cmd_get_throttled(&mut instance, &mut host).unwrap();
}

#[test]
fn commands_test_cmd_measure_temp() {
    let (mut host, mut instance, mut gencmd) = open();

    let temp = gencmd.cmd_measure_temp(&mut instance, &mut host).unwrap();

    assert!(temp.0.parse::<f32>().unwrap() > 0.0);
}

#[test]
fn bindgen_test_layout_vchi_connection_t() {
    assert_eq!(
        std::mem::size_of::<vchi_connection_t>(),
        24usize,
        "Size of: vchi_connection_t"
    );
    assert_eq!(
        std::mem::align_of::<vchi_connection_t>(),
        8usize,
        "Alignment of vchi_connection_t"
    );
    assert_eq!(std::mem::size_of::<opaque_vchi_instance_handle_t>(), 0);
}

#[test]
fn mock_answers_each_command() {
    let (mut host, mut instance, mut gencmd) = open();
    assert_eq!(gencmd.cmd_measure_clock_arm(&mut instance, &mut host).unwrap(), 6000000);
    assert_eq!(gencmd.cmd_measure_temp(&mut instance, &mut host).unwrap().0, "45.6");
    let throttled = gencmd.cmd_get_throttled(&mut instance, &mut host).unwrap();
    assert_eq!(throttled, CpuThrottled::default());
    let commands = gencmd.cmd_commands(&mut instance, &mut host).unwrap();
    assert_eq!(commands.len(), 70);
    assert_eq!(commands[0], "vcos");
    assert_eq!(commands[69], "vctest_get");
}

#[test]
fn unique_sends_typed_commands() {
    let mut host = Host::new(MockTransport::new());
    let mut gencmd = GencmdUnique::new(&mut host).unwrap();
    let freq = gencmd.send_cmd::<CmdMeasureClockArm, _>(&mut host).unwrap();
    assert_eq!(freq, 6000000);
    let temp = gencmd.send_cmd::<CmdMeasureTemp, _>(&mut host).unwrap();
    assert_eq!(temp.0, "45.6");
    let throttled = gencmd.send_cmd::<CmdGetThrottled, _>(&mut host).unwrap();
    assert_eq!(u32::from(throttled), 0);
    let commands = gencmd.send_cmd::<CmdCommands, _>(&mut host).unwrap();
    assert!(commands.contains(&"get_throttled"));
    assert_eq!(gencmd.send_cmd_raw(&mut host, "measure_clock arm").unwrap(), "frequency(48)=6000000");
}

#[test]
fn throttle_status_reads_its_bits() {
    let s = ThrottleStatus::from_current(0b0101);
    assert!(s.under_voltage);
    assert!(!s.frequency_capped);
    assert!(s.throttled);
    assert!(!s.soft_temperature_limit);
    assert_eq!(s.to_current(), 0b0101);
    assert_eq!(s.to_occured(), 0b0101 << 16);
    let o = ThrottleStatus::from_occured(0xA_0000);
    assert!(!o.under_voltage && o.frequency_capped && !o.throttled && o.soft_temperature_limit);
}

#[test]
fn throttled_word_round_trips_its_flag_bits() {
    for v in [0u32, 0x5_0005, 0xF_000F, 0xFFFF_FFFF, 0x1234_5678] {
        let t = CpuThrottled::from(v);
        assert_eq!(u32::from(t), v & 0x000F_000F);
        assert_eq!(CpuThrottled::from(u32::from(t)), t);
    }
    let t = CpuThrottled::from(0x0002_0001);
    assert!(t.current.under_voltage && !t.current.frequency_capped);
    assert!(t.occured.frequency_capped && !t.occured.under_voltage);
}
