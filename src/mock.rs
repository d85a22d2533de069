//! A stand-in for the service that answers a few commands with fixed responses, for use where
//! no VideoCore is at hand.
use vstd::prelude::*;

use crate::error::VCOS_STATUS_T;
use crate::transport::Transport;
use vstd::string::StringSliceAdditionalSpecFns;

verus! {

const RESPONSE_ERROR_1: &'static str = "error=1 error_msg=\"command not registered\"";

const RESPONSE_ERROR_2: &'static str = "error=2 error_msg=\"invalid arguments\"";

const RESPONSE_COMMANDS: &'static str = "commands=\"vcos, ap_output_control, ap_output_post_processing, vchi_test_init, vchi_test_exit, pm_set_policy, pm_get_status, pm_show_stats, pm_start_logging, pm_stop_logging, version, commands, set_vll_dir, set_backlight, set_logging, get_lcd_info, arbiter, cache_flush, otp_dump, test_result, codec_enabled, get_camera, get_mem, measure_clock, measure_volts, enable_clock, scaling_kernel, scaling_sharpness, get_hvs_asserts, get_throttled, measure_temp, get_config, hdmi_ntsc_freqs, hdmi_adjust_clock, hdmi_status_show, hvs_update_fields, pwm_speedup, force_audio, hdmi_stream_channels, hdmi_channel_map, display_power, read_ring_osc, memtest, dispmanx_list, get_rsts, schmoo, render_bar, disk_notify, inuse_notify, sus_suspend, sus_status, sus_is_enabled, sus_stop_test_thread, egl_platform_switch, mem_validate, mem_oom, mem_reloc_stats, hdmi_cvt, hdmi_timings, readmr, pmicrd, pmicwr, bootloader_version, bootloader_config, file, vctest_memmap, vctest_start, vctest_stop, vctest_set, vctest_get\"";

const RESPONSE_GET_THROTTLED: &'static str = "throttled=0x0";

const RESPONSE_MEASURE_CLOCK_ARM: &'static str = "frequency(48)=6000000";

const RESPONSE_MEASURE_TEMP: &'static str = "temp=45.6'C";

/// A transport that needs no VideoCore: every layer initializes, and each request is answered
/// with a fixed response (`error=1` for a command that it does not know).
pub struct MockTransport {
    response: Vec<u8>,
}

/// Whether `frame` holds exactly the bytes of `text` before its first NUL.
fn frame_is(frame: &[u8], text: &str) -> (r: bool) {
    let t = text.as_bytes();
    let n = t.len();
    if frame.len() <= n || frame[n] != 0 {
        return false;
    }
    let mut i: usize = 0;
    while i < n
        invariant
            n == t@.len(),
            n < frame@.len(),
            i <= n,
        decreases n - i,
    {
        if frame[i] != t[i] {
            return false;
        }
        i = i + 1;
    }
    true
}

/// The bytes of `text` followed by a NUL.
fn nul_terminated(text: &str) -> (r: Vec<u8>)
    ensures
        r@.len() == text.spec_bytes().len() + 1,
{
    let t = text.as_bytes();
    let mut r: Vec<u8> = Vec::new();
    let mut i: usize = 0;
    while i < t.len()
        invariant
            i <= t@.len(),
            r@.len() == i,
        decreases t@.len() - i,
    {
        r.push(t[i]);
        i = i + 1;
    }
    r.push(0u8);
    r
}

impl MockTransport {
    /// A transport that has seen no request yet.
    pub fn new() -> Self {
        MockTransport { response: nul_terminated(RESPONSE_ERROR_1) }
    }
}

impl Transport for MockTransport {
    fn vcos_init(&mut self) -> (r: VCOS_STATUS_T) {
        VCOS_STATUS_T(0)
    }

    fn vcos_deinit(&mut self) {
    }

    fn vchi_initialise(&mut self) -> (i32, usize) {
        (0, 1)
    }

    fn vchi_connect(&mut self, instance: usize) -> i32 {
        0
    }

    fn vchi_disconnect(&mut self, instance: usize) -> i32 {
        0
    }

    fn vc_vchi_gencmd_init(&mut self, instance: usize) -> usize {
        1
    }

    fn vc_gencmd_stop(&mut self) {
    }

    fn vc_gencmd_send(&mut self, frame: &[u8]) -> i32 {
        let response = if frame_is(frame, "commands") {
            RESPONSE_COMMANDS
        } else if frame_is(frame, "get_throttled") {
            RESPONSE_GET_THROTTLED
        } else if frame_is(frame, "measure_clock") {
            RESPONSE_ERROR_2
        } else if frame_is(frame, "measure_clock arm") {
            RESPONSE_MEASURE_CLOCK_ARM
        } else if frame_is(frame, "measure_temp") {
            RESPONSE_MEASURE_TEMP
        } else {
            RESPONSE_ERROR_1
        };
        self.response = nul_terminated(response);
        0
    }

    fn vc_gencmd_read_response(&mut self, buffer: &mut Vec<u8>) -> (r: i32) {
        let n = self.response.len();
        if buffer.len() < n {
            if buffer.len() > 0 {
                buffer.set(0, 0u8);
            }
            return -1;
        }
        let mut i: usize = 0;
        while i < n
            invariant
                n == self.response@.len(),
                n <= buffer@.len(),
                buffer@.len() == old(buffer)@.len(),
                i <= n,
            decreases n - i,
        {
            buffer.set(i, self.response[i]);
            i = i + 1;
        }
        0
    }
}

} // verus!
