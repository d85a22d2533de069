//! The commands that the library knows, with the models of their responses.
use vstd::prelude::*;

use crate::error::{GencmdCmdError, ResponseFormatError};
use crate::gencmd::{command_result, Command, Gencmd};
use crate::global::{GlobalInstance, Host};
use crate::response::{
    decimal_field, int_field, int_span_end, parse_field, parse_field_simple, str_field, DecimalStr, IntRadix,
};
use crate::transport::Transport;

verus! {

// ---------------------------------------------------------------------------
// Throttling flags
// ---------------------------------------------------------------------------

/// One set of throttling flags, as the low four bits of a `get_throttled` word report them.
#[derive(Default, Debug, Clone, Copy, PartialEq, Eq, Structural)]
pub struct ThrottleStatus {
    pub under_voltage: bool,
    pub frequency_capped: bool,
    pub throttled: bool,
    pub soft_temperature_limit: bool,
}

/// The flags that the low four bits of `value` stand for.
pub open spec fn status_of(value: u32) -> ThrottleStatus {
    ThrottleStatus {
        under_voltage: value & 1 != 0,
        frequency_capped: value & 2 != 0,
        throttled: value & 4 != 0,
        soft_temperature_limit: value & 8 != 0,
    }
}

/// The bit that a flag stands for, or none where it is not set.
pub open spec fn flag_bit(set: bool, bit: u32) -> u32 {
    if set {
        bit
    } else {
        0
    }
}

/// The low four bits that flags `s` stand for.
pub open spec fn bits_of(s: ThrottleStatus) -> u32 {
    flag_bit(s.under_voltage, 1) | flag_bit(s.frequency_capped, 2) | flag_bit(s.throttled, 4)
        | flag_bit(s.soft_temperature_limit, 8)
}

impl ThrottleStatus {
    pub const BIT_UNDER_VOLTAGE: u32 = 1;

    pub const BIT_FREQUENCT_CAPPED: u32 = 2;

    pub const BIT_THROTTLED: u32 = 4;

    pub const BIT_SOFT_TEMPERATURE_LIMIT: u32 = 8;

    pub const SHIFT_OCCURED: u32 = 16;

    /// The flags that hold now: the low four bits of `value`.
    pub fn from_current(value: u32) -> (r: Self)
        ensures
            r == status_of(value),
    {
        ThrottleStatus {
            under_voltage: value & Self::BIT_UNDER_VOLTAGE != 0,
            frequency_capped: value & Self::BIT_FREQUENCT_CAPPED != 0,
            throttled: value & Self::BIT_THROTTLED != 0,
            soft_temperature_limit: value & Self::BIT_SOFT_TEMPERATURE_LIMIT != 0,
        }
    }

    /// The flags that have held since boot: bits 16 to 19 of `value`.
    pub fn from_occured(value: u32) -> (r: Self)
        ensures
            r == status_of(value >> 16),
    {
        Self::from_current(value >> Self::SHIFT_OCCURED)
    }

    /// The flags as the low four bits of a word.
    pub fn to_current(self) -> (r: u32)
        ensures
            r == bits_of(self),
    {
        let a: u32 = if self.under_voltage {
            Self::BIT_UNDER_VOLTAGE
        } else {
            0
        };
        let b: u32 = if self.frequency_capped {
            Self::BIT_FREQUENCT_CAPPED
        } else {
            0
        };
        let c: u32 = if self.throttled {
            Self::BIT_THROTTLED
        } else {
            0
        };
        let d: u32 = if self.soft_temperature_limit {
            Self::BIT_SOFT_TEMPERATURE_LIMIT
        } else {
            0
        };
        a | b | c | d
    }

    /// The flags as bits 16 to 19 of a word.
    pub fn to_occured(self) -> (r: u32)
        ensures
            r == bits_of(self) << 16,
    {
        let v = self.to_current();
        proof {
            lemma_bits_small(self);
        }
        v << Self::SHIFT_OCCURED
    }
}

/// The throttling state of the CPU: the flags that hold now and those that held at some time
/// since boot.
#[derive(Default, Debug, Clone, Copy, PartialEq, Eq, Structural)]
pub struct CpuThrottled {
    pub current: ThrottleStatus,
    pub occured: ThrottleStatus,
}

/// The throttling state that a `get_throttled` word reports.
pub open spec fn throttled_of(value: u32) -> CpuThrottled {
    CpuThrottled { current: status_of(value), occured: status_of(value >> 16) }
}

/// The `get_throttled` word for a throttling state.
pub open spec fn word_of(t: CpuThrottled) -> u32 {
    bits_of(t.current) | (bits_of(t.occured) << 16)
}

impl From<u32> for CpuThrottled {
    fn from(value: u32) -> (r: Self)
        ensures
            r == throttled_of(value),
    {
        CpuThrottled {
            current: ThrottleStatus::from_current(value),
            occured: ThrottleStatus::from_occured(value),
        }
    }
}

impl vstd::std_specs::convert::FromSpecImpl<u32> for CpuThrottled {
    open spec fn obeys_from_spec() -> bool {
        true
    }

    open spec fn from_spec(v: u32) -> CpuThrottled {
        throttled_of(v)
    }
}

impl From<CpuThrottled> for u32 {
    fn from(value: CpuThrottled) -> (r: Self)
        ensures
            r == word_of(value),
    {
        value.current.to_current() | value.occured.to_occured()
    }
}

impl vstd::std_specs::convert::FromSpecImpl<CpuThrottled> for u32 {
    open spec fn obeys_from_spec() -> bool {
        true
    }

    open spec fn from_spec(v: CpuThrottled) -> u32 {
        word_of(v)
    }
}

/// The bits of a set of flags fit in the low four bits.
proof fn lemma_bits_small(s: ThrottleStatus)
    ensures
        bits_of(s) <= 15,
{
    let (a, b, c, d) = (
        flag_bit(s.under_voltage, 1),
        flag_bit(s.frequency_capped, 2),
        flag_bit(s.throttled, 4),
        flag_bit(s.soft_temperature_limit, 8),
    );
    assert(a | b | c | d <= 15) by (bit_vector)
        requires
            a == 0 || a == 1,
            b == 0 || b == 2,
            c == 0 || c == 4,
            d == 0 || d == 8,
    ;
}

/// Reading flags back from their bits gives the same flags.
pub proof fn lemma_status_round_trip(s: ThrottleStatus)
    ensures
        status_of(bits_of(s)) == s,
{
    let (a, b, c, d) = (
        flag_bit(s.under_voltage, 1),
        flag_bit(s.frequency_capped, 2),
        flag_bit(s.throttled, 4),
        flag_bit(s.soft_temperature_limit, 8),
    );
    let v = bits_of(s);
    assert((v & 1 != 0 <==> a == 1) && (v & 2 != 0 <==> b == 2) && (v & 4 != 0 <==> c == 4) && (v
        & 8 != 0 <==> d == 8)) by (bit_vector)
        requires
            a == 0 || a == 1,
            b == 0 || b == 2,
            c == 0 || c == 4,
            d == 0 || d == 8,
            v == a | b | c | d,
    ;
}

/// A throttling state survives the trip to its word and back.
pub proof fn lemma_throttled_round_trip(t: CpuThrottled)
    ensures
        throttled_of(word_of(t)) == t,
{
    let x = bits_of(t.current);
    let y = bits_of(t.occured);
    let w = word_of(t);
    lemma_bits_small(t.current);
    lemma_bits_small(t.occured);
    assert(w & 1 == x & 1 && w & 2 == x & 2 && w & 4 == x & 4 && w & 8 == x & 8 && (w >> 16) == y)
        by (bit_vector)
        requires
            x <= 15,
            y <= 15,
            w == x | (y << 16),
    ;
    lemma_status_round_trip(t.current);
    lemma_status_round_trip(t.occured);
}

/// A word survives the trip to a throttling state and back in its flag bits, 0 to 3 and 16 to 19.
pub proof fn lemma_word_round_trip(v: u32)
    ensures
        word_of(throttled_of(v)) == v & 0x000F_000F,
{
    let u = v >> 16;
    let (a, b, c, d) = (
        flag_bit(v & 1 != 0, 1),
        flag_bit(v & 2 != 0, 2),
        flag_bit(v & 4 != 0, 4),
        flag_bit(v & 8 != 0, 8),
    );
    let (e, f, g, h) = (
        flag_bit(u & 1 != 0, 1),
        flag_bit(u & 2 != 0, 2),
        flag_bit(u & 4 != 0, 4),
        flag_bit(u & 8 != 0, 8),
    );
    assert(a == v & 1 && b == v & 2 && c == v & 4 && d == v & 8) by (bit_vector)
        requires
            a == (if v & 1 != 0 { 1u32 } else { 0u32 }),
            b == (if v & 2 != 0 { 2u32 } else { 0u32 }),
            c == (if v & 4 != 0 { 4u32 } else { 0u32 }),
            d == (if v & 8 != 0 { 8u32 } else { 0u32 }),
    ;
    assert(e == u & 1 && f == u & 2 && g == u & 4 && h == u & 8) by (bit_vector)
        requires
            e == (if u & 1 != 0 { 1u32 } else { 0u32 }),
            f == (if u & 2 != 0 { 2u32 } else { 0u32 }),
            g == (if u & 4 != 0 { 4u32 } else { 0u32 }),
            h == (if u & 8 != 0 { 8u32 } else { 0u32 }),
    ;
    assert(((v & 1) | (v & 2) | (v & 4) | (v & 8)) | (((u & 1) | (u & 2) | (u & 4) | (u & 8)) << 16)
        == v & 0x000F_000F) by (bit_vector)
        requires
            u == v >> 16,
    ;
}

// ---------------------------------------------------------------------------
// Commands
// ---------------------------------------------------------------------------

/// The pieces of `parts` joined, with `sep` between each two.
pub open spec fn joined(parts: Seq<Seq<char>>, sep: Seq<char>) -> Seq<char>
    decreases parts.len(),
{
    if parts.len() == 0 {
        Seq::empty()
    } else if parts.len() == 1 {
        parts[0]
    } else {
        joined(parts.drop_last(), sep) + sep + parts.last()
    }
}

/// Whether `p` occurs in `s`.
pub open spec fn contains_text(s: Seq<char>, p: Seq<char>) -> bool {
    exists|i: int| 0 <= i <= s.len() - p.len() && #[trigger] s.subrange(i, i + p.len()) == p
}

/// Whether `parts` are the pieces of `s` between the occurrences of `sep`, in order.
pub open spec fn split_into(s: Seq<char>, sep: Seq<char>, parts: Seq<Seq<char>>) -> bool {
    &&& parts.len() > 0
    &&& joined(parts, sep) == s
    &&& forall|i: int| 0 <= i < parts.len() ==> !contains_text(#[trigger] parts[i], sep)
}

/// The characters of each piece.
pub open spec fn views<'a>(parts: Seq<&'a str>) -> Seq<Seq<char>> {
    parts.map_values(|p: &'a str| p@)
}

/// Relies on `str::split` with the pattern `", "`, collected: the pieces of `s` between the
/// occurrences of `", "`, in order.
#[verifier::external_body]
fn split_list<'a>(s: &'a str) -> (r: Vec<&'a str>)
    ensures
        split_into(s@, ", "@, views(r@)),
{
    s.split(", ").collect()
}

/// `commands`: the list of the commands that the service knows.
pub struct CmdCommands;

impl<'a> Command<'a> for CmdCommands {
    type Response = Vec<&'a str>;

    fn command_str() -> (r: &'static str) {
        "commands"
    }

    open spec fn command_text() -> Seq<char> {
        "commands"@
    }

    open spec fn parsed(s: Seq<char>, r: Result<Vec<&'a str>, GencmdCmdError>) -> bool {
        match str_field(s, "commands"@) {
            Some((list, _)) => r is Ok && split_into(list, ", "@, views(r->Ok_0@)),
            None => r matches Err(
                GencmdCmdError::InvalidResponseFormat(ResponseFormatError::Str(_)),
            ),
        }
    }

    fn parse_response(response: &'a str) -> (r: Result<Vec<&'a str>, GencmdCmdError>) {
        let (_, commands) = match parse_field_simple::<&str>(response, "commands") {
            Ok(field) => field,
            Err(e) => {
                return Err(GencmdCmdError::from_invalid_format(ResponseFormatError::Str(e)));
            },
        };
        Ok(split_list(commands))
    }
}

/// `measure_temp`: the temperature of the SoC in degrees Celsius, as decimal text.
pub struct CmdMeasureTemp;

impl<'a> Command<'a> for CmdMeasureTemp {
    type Response = DecimalStr<'a>;

    fn command_str() -> (r: &'static str) {
        "measure_temp"
    }

    open spec fn command_text() -> Seq<char> {
        "measure_temp"@
    }

    open spec fn parsed(s: Seq<char>, r: Result<DecimalStr<'a>, GencmdCmdError>) -> bool {
        match decimal_field(s, "temp"@, Seq::empty(), "'C"@) {
            Some((t, _)) => r is Ok && r->Ok_0.0@ == t,
            None => r matches Err(
                GencmdCmdError::InvalidResponseFormat(ResponseFormatError::Decimal(_)),
            ),
        }
    }

    fn parse_response(response: &'a str) -> (r: Result<DecimalStr<'a>, GencmdCmdError>) {
        let r = parse_field::<DecimalStr>(response, "temp", None, Some("'C"));
        proof {
            if let Some(st) = crate::response::value_start(response@, "temp"@, Seq::empty()) {
                crate::response::lemma_decimal_span_bounds(response@.skip(st), 0, false);
            }
        }
        match r {
            Ok((_, temperature)) => Ok(temperature),
            Err(e) => Err(GencmdCmdError::from_invalid_format(ResponseFormatError::Decimal(e))),
        }
    }
}

/// `measure_clock arm`: the frequency of the ARM cores in hertz.
pub struct CmdMeasureClockArm;

impl<'a> Command<'a> for CmdMeasureClockArm {
    type Response = u64;

    fn command_str() -> (r: &'static str) {
        "measure_clock arm"
    }

    open spec fn command_text() -> Seq<char> {
        "measure_clock arm"@
    }

    open spec fn parsed(s: Seq<char>, r: Result<u64, GencmdCmdError>) -> bool {
        match int_field(s, "frequency(48)"@, Seq::empty(), 10, false, 0, u64::MAX as int) {
            Some((f, _)) => r == Ok::<u64, GencmdCmdError>(f as u64),
            None => r matches Err(GencmdCmdError::InvalidResponseFormat(ResponseFormatError::Int(_))),
        }
    }

    fn parse_response(response: &'a str) -> (r: Result<u64, GencmdCmdError>) {
        let r = parse_field_simple::<u64>(response, "frequency(48)");
        proof {
            if let Some(st) = crate::response::value_start(
                response@,
                "frequency(48)"@,
                Seq::empty(),
            ) {
                crate::response::lemma_int_span_bounds(response@.skip(st), 0, 10);
            }
        }
        match r {
            Ok((_, frequency)) => Ok(frequency),
            Err(e) => Err(GencmdCmdError::from_invalid_format(ResponseFormatError::Int(e))),
        }
    }
}

/// `get_throttled`: the throttling state of the CPU, reported as a hexadecimal word.
pub struct CmdGetThrottled;

impl<'a> Command<'a> for CmdGetThrottled {
    type Response = CpuThrottled;

    fn command_str() -> (r: &'static str) {
        "get_throttled"
    }

    open spec fn command_text() -> Seq<char> {
        "get_throttled"@
    }

    open spec fn parsed(s: Seq<char>, r: Result<CpuThrottled, GencmdCmdError>) -> bool {
        match int_field(s, "throttled"@, "0x"@, 16, false, 0, u32::MAX as int) {
            Some((w, _)) => r == Ok::<CpuThrottled, GencmdCmdError>(throttled_of(w as u32)),
            None => r matches Err(GencmdCmdError::InvalidResponseFormat(ResponseFormatError::Int(_))),
        }
    }

    fn parse_response(response: &'a str) -> (r: Result<CpuThrottled, GencmdCmdError>) {
        let r = parse_field::<IntRadix<u32, 16>>(response, "throttled", Some("0x"), None);
        proof {
            if let Some(st) = crate::response::value_start(response@, "throttled"@, "0x"@) {
                let t = response@.skip(st);
                crate::response::lemma_int_span_bounds(t, 0, 16);
                assert(t.skip(int_span_end(t, 0, 16)).take(0) =~= Seq::<char>::empty());
            }
        }
        match r {
            Ok((_, throttled)) => Ok(CpuThrottled::from(throttled.0)),
            Err(e) => Err(GencmdCmdError::from_invalid_format(ResponseFormatError::Int(e))),
        }
    }
}

impl Gencmd {
    /// Sends `commands` and returns the names of the commands that the service knows.
    pub fn cmd_commands<'a, T: Transport>(
        &'a mut self,
        instance: &mut GlobalInstance,
        host: &mut Host<T>,
    ) -> (r: Result<Vec<&'a str>, GencmdCmdError>)
        requires
            old(self).wf(),
            !old(instance).is_deinitialized_spec(),
            !old(instance).awaiting_response(),
        ensures
            final(self).wf(),
            !final(instance).awaiting_response(),
            final(instance).handle() == old(instance).handle(),
            final(host).is_claimed() == old(host).is_claimed(),
            final(host).calls().take(old(host).calls().len() as int) == old(host).calls(),
            command_result::<CmdCommands>(
                final(host).calls().skip(old(host).calls().len() as int),
                final(self).buffer(),
                r,
            ),
    {
        self.send_cmd::<CmdCommands, T>(instance, host)
    }

    /// Sends `measure_temp` and returns the temperature as decimal text.
    pub fn cmd_measure_temp<'a, T: Transport>(
        &'a mut self,
        instance: &mut GlobalInstance,
        host: &mut Host<T>,
    ) -> (r: Result<DecimalStr<'a>, GencmdCmdError>)
        requires
            old(self).wf(),
            !old(instance).is_deinitialized_spec(),
            !old(instance).awaiting_response(),
        ensures
            final(self).wf(),
            !final(instance).awaiting_response(),
            final(instance).handle() == old(instance).handle(),
            final(host).is_claimed() == old(host).is_claimed(),
            final(host).calls().take(old(host).calls().len() as int) == old(host).calls(),
            command_result::<CmdMeasureTemp>(
                final(host).calls().skip(old(host).calls().len() as int),
                final(self).buffer(),
                r,
            ),
    {
        self.send_cmd::<CmdMeasureTemp, T>(instance, host)
    }

    /// Sends `measure_clock arm` and returns the frequency of the ARM cores in hertz.
    pub fn cmd_measure_clock_arm<T: Transport>(
        &mut self,
        instance: &mut GlobalInstance,
        host: &mut Host<T>,
    ) -> (r: Result<u64, GencmdCmdError>)
        requires
            old(self).wf(),
            !old(instance).is_deinitialized_spec(),
            !old(instance).awaiting_response(),
        ensures
            final(self).wf(),
            !final(instance).awaiting_response(),
            final(instance).handle() == old(instance).handle(),
            final(host).is_claimed() == old(host).is_claimed(),
            final(host).calls().take(old(host).calls().len() as int) == old(host).calls(),
            command_result::<CmdMeasureClockArm>(
                final(host).calls().skip(old(host).calls().len() as int),
                final(self).buffer(),
                r,
            ),
    {
        self.send_cmd::<CmdMeasureClockArm, T>(instance, host)
    }

    /// Sends `get_throttled` and returns the throttling state of the CPU.
    pub fn cmd_get_throttled<T: Transport>(
        &mut self,
        instance: &mut GlobalInstance,
        host: &mut Host<T>,
    ) -> (r: Result<CpuThrottled, GencmdCmdError>)
        requires
            old(self).wf(),
            !old(instance).is_deinitialized_spec(),
            !old(instance).awaiting_response(),
        ensures
            final(self).wf(),
            !final(instance).awaiting_response(),
            final(instance).handle() == old(instance).handle(),
            final(host).is_claimed() == old(host).is_claimed(),
            final(host).calls().take(old(host).calls().len() as int) == old(host).calls(),
            command_result::<CmdGetThrottled>(
                final(host).calls().skip(old(host).calls().len() as int),
                final(self).buffer(),
                r,
            ),
    {
        self.send_cmd::<CmdGetThrottled, T>(instance, host)
    }
}

} // verus!
