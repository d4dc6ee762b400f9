//! The line sensor: six middle channels of an eight-channel reflectance
//! board behind an I2C GPIO expander.  The board's pin numbering at the
//! wire is non-linear and is remapped through a fixed table.
//!
//! The sensor state — sensitivity and per-channel offset correction — and
//! every computation live here; the bus itself does not.  Each bus command
//! is produced as the exact bytes to write, and readings come back in as
//! plain values: the hardware layer performs the transfers.

use vstd::prelude::*;

verus! {

broadcast use vstd::array::group_array_axioms;

pub const NUM_SENSORS: usize = 6;

/// How many rounds of readings a calibration averages over.
pub const NUM_SAMPLES: usize = 20;

/// First logical pin of the sensor channels: the six middle channels of
/// the eight-channel board, so pins 2 through 7.
pub const FIRST_SENSOR_PIN: u8 = 2;

/// The register commands of the GPIO expander.
pub const CMD_INTO_INPUT: u8 = 0x04;
pub const CMD_INTO_OUTPUT: u8 = 0x07;
pub const CMD_WRITE_HIGH: u8 = 0x09;
pub const CMD_WRITE_LOW: u8 = 0x0A;
pub const CMD_ANALOG_WRITE: u8 = 0x0B;
pub const CMD_ANALOG_READ: u8 = 0x0C;

/// The board's wire numbering of logical pins 0 through 9.
pub open spec fn map_pin_spec(pin: u8) -> u8 {
    if pin == 0 { 0 }
    else if pin == 1 { 4 }
    else if pin == 2 { 5 }
    else if pin == 3 { 6 }
    else if pin == 4 { 8 }
    else if pin == 5 { 7 }
    else if pin == 6 { 3 }
    else if pin == 7 { 2 }
    else if pin == 8 { 1 }
    else { 9 }
}

/// The one-hot bitmask that selects a wire pin.
pub open spec fn pin_mask(pin: u8) -> u16 {
    1u16 << map_pin_spec(pin)
}

/// The high byte of a big-endian 16-bit value.
pub open spec fn be_hi(v: u16) -> u8 {
    (v >> 8) as u8
}

/// The low byte of a big-endian 16-bit value.
pub open spec fn be_lo(v: u16) -> u8 {
    (v & 0xff) as u8
}

/// A corrected reading: the raw value shifted by the channel's offset,
/// taken modulo the 16-bit range.
pub open spec fn corrected(raw: u16, correction: i32) -> u16 {
    ((raw + correction) % 0x1_0000) as u16
}

/// The average reading of one channel over a calibration run.
pub open spec fn sum_u16s(s: Seq<u16>) -> int
    decreases s.len(),
{
    if s.len() == 0 {
        0
    } else {
        sum_u16s(s.drop_last()) + s.last()
    }
}

pub open spec fn channel_mean(samples: [[u16; NUM_SAMPLES]; NUM_SENSORS], i: int) -> int {
    sum_u16s(samples@[i]@) / (NUM_SAMPLES as int)
}

pub open spec fn channel_mean_sum(samples: [[u16; NUM_SAMPLES]; NUM_SENSORS], k: int) -> int
    decreases k,
{
    if k <= 0 {
        0
    } else {
        channel_mean_sum(samples, k - 1) + channel_mean(samples, k - 1)
    }
}

/// The mean of the six channel means.
pub open spec fn overall_mean(samples: [[u16; NUM_SAMPLES]; NUM_SENSORS]) -> int {
    channel_mean_sum(samples, NUM_SENSORS as int) / (NUM_SENSORS as int)
}

/// The offset that calibration assigns to channel `i`, so that corrected
/// readings have an equal mean across channels.
pub open spec fn correction_spec(samples: [[u16; NUM_SAMPLES]; NUM_SENSORS], i: int) -> int {
    overall_mean(samples) - channel_mean(samples, i)
}

/// The reflectance sensor's own state: sensitivity and the per-channel
/// offsets that a calibration run established.
pub struct LineSensor {
    pub sens: u8,
    pub correction: [i32; NUM_SENSORS],
}

impl LineSensor {
    /// A fresh sensor with zero sensitivity and no correction.  The board
    /// itself still has to be configured: pins 0 and 9 as outputs, pins 1
    /// through 8 as inputs, and the IR LEDs on pin 9 driven high — the
    /// frames for that come from `into_output`, `into_input` and
    /// `digital_write`.
    pub fn new() -> (r: Self)
        ensures
            r.sens == 0,
            forall|i: int| 0 <= i < NUM_SENSORS ==> r.correction@[i] == 0,
    {
        Self { sens: 0, correction: [0; NUM_SENSORS] }
    }

    /// The board's wire pin for a logical pin.
    pub fn map_pin(pin: u8) -> (r: u8)
        requires
            pin < 10,
        ensures
            r == map_pin_spec(pin),
            r < 10,
    {
        match pin {
            0 => 0,
            1 => 4,
            2 => 5,
            3 => 6,
            4 => 8,
            5 => 7,
            6 => 3,
            7 => 2,
            8 => 1,
            _ => 9,
        }
    }

    /// The bus command that makes a logical pin an input.
    pub fn into_input(&self, pin: u8) -> (r: [u8; 3])
        requires
            pin < 10,
        ensures
            r@[0] == CMD_INTO_INPUT,
            r@[1] == be_hi(pin_mask(pin)),
            r@[2] == be_lo(pin_mask(pin)),
    {
        let mask: u16 = 1u16 << Self::map_pin(pin);
        [CMD_INTO_INPUT, Self::hi_byte(mask), Self::lo_byte(mask)]
    }

    /// The bus command that makes a logical pin an output.
    pub fn into_output(&self, pin: u8) -> (r: [u8; 3])
        requires
            pin < 10,
        ensures
            r@[0] == CMD_INTO_OUTPUT,
            r@[1] == be_hi(pin_mask(pin)),
            r@[2] == be_lo(pin_mask(pin)),
    {
        let mask: u16 = 1u16 << Self::map_pin(pin);
        [CMD_INTO_OUTPUT, Self::hi_byte(mask), Self::lo_byte(mask)]
    }

    /// The bus command that drives a wire pin high or low.  This one takes
    /// the wire number directly, without remapping.
    pub fn digital_write(&self, pin: u8, val: bool) -> (r: [u8; 3])
        requires
            pin < 16,
        ensures
            r@[0] == (if val { CMD_WRITE_HIGH } else { CMD_WRITE_LOW }),
            r@[1] == be_hi(1u16 << pin),
            r@[2] == be_lo(1u16 << pin),
    {
        let mask: u16 = 1u16 << pin;
        let cmd: u8 = if val { CMD_WRITE_HIGH } else { CMD_WRITE_LOW };
        [cmd, Self::hi_byte(mask), Self::lo_byte(mask)]
    }

    /// The bus command that writes an analog value to a wire pin.
    pub fn analog_write(&self, pin: u8, val: u16) -> (r: [u8; 4])
        ensures
            r@[0] == CMD_ANALOG_WRITE,
            r@[1] == pin,
            r@[2] == be_hi(val),
            r@[3] == be_lo(val),
    {
        [CMD_ANALOG_WRITE, pin, Self::hi_byte(val), Self::lo_byte(val)]
    }

    /// The request half of an analog read of a logical pin.  The board
    /// answers a first read with the previously addressed channel's value,
    /// so the hardware layer must issue this request twice and keep the
    /// second reply; `analog_read_value` then decodes it.
    pub fn analog_read(&self, pin: u8) -> (r: [u8; 2])
        requires
            pin < 10,
        ensures
            r@[0] == CMD_ANALOG_READ,
            r@[1] == map_pin_spec(pin),
    {
        [CMD_ANALOG_READ, Self::map_pin(pin)]
    }

    /// Decodes the two-byte big-endian reply of an analog read.
    pub fn analog_read_value(&self, reply: [u8; 2]) -> (r: u16)
        ensures
            r == reply@[0] * 0x100 + reply@[1],
    {
        (reply[0] as u16) * 0x100 + (reply[1] as u16)
    }

    pub fn get_sens(&self) -> (r: u8)
        ensures
            r == self.sens,
    {
        self.sens
    }

    /// Records the sensitivity and returns the bus command that applies it
    /// to the board's sensitivity pin.
    pub fn set_sens(&mut self, sens: u8) -> (r: [u8; 4])
        ensures
            final(self).sens == sens,
            final(self).correction == old(self).correction,
            r@[0] == CMD_ANALOG_WRITE,
            r@[1] == 0,
            r@[2] == be_hi(sens as u16),
            r@[3] == be_lo(sens as u16),
    {
        self.sens = sens;
        self.analog_write(0, sens as u16)
    }

    /// Applies the channel corrections to one round of raw readings.
    pub fn read(&self, raw: &[u16; NUM_SENSORS]) -> (r: [u16; NUM_SENSORS])
        ensures
            forall|i: int| 0 <= i < NUM_SENSORS
                ==> r@[i] == corrected(raw@[i], self.correction@[i]),
    {
        let mut out: [u16; NUM_SENSORS] = [0; NUM_SENSORS];
        let mut i: usize = 0;
        while i < NUM_SENSORS
            invariant
                i <= NUM_SENSORS,
                forall|k: int| 0 <= k < i ==> out@[k] == corrected(raw@[k], self.correction@[k]),
            decreases NUM_SENSORS - i,
        {
            let shifted: i64 = raw[i] as i64 + self.correction[i] as i64 + 0x8000_0000;
            let m: i64 = shifted % 0x1_0000;
            proof {
                vstd::arithmetic::div_mod::lemma_mod_multiples_vanish(
                    0x8000,
                    raw@[i as int] + self.correction@[i as int],
                    0x1_0000,
                );
            }
            out[i] = m as u16;
            i = i + 1;
        }
        out
    }

    /// Sets the channel corrections from a calibration run: each channel's
    /// offset is the mean of the channel means minus the channel's own
    /// mean.
    pub fn calibrate(&mut self, samples: &[[u16; NUM_SAMPLES]; NUM_SENSORS])
        ensures
            final(self).sens == old(self).sens,
            forall|i: int| 0 <= i < NUM_SENSORS
                ==> final(self).correction@[i] == correction_spec(*samples, i),
    {
        let mut means: [u32; NUM_SENSORS] = [0; NUM_SENSORS];
        let mut i: usize = 0;
        while i < NUM_SENSORS
            invariant
                i <= NUM_SENSORS,
                forall|k: int| 0 <= k < i ==> means@[k] == channel_mean(*samples, k),
                forall|k: int| 0 <= k < i ==> means@[k] <= 0xFFFF,
            decreases NUM_SENSORS - i,
        {
            let mut sum: u32 = 0;
            let mut j: usize = 0;
            while j < NUM_SAMPLES
                invariant
                    j <= NUM_SAMPLES,
                    i < NUM_SENSORS,
                    sum == sum_u16s(samples@[i as int]@.take(j as int)),
                    sum <= j * 0xFFFF,
                decreases NUM_SAMPLES - j,
            {
                proof {
                    assert(samples@[i as int]@.take(j as int + 1).drop_last()
                        =~= samples@[i as int]@.take(j as int));
                }
                sum = sum + samples[i][j] as u32;
                j = j + 1;
            }
            proof {
                assert(samples@[i as int]@.take(NUM_SAMPLES as int) =~= samples@[i as int]@);
            }
            proof {
                vstd::arithmetic::div_mod::lemma_div_is_ordered(
                    sum as int, 20int * 0xFFFF, NUM_SAMPLES as int);
            }
            means[i] = sum / (NUM_SAMPLES as u32);
            i = i + 1;
        }

        let mut total: u32 = 0;
        let mut i: usize = 0;
        while i < NUM_SENSORS
            invariant
                i <= NUM_SENSORS,
                forall|k: int| 0 <= k < NUM_SENSORS ==> means@[k] == channel_mean(*samples, k),
                forall|k: int| 0 <= k < NUM_SENSORS ==> means@[k] <= 0xFFFF,
                total == channel_mean_sum(*samples, i as int),
                total <= i * 0xFFFF,
            decreases NUM_SENSORS - i,
        {
            total = total + means[i];
            i = i + 1;
        }
        proof {
            vstd::arithmetic::div_mod::lemma_div_is_ordered(
                total as int, 6int * 0xFFFF, NUM_SENSORS as int);
        }
        let mean: u32 = total / (NUM_SENSORS as u32);

        let mut i: usize = 0;
        while i < NUM_SENSORS
            invariant
                i <= NUM_SENSORS,
                mean == overall_mean(*samples),
                mean <= 0xFFFF,
                forall|k: int| 0 <= k < NUM_SENSORS ==> means@[k] == channel_mean(*samples, k),
                forall|k: int| 0 <= k < NUM_SENSORS ==> means@[k] <= 0xFFFF,
                forall|k: int| 0 <= k < i
                    ==> self.correction@[k] == correction_spec(*samples, k),
                self.sens == old(self).sens,
            decreases NUM_SENSORS - i,
        {
            self.correction[i] = mean as i32 - means[i] as i32;
            i = i + 1;
        }
    }
}

/// Byte helpers shared by the frame builders.
impl LineSensor {
    fn hi_byte(v: u16) -> (r: u8)
        ensures
            r == be_hi(v),
    {
        proof {
            assert(v >> 8 <= 0xff) by (bit_vector);
        }
        (v >> 8) as u8
    }

    fn lo_byte(v: u16) -> (r: u8)
        ensures
            r == be_lo(v),
    {
        proof {
            assert(v & 0xff <= 0xff) by (bit_vector);
        }
        (v & 0xff) as u8
    }
}

/// The population variance of a set of readings, with every intermediate
/// division truncating as the integer types do: the mean is the truncated
/// average, and the result is the truncated average of squared deviations.
pub open spec fn std_dev_spec(vals: Seq<u16>) -> int {
    let mean = sum_u16s(vals) / vals.len() as int;
    sum_sq_dev(vals, mean) / vals.len() as int
}

pub open spec fn sum_sq_dev(vals: Seq<u16>, mean: int) -> int
    decreases vals.len(),
{
    if vals.len() == 0 {
        0
    } else {
        sum_sq_dev(vals.drop_last(), mean) + (vals.last() - mean) * (vals.last() - mean)
    }
}

/// The variance of a round of readings, used to judge sensor noise.
pub fn std_dev(vals: &Vec<u16>) -> (r: u32)
    requires
        0 < vals@.len() <= u16::MAX,
        sum_u16s(vals@) <= u16::MAX,
        sum_sq_dev(vals@, sum_u16s(vals@) / vals@.len() as int) <= u32::MAX,
    ensures
        r == std_dev_spec(vals@),
{
    let len: usize = vals.len();

    proof {
        lemma_sum_u16s_prefix(vals@, 0);
    }
    let mut sum: u16 = 0;
    let mut i: usize = 0;
    while i < len
        invariant
            i <= len,
            len == vals@.len(),
            sum_u16s(vals@) <= u16::MAX,
            sum == sum_u16s(vals@.take(i as int)),
        decreases len - i,
    {
        proof {
            assert(vals@.take(i as int + 1).drop_last() =~= vals@.take(i as int));
            assert(vals@.take(i as int + 1).last() == vals@[i as int]);
            lemma_sum_u16s_prefix(vals@, i as int + 1);
            lemma_sum_u16s_nonneg(vals@.take(i as int));
        }
        sum = sum + vals[i];
        i = i + 1;
    }
    proof {
        assert(vals@.take(len as int) =~= vals@);
        lemma_sum_u16s_nonneg(vals@);
    }
    let mean: u16 = sum / (len as u16);

    let ghost whole_sq = sum_sq_dev(vals@, mean as int);
    let mut acc: u32 = 0;
    let mut i: usize = 0;
    while i < len
        invariant
            i <= len,
            len == vals@.len(),
            mean == sum_u16s(vals@) / vals@.len() as int,
            whole_sq == sum_sq_dev(vals@, mean as int),
            whole_sq <= u32::MAX,
            acc == sum_sq_dev(vals@.take(i as int), mean as int),
        decreases len - i,
    {
        proof {
            assert(vals@.take(i as int + 1).drop_last() =~= vals@.take(i as int));
            assert(vals@.take(i as int + 1).last() == vals@[i as int]);
            lemma_sum_sq_dev_prefix(vals@, mean as int, i as int + 1);
            lemma_sum_sq_dev_nonneg(vals@.take(i as int), mean as int);
        }
        let d: i64 = vals[i] as i64 - mean as i64;
        proof {
            assert(0 <= d * d <= 0x1_0000_0000i64) by (nonlinear_arith)
                requires -0x1_0000 <= d <= 0x1_0000;
            assert(sum_sq_dev(vals@.take(i as int + 1), mean as int)
                == acc + d * d);
        }
        let sq: i64 = d * d;
        acc = acc + (sq as u32);
        i = i + 1;
    }
    proof {
        assert(vals@.take(len as int) =~= vals@);
    }
    acc / (len as u32)
}

/// The first discrete derivative of a round of corrected readings.
pub open spec fn deriv(vals: [u16; NUM_SENSORS], i: int) -> int {
    vals@[i + 1] - vals@[i]
}

/// Whether position `i` of the derivative is an edge: its magnitude
/// exceeds the threshold.
pub open spec fn is_edge(vals: [u16; NUM_SENSORS], threshold: u16, i: int) -> bool {
    &&& 0 <= i < NUM_SENSORS - 1
    &&& (deriv(vals, i) > threshold || deriv(vals, i) < -(threshold as int))
}

/// Whether `i` is the edge with the greatest derivative, the last such
/// position on a tie.
pub open spec fn is_first_edge(vals: [u16; NUM_SENSORS], threshold: u16, i: int) -> bool {
    &&& is_edge(vals, threshold, i)
    &&& forall|j: int| is_edge(vals, threshold, j)
        ==> (deriv(vals, j) < deriv(vals, i) || (deriv(vals, j) == deriv(vals, i) && j <= i))
}

/// Whether an edge's derivative has the opposite sign of the first edge's.
pub open spec fn is_opposite_edge(
    vals: [u16; NUM_SENSORS],
    threshold: u16,
    first: int,
    i: int,
) -> bool {
    &&& is_edge(vals, threshold, i)
    &&& ((deriv(vals, i) > 0) != (deriv(vals, first) > 0))
}

/// Whether `i` is the opposite-sign edge with the least derivative, the
/// first such position on a tie.
pub open spec fn is_second_edge(
    vals: [u16; NUM_SENSORS],
    threshold: u16,
    first: int,
    i: int,
) -> bool {
    &&& is_opposite_edge(vals, threshold, first, i)
    &&& forall|j: int| is_opposite_edge(vals, threshold, first, j)
        ==> (deriv(vals, j) > deriv(vals, i) || (deriv(vals, j) == deriv(vals, i) && j >= i))
}

/// Finds the line under a round of corrected readings.  An edge is a
/// position where the discrete derivative exceeds the threshold in
/// magnitude.  The line is bounded by the extremal edge and, when one
/// exists, an opposite-sign counter-edge: the first result is the edge
/// with the greatest derivative (the last on a tie), the second is the
/// opposite-sign edge with the least derivative (the first on a tie).
pub fn find_line(vals: &[u16; NUM_SENSORS], threshold: u16) -> (r: (Option<usize>, Option<usize>))
    ensures
        r.0 is None ==> (forall|i: int| !is_edge(*vals, threshold, i)) && r.1 is None,
        r.0 matches Some(i) ==> is_first_edge(*vals, threshold, i as int),
        r.0 matches Some(fi) ==> {
            &&& (r.1 is None ==> forall|j: int| !is_opposite_edge(*vals, threshold, fi as int, j))
            &&& (r.1 matches Some(si) ==> is_second_edge(*vals, threshold, fi as int, si as int))
        },
{
    let mut first: Option<usize> = None;
    let mut first_val: i32 = 0;

    let mut i: usize = 0;
    while i < NUM_SENSORS - 1
        invariant
            i <= NUM_SENSORS - 1,
            first is None ==> forall|k: int| k < i ==> !is_edge(*vals, threshold, k),
            first matches Some(f) ==> {
                &&& is_edge(*vals, threshold, f as int)
                &&& f < i
                &&& first_val == deriv(*vals, f as int)
                &&& forall|k: int| k < i && is_edge(*vals, threshold, k)
                    ==> (deriv(*vals, k) < first_val
                        || (deriv(*vals, k) == first_val && k <= f as int))
            },
        decreases NUM_SENSORS - 1 - i,
    {
        let d: i32 = vals[i + 1] as i32 - vals[i] as i32;
        let magnitude: i32 = if d < 0 { -d } else { d };
        if magnitude > threshold as i32 {
            match first {
                Option::None => {
                    first = Some(i);
                    first_val = d;
                },
                Option::Some(_) => {
                    if d >= first_val {
                        first = Some(i);
                        first_val = d;
                    }
                },
            }
        }
        i = i + 1;
    }

    let fi: usize = match first {
        Option::None => {
            return (None, None);
        },
        Option::Some(f) => f,
    };

    let mut second: Option<usize> = None;
    let mut second_val: i32 = 0;

    let mut i: usize = 0;
    while i < NUM_SENSORS - 1
        invariant
            i <= NUM_SENSORS - 1,
            is_edge(*vals, threshold, fi as int),
            first_val == deriv(*vals, fi as int),
            second is None ==> forall|k: int| k < i
                ==> !is_opposite_edge(*vals, threshold, fi as int, k),
            second matches Some(s) ==> {
                &&& is_opposite_edge(*vals, threshold, fi as int, s as int)
                &&& s < i
                &&& second_val == deriv(*vals, s as int)
                &&& forall|k: int| k < i && is_opposite_edge(*vals, threshold, fi as int, k)
                    ==> (deriv(*vals, k) > second_val
                        || (deriv(*vals, k) == second_val && k >= s as int))
            },
        decreases NUM_SENSORS - 1 - i,
    {
        let d: i32 = vals[i + 1] as i32 - vals[i] as i32;
        let magnitude: i32 = if d < 0 { -d } else { d };
        if magnitude > threshold as i32 && ((d > 0) != (first_val > 0)) {
            match second {
                Option::None => {
                    second = Some(i);
                    second_val = d;
                },
                Option::Some(_) => {
                    if d < second_val {
                        second = Some(i);
                        second_val = d;
                    }
                },
            }
        }
        i = i + 1;
    }

    (Some(fi), second)
}

/// A prefix of a sum of readings never exceeds the whole sum.
proof fn lemma_sum_u16s_prefix(vals: Seq<u16>, k: int)
    requires
        0 <= k <= vals.len(),
    ensures
        sum_u16s(vals.take(k)) <= sum_u16s(vals),
    decreases vals.len() - k,
{
    if k == vals.len() {
        assert(vals.take(k) =~= vals);
    } else {
        lemma_sum_u16s_prefix(vals, k + 1);
        assert(vals.take(k + 1).drop_last() =~= vals.take(k));
    }
}

proof fn lemma_sum_u16s_nonneg(vals: Seq<u16>)
    ensures
        sum_u16s(vals) >= 0,
    decreases vals.len(),
{
    if vals.len() > 0 {
        lemma_sum_u16s_nonneg(vals.drop_last());
    }
}

/// A prefix of the squared-deviation sum never exceeds the whole sum.
proof fn lemma_sum_sq_dev_prefix(vals: Seq<u16>, mean: int, k: int)
    requires
        0 <= k <= vals.len(),
    ensures
        sum_sq_dev(vals.take(k), mean) <= sum_sq_dev(vals, mean),
    decreases vals.len() - k,
{
    if k == vals.len() {
        assert(vals.take(k) =~= vals);
    } else {
        lemma_sum_sq_dev_prefix(vals, mean, k + 1);
        assert(vals.take(k + 1).drop_last() =~= vals.take(k));
        let v = vals.take(k + 1).last();
        assert((v - mean) * (v - mean) >= 0) by (nonlinear_arith);
    }
}

proof fn lemma_sum_sq_dev_nonneg(vals: Seq<u16>, mean: int)
    ensures
        sum_sq_dev(vals, mean) >= 0,
    decreases vals.len(),
{
    if vals.len() > 0 {
        lemma_sum_sq_dev_nonneg(vals.drop_last(), mean);
        let v = vals.last();
        assert((v - mean) * (v - mean) >= 0) by (nonlinear_arith);
    }
}

} // verus!
