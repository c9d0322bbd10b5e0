//! BME280 temperature / pressure / humidity sensor driver.
//!
//! The driver never touches the bus itself: `init` and `init_step` form a state
//! machine that names each I2C transfer to perform, and `read` turns the eight
//! measurement bytes into compensated values, following the integer formulas of
//! the Bosch datasheet.
use vstd::prelude::*;

verus! {

/// I2C address of the sensor (SDO tied low).
pub const ADDRESS: u8 = 0x76;
/// Register holding the chip identifier.
pub const CHIP_ID_REG: u8 = 0xD0;
/// Identifier that a BME280 reports.
pub const CHIP_ID: u8 = 0x60;
/// Soft-reset register.
pub const RESET_REG: u8 = 0xE0;
/// Value that triggers a soft reset.
pub const RESET_VALUE: u8 = 0xB6;
/// Status register; bit 0 is set while NVM data is being copied.
pub const STATUS_REG: u8 = 0xF3;
/// Humidity oversampling control register.
pub const CTRL_HUM_REG: u8 = 0xF2;
/// Humidity oversampling x1.
pub const CTRL_HUM_VALUE: u8 = 0b001;
/// Temperature / pressure oversampling and mode register.
pub const CTRL_MEAS_REG: u8 = 0xF4;
/// Temperature x2, pressure x16 oversampling, normal mode.
pub const CTRL_MEAS_VALUE: u8 = 0b_010_010_11;
/// First measurement data register (press_msb).
pub const DATA_REG: u8 = 0xF7;
/// First block of calibration registers (0x88..0xA1).
pub const CALIB_00_REG: u8 = 0x88;
/// Second block of calibration registers (0xE1..0xE7).
pub const CALIB_26_REG: u8 = 0xE1;

/// Factory calibration coefficients of one sensor.
#[derive(Clone, Copy, Debug)]
pub struct CalibData {
    pub dig_t1: u16,
    pub dig_t2: i16,
    pub dig_t3: i16,
    pub dig_p1: u16,
    pub dig_p2: i16,
    pub dig_p3: i16,
    pub dig_p4: i16,
    pub dig_p5: i16,
    pub dig_p6: i16,
    pub dig_p7: i16,
    pub dig_p8: i16,
    pub dig_p9: i16,
    pub dig_h1: u8,
    pub dig_h2: i16,
    pub dig_h3: u8,
    pub dig_h4: i16,
    pub dig_h5: i16,
    pub dig_h6: i8,
}

/// One compensated reading.
#[derive(Clone, Copy, Debug)]
pub struct Measurements {
    /// Temperature in centidegrees C (divide by 100 for degrees C)
    pub temperature: i32,
    /// Pressure in Pa * 256 (divide by 256 for Pa)
    pub pressure: u32,
    /// Humidity in % * 1024 (divide by 1024 for %)
    pub humidity: u32,
}

/// Whether `x` is a value of `i32`.
pub open spec fn fits_i32(x: int) -> bool {
    i32::MIN <= x <= i32::MAX
}

/// Whether `x` is a value of `i64`.
pub open spec fn fits_i64(x: int) -> bool {
    i64::MIN <= x <= i64::MAX
}

/// Rust's `/` on signed integers: the quotient rounded toward zero.
pub open spec fn div_toward_zero(a: int, b: int) -> int {
    if a >= 0 {
        if b > 0 { a / b } else { -(a / (-b)) }
    } else {
        if b > 0 { -((-a) / b) } else { (-a) / (-b) }
    }
}

/// The five numbers a log line of a reading shows: whole and hundredths of degrees C
/// (`temperature / 100` and `temperature % 100`, Rust's truncating `/` and `%`), whole Pa,
/// whole and hundredths of % humidity.
pub open spec fn log_values(m: Measurements) -> (int, int, int, int, int) {
    let t = m.temperature as int;
    let q = div_toward_zero(t, 100);
    (q, t - 100 * q, m.pressure as int / 256, m.humidity as int / 1024, (m.humidity as int % 1024)
        * 100 / 1024)
}

/// The values a log line of `m` shows, as `log_values` states them.
pub fn log_fields(m: &Measurements) -> (r: (i32, i32, u32, u32, u32))
    ensures
        (r.0 as int, r.1 as int, r.2 as int, r.3 as int, r.4 as int) == log_values(*m),
{
    let t = m.temperature;
    let q: i32 = t.checked_div(100).unwrap();
    let rem: i32 = t - 100 * q;
    (q, rem, m.pressure / 256, m.humidity / 1024, (m.humidity % 1024) * 100 / 1024)
}

/// Temperature compensation of the datasheet (32-bit integer version).
///
/// `Some((temperature, t_fine))`, temperature in centidegrees, when every intermediate
/// sum, difference and product stays within `i32`; `None` when one of them overflows.
/// Right shifts are floor divisions by powers of two.
pub open spec fn temp_compensation(raw: int, c: CalibData) -> Option<(int, int)> {
    let t1 = c.dig_t1 as int;
    let t2 = c.dig_t2 as int;
    let t3 = c.dig_t3 as int;
    let d = raw / 8 - t1 * 2;
    let p = d * t2;
    let e = raw / 16 - t1;
    let sq = e * e;
    let q = (sq / 4096) * t3;
    let t_fine = p / 2048 + q / 16384;
    if fits_i32(d) && fits_i32(p) && fits_i32(e) && fits_i32(sq) && fits_i32(q)
        && fits_i32(t_fine) && fits_i32(t_fine * 5) && fits_i32(t_fine * 5 + 128) {
        Some(((t_fine * 5 + 128) / 256, t_fine))
    } else {
        None
    }
}

proof fn lemma_shr_i32(x: i32)
    ensures
        x >> 3u32 == x / 8,
        x >> 4u32 == x / 16,
        x >> 8u32 == x / 256,
        x >> 11u32 == x / 2048,
        x >> 12u32 == x / 4096,
        x >> 14u32 == x / 16384,
{
    assert(x >> 3u32 == x / 8) by (bit_vector);
    assert(x >> 4u32 == x / 16) by (bit_vector);
    assert(x >> 8u32 == x / 256) by (bit_vector);
    assert(x >> 11u32 == x / 2048) by (bit_vector);
    assert(x >> 12u32 == x / 4096) by (bit_vector);
    assert(x >> 14u32 == x / 16384) by (bit_vector);
}

proof fn lemma_shl1_u16(t: i32)
    requires 0 <= t < 65536,
    ensures t << 1u32 == t * 2,
{
    assert(0 <= t < 65536 ==> t << 1u32 == t * 2) by (bit_vector);
}

/// Temperature compensation; returns the temperature in centidegrees and `t_fine`,
/// the fine temperature that the pressure and humidity formulas take.
pub fn compensate_temp(raw: i32, c: &CalibData) -> (r: (i32, i32))
    requires
        temp_compensation(raw as int, *c) is Some,
    ensures
        temp_compensation(raw as int, *c) == Some((r.0 as int, r.1 as int)),
{
    proof {
        lemma_shr_i32(raw);
        lemma_shl1_u16(c.dig_t1 as i32);
    }
    let d = (raw >> 3) - ((c.dig_t1 as i32) << 1);
    let p = d * (c.dig_t2 as i32);
    proof { lemma_shr_i32(p); }
    let var1 = p >> 11;
    let e = (raw >> 4) - (c.dig_t1 as i32);
    let sq = e * e;
    proof { lemma_shr_i32(sq); }
    let q = (sq >> 12) * (c.dig_t3 as i32);
    proof { lemma_shr_i32(q); }
    let var2 = q >> 14;
    let t_fine = var1 + var2;
    let s = t_fine * 5 + 128;
    proof { lemma_shr_i32(s); }
    (s >> 8, t_fine)
}

/// Temperature compensation that reports overflow instead of requiring its absence:
/// `None` exactly where `compensate_temp` would overflow.
fn compensate_temp_checked(raw: i32, c: &CalibData) -> (r: Option<(i32, i32)>)
    ensures
        match r {
            Some(v) => temp_compensation(raw as int, *c) == Some((v.0 as int, v.1 as int)),
            None => temp_compensation(raw as int, *c) is None,
        },
{
    proof {
        lemma_shr_i32(raw);
        lemma_shl1_u16(c.dig_t1 as i32);
    }
    let d = match (raw >> 3).checked_sub((c.dig_t1 as i32) << 1) { Some(v) => v, None => return None };
    let p = match d.checked_mul(c.dig_t2 as i32) { Some(v) => v, None => return None };
    proof { lemma_shr_i32(p); }
    let e = match (raw >> 4).checked_sub(c.dig_t1 as i32) { Some(v) => v, None => return None };
    let sq = match e.checked_mul(e) { Some(v) => v, None => return None };
    proof { lemma_shr_i32(sq); }
    let q = match (sq >> 12).checked_mul(c.dig_t3 as i32) { Some(v) => v, None => return None };
    proof { lemma_shr_i32(q); }
    let t_fine = match (p >> 11).checked_add(q >> 14) { Some(v) => v, None => return None };
    let t5 = match t_fine.checked_mul(5) { Some(v) => v, None => return None };
    let s = match t5.checked_add(128) { Some(v) => v, None => return None };
    proof { lemma_shr_i32(s); }
    Some((s >> 8, t_fine))
}

/// Pressure compensation of the datasheet (64-bit integer version), in Pa * 256.
///
/// `None` when one of the intermediate sums, differences, products or the quotient
/// leaves `i64`. Right shifts are floor divisions by powers of two; `(var1 * dig_p5) << 17`
/// keeps only the low 64 bits as Rust's `<<` does; the division rounds toward zero; the
/// result is the low 32 bits of the final value, as `as u32` gives.
pub open spec fn pressure_compensation(raw: int, t_fine: int, c: CalibData) -> Option<int> {
    let v1 = t_fine - 128000;
    let a = v1 * v1;
    let v2a = a * (c.dig_p6 as int);
    let b = v1 * (c.dig_p5 as int);
    let v2b = v2a + (((b as i64) << 17u32) as int);
    let v2 = v2b + (c.dig_p4 as int) * 34359738368;
    let w1 = a * (c.dig_p3 as int);
    let u = v1 * (c.dig_p2 as int);
    let v1b = w1 / 256 + u * 4096;
    let z = 140737488355328 + v1b;
    let zz = z * (c.dig_p1 as int);
    let v1c = zz / 8589934592;
    let head_fits = fits_i64(v1) && fits_i64(a) && fits_i64(v2a) && fits_i64(b) && fits_i64(v2b)
        && fits_i64(v2) && fits_i64(w1) && fits_i64(u) && fits_i64(v1b) && fits_i64(z)
        && fits_i64(zz);
    if !head_fits {
        None
    } else if v1c == 0 {
        Some(0)
    } else {
        let p0 = 1048576 - raw;
        let n1 = p0 * 2147483648 - v2;
        let n2 = n1 * 3125;
        let p1 = div_toward_zero(n2, v1c);
        let h = p1 / 8192;
        let m1 = (c.dig_p9 as int) * h;
        let m2 = m1 * h;
        let m3 = (c.dig_p8 as int) * p1;
        let s1 = p1 + m2 / 33554432;
        let s2 = s1 + m3 / 524288;
        let s4 = s2 / 256 + (c.dig_p7 as int) * 16;
        if fits_i64(p0) && fits_i64(n1) && fits_i64(n2) && fits_i64(p1) && fits_i64(m1)
            && fits_i64(m2) && fits_i64(m3) && fits_i64(s1) && fits_i64(s2) && fits_i64(s4) {
            Some(((s4 as i64) as u32) as int)
        } else {
            None
        }
    }
}

proof fn lemma_shr_i64(x: i64)
    ensures
        x >> 8u32 == x / 256,
        x >> 13u32 == x / 8192,
        x >> 19u32 == x / 524288,
        x >> 25u32 == x / 33554432,
        x >> 33u32 == x / 8589934592,
{
    assert(x >> 8u32 == x / 256) by (bit_vector);
    assert(x >> 13u32 == x / 8192) by (bit_vector);
    assert(x >> 19u32 == x / 524288) by (bit_vector);
    assert(x >> 25u32 == x / 33554432) by (bit_vector);
    assert(x >> 33u32 == x / 8589934592) by (bit_vector);
}

proof fn lemma_shl_i64_exact(x: i64)
    ensures
        -2147483648 * 65536 <= x < 2147483648 * 65536 ==> x << 12u32 == x * 4096,
        -65536 <= x < 65536 ==> x << 35u32 == x * 34359738368,
        -65536 <= x < 65536 ==> x << 4u32 == x * 16,
        -4294967296 <= x < 4294967296 ==> x << 31u32 == x * 2147483648,
{
    assert(-2147483648 * 65536 <= x < 2147483648 * 65536 ==> x << 12u32 == x * 4096) by (bit_vector);
    assert(-65536 <= x < 65536 ==> x << 35u32 == x * 34359738368) by (bit_vector);
    assert(-65536 <= x < 65536 ==> x << 4u32 == x * 16) by (bit_vector);
    assert(-4294967296 <= x < 4294967296 ==> x << 31u32 == x * 2147483648) by (bit_vector);
}

/// Pressure compensation; returns the pressure in Pa * 256.
pub fn compensate_pressure(raw: i32, t_fine: i32, c: &CalibData) -> (r: u32)
    requires
        pressure_compensation(raw as int, t_fine as int, *c) is Some,
    ensures
        pressure_compensation(raw as int, t_fine as int, *c) == Some(r as int),
{
    let mut var1 = (t_fine as i64) - 128000;
    let a = var1 * var1;
    let mut var2 = a * (c.dig_p6 as i64);
    var2 += (var1 * (c.dig_p5 as i64)) << 17;
    proof { lemma_shl_i64_exact(c.dig_p4 as i64); }
    var2 += (c.dig_p4 as i64) << 35;
    let w1 = var1 * var1 * (c.dig_p3 as i64);
    let u = var1 * (c.dig_p2 as i64);
    proof {
        lemma_shr_i64(w1);
        lemma_shl_i64_exact(u);
        let p2 = c.dig_p2 as int;
        assert(-2147483648 * 65536 <= (var1 as int) * p2 < 2147483648 * 65536) by (nonlinear_arith)
            requires -2147483648 - 128000 <= var1 <= 2147483647 - 128000, -32768 <= p2 <= 32767;
        assert(1i64 << 47u32 == 140737488355328) by (bit_vector);
    }
    var1 = (w1 >> 8) + (u << 12);
    let zz = ((1i64 << 47) + var1) * (c.dig_p1 as i64);
    proof { lemma_shr_i64(zz); }
    var1 = zz >> 33;
    if var1 == 0 {
        return 0;
    }
    let mut p = 1048576i64 - raw as i64;
    proof { lemma_shl_i64_exact(p); }
    let n2 = ((p << 31) - var2) * 3125;
    p = n2.checked_div(var1).unwrap();
    proof { lemma_shr_i64(p); }
    let m2 = (c.dig_p9 as i64) * (p >> 13) * (p >> 13);
    proof { lemma_shr_i64(m2); }
    var1 = m2 >> 25;
    let m3 = (c.dig_p8 as i64) * p;
    proof { lemma_shr_i64(m3); }
    var2 = m3 >> 19;
    let s2 = p + var1 + var2;
    proof { lemma_shr_i64(s2); lemma_shl_i64_exact(c.dig_p7 as i64); }
    p = (s2 >> 8) + ((c.dig_p7 as i64) << 4);
    p as u32
}

/// Pressure compensation that reports overflow instead of requiring its absence:
/// `None` exactly where `compensate_pressure` would overflow.
fn compensate_pressure_checked(raw: i32, t_fine: i32, c: &CalibData) -> (r: Option<u32>)
    ensures
        match r {
            Some(v) => pressure_compensation(raw as int, t_fine as int, *c) == Some(v as int),
            None => pressure_compensation(raw as int, t_fine as int, *c) is None,
        },
{
    let v1 = match (t_fine as i64).checked_sub(128000) { Some(v) => v, None => return None };
    let a = match v1.checked_mul(v1) { Some(v) => v, None => return None };
    let v2a = match a.checked_mul(c.dig_p6 as i64) { Some(v) => v, None => return None };
    let b = match v1.checked_mul(c.dig_p5 as i64) { Some(v) => v, None => return None };
    let v2b = match v2a.checked_add(b << 17) { Some(v) => v, None => return None };
    proof { lemma_shl_i64_exact(c.dig_p4 as i64); }
    let v2 = match v2b.checked_add((c.dig_p4 as i64) << 35) { Some(v) => v, None => return None };
    let w1 = match a.checked_mul(c.dig_p3 as i64) { Some(v) => v, None => return None };
    let u = match v1.checked_mul(c.dig_p2 as i64) { Some(v) => v, None => return None };
    proof {
        lemma_shr_i64(w1);
        lemma_shl_i64_exact(u);
        let p2 = c.dig_p2 as int;
        assert(-2147483648 * 65536 <= (v1 as int) * p2 < 2147483648 * 65536) by (nonlinear_arith)
            requires -2147483648 - 128000 <= v1 <= 2147483647 - 128000, -32768 <= p2 <= 32767;
        assert(1i64 << 47u32 == 140737488355328) by (bit_vector);
    }
    let v1b = match (w1 >> 8).checked_add(u << 12) { Some(v) => v, None => return None };
    let z = match (1i64 << 47).checked_add(v1b) { Some(v) => v, None => return None };
    let zz = match z.checked_mul(c.dig_p1 as i64) { Some(v) => v, None => return None };
    proof { lemma_shr_i64(zz); }
    let v1c = zz >> 33;
    if v1c == 0 {
        return Some(0);
    }
    let p0 = match 1048576i64.checked_sub(raw as i64) { Some(v) => v, None => return None };
    proof { lemma_shl_i64_exact(p0); }
    let n1 = match (p0 << 31).checked_sub(v2) { Some(v) => v, None => return None };
    let n2 = match n1.checked_mul(3125) { Some(v) => v, None => return None };
    let p1 = match n2.checked_div(v1c) { Some(v) => v, None => return None };
    proof { lemma_shr_i64(p1); }
    let m1 = match (c.dig_p9 as i64).checked_mul(p1 >> 13) { Some(v) => v, None => return None };
    let m2 = match m1.checked_mul(p1 >> 13) { Some(v) => v, None => return None };
    let m3 = match (c.dig_p8 as i64).checked_mul(p1) { Some(v) => v, None => return None };
    proof { lemma_shr_i64(m2); lemma_shr_i64(m3); }
    let s1 = match p1.checked_add(m2 >> 25) { Some(v) => v, None => return None };
    let s2 = match s1.checked_add(m3 >> 19) { Some(v) => v, None => return None };
    proof { lemma_shr_i64(s2); lemma_shl_i64_exact(c.dig_p7 as i64); }
    let s4 = match (s2 >> 8).checked_add((c.dig_p7 as i64) << 4) { Some(v) => v, None => return None };
    Some(s4 as u32)
}

/// Humidity compensation of the datasheet (32-bit integer version), in % * 1024.
///
/// Both the `dig_h5` term and the `dig_h6` / `dig_h3` factor are taken of
/// `t_fine - 76800`, as in Bosch's `bme280_compensate_H_int32`. `None` when `t_fine - 76800` leaves `i32`; every later step wraps on overflow
/// exactly as the `wrapping_*` operations do, and the value is clamped to
/// `0..=419430400` before the final shift.
pub open spec fn humidity_compensation(raw: i32, t_fine: i32, c: CalibData) -> Option<int> {
    if !fits_i32(t_fine - 76800) {
        None
    } else {
        let x0 = (t_fine - 76800) as i32;
        let x1 = (raw << 14u32).wrapping_sub((c.dig_h4 as i32) << 20u32).wrapping_sub(
            (c.dig_h5 as i32).wrapping_mul(x0),
        ).wrapping_add(16384) >> 15u32;
        let inner = (((x0.wrapping_mul(c.dig_h6 as i32)) >> 10u32).wrapping_mul(
            ((x0.wrapping_mul(c.dig_h3 as i32)) >> 11u32).wrapping_add(32768),
        ) >> 10u32).wrapping_add(2097152).wrapping_mul(c.dig_h2 as i32).wrapping_add(8192)
            >> 14u32;
        let x2 = x1.wrapping_mul(inner);
        let x3 = x2.wrapping_sub(
            (((x2 >> 15u32).wrapping_mul(x2 >> 15u32)) >> 7u32).wrapping_mul(c.dig_h1 as i32)
                >> 4u32,
        );
        let x4 = if x3 < 0 { 0i32 } else if x3 > 419430400 { 419430400i32 } else { x3 };
        Some((x4 >> 12u32) as int)
    }
}

/// Humidity compensation; returns the relative humidity in % * 1024, which is never
/// above 100 % (102400).
pub fn compensate_humidity(raw: i32, t_fine: i32, c: &CalibData) -> (r: u32)
    requires
        humidity_compensation(raw, t_fine, *c) is Some,
    ensures
        humidity_compensation(raw, t_fine, *c) == Some(r as int),
        r <= 102400,
{
    let v: i32 = t_fine - 76800;
    let mut x: i32 = (((raw << 14)
        .wrapping_sub((c.dig_h4 as i32) << 20)
        .wrapping_sub((c.dig_h5 as i32).wrapping_mul(v)))
    .wrapping_add(16384))
        >> 15;
    x = x.wrapping_mul(
        ((((((v.wrapping_mul(c.dig_h6 as i32)) >> 10)
            .wrapping_mul(((v.wrapping_mul(c.dig_h3 as i32)) >> 11).wrapping_add(32768)))
            >> 10)
            .wrapping_add(2097152))
        .wrapping_mul(c.dig_h2 as i32)
        .wrapping_add(8192))
            >> 14,
    );
    x = x.wrapping_sub(
        ((((x >> 15).wrapping_mul(x >> 15)) >> 7).wrapping_mul(c.dig_h1 as i32)) >> 4,
    );
    x = if x < 0 { 0 } else if x > 419430400 { 419430400 } else { x };
    proof {
        assert(0 <= x <= 419430400 ==> 0 <= (x >> 12u32) <= 102400) by (bit_vector);
    }
    (x >> 12) as u32
}

/// Little-endian unsigned 16-bit value of two bytes.
pub open spec fn le_u16(lo: u8, hi: u8) -> int {
    lo as int + 256 * (hi as int)
}

/// Little-endian two's-complement 16-bit value of two bytes.
pub open spec fn le_i16(lo: u8, hi: u8) -> int {
    if hi < 128 {
        le_u16(lo, hi)
    } else {
        le_u16(lo, hi) - 65536
    }
}

/// A byte read as a two's-complement 8-bit value.
pub open spec fn signed_byte(b: u8) -> int {
    if b < 128 {
        b as int
    } else {
        b as int - 256
    }
}

/// The calibration coefficients that registers 0x88..0xA1 (`c00`, 26 bytes) and
/// 0xE1..0xE7 (`c26`, 7 bytes) hold, laid out as in the datasheet's trimming
/// parameter table. `dig_h4` and `dig_h5` are 12-bit values that share the nibbles of
/// register 0xE5: h4 takes its low nibble, h5 its high nibble.
pub open spec fn calib_from_registers(c00: Seq<u8>, c26: Seq<u8>) -> CalibData {
    CalibData {
        dig_t1: le_u16(c00[0], c00[1]) as u16,
        dig_t2: le_i16(c00[2], c00[3]) as i16,
        dig_t3: le_i16(c00[4], c00[5]) as i16,
        dig_p1: le_u16(c00[6], c00[7]) as u16,
        dig_p2: le_i16(c00[8], c00[9]) as i16,
        dig_p3: le_i16(c00[10], c00[11]) as i16,
        dig_p4: le_i16(c00[12], c00[13]) as i16,
        dig_p5: le_i16(c00[14], c00[15]) as i16,
        dig_p6: le_i16(c00[16], c00[17]) as i16,
        dig_p7: le_i16(c00[18], c00[19]) as i16,
        dig_p8: le_i16(c00[20], c00[21]) as i16,
        dig_p9: le_i16(c00[22], c00[23]) as i16,
        dig_h1: c00[25],
        dig_h2: le_i16(c26[0], c26[1]) as i16,
        dig_h3: c26[2],
        dig_h4: (signed_byte(c26[3]) * 16 + c26[4] as int % 16) as i16,
        dig_h5: (signed_byte(c26[5]) * 16 + c26[4] as int / 16) as i16,
        dig_h6: signed_byte(c26[6]) as i8,
    }
}

fn u16_from_le(lo: u8, hi: u8) -> (v: u16)
    ensures
        v as int == le_u16(lo, hi),
{
    lo as u16 + (hi as u16) * 256
}

fn i16_from_le(lo: u8, hi: u8) -> (v: i16)
    ensures
        v as int == le_i16(lo, hi),
{
    let u: i32 = lo as i32 + (hi as i32) * 256;
    if hi >= 128 {
        (u - 65536) as i16
    } else {
        u as i16
    }
}

fn i8_from_byte(b: u8) -> (v: i8)
    ensures
        v as int == signed_byte(b),
{
    if b >= 128 {
        (b as i16 - 256) as i8
    } else {
        b as i8
    }
}

impl CalibData {
    /// Decodes the calibration coefficients from the two calibration register blocks.
    pub fn from_registers(c00: &[u8; 26], c26: &[u8; 7]) -> (c: CalibData)
        ensures
            c == calib_from_registers(c00@, c26@),
    {
        let h4 = (i8_from_byte(c26[3]) as i16) * 16 + (c26[4] as i16) % 16;
        let h5 = (i8_from_byte(c26[5]) as i16) * 16 + (c26[4] as i16) / 16;
        CalibData {
            dig_t1: u16_from_le(c00[0], c00[1]),
            dig_t2: i16_from_le(c00[2], c00[3]),
            dig_t3: i16_from_le(c00[4], c00[5]),
            dig_p1: u16_from_le(c00[6], c00[7]),
            dig_p2: i16_from_le(c00[8], c00[9]),
            dig_p3: i16_from_le(c00[10], c00[11]),
            dig_p4: i16_from_le(c00[12], c00[13]),
            dig_p5: i16_from_le(c00[14], c00[15]),
            dig_p6: i16_from_le(c00[16], c00[17]),
            dig_p7: i16_from_le(c00[18], c00[19]),
            dig_p8: i16_from_le(c00[20], c00[21]),
            dig_p9: i16_from_le(c00[22], c00[23]),
            dig_h1: c00[25],
            dig_h2: i16_from_le(c26[0], c26[1]),
            dig_h3: c26[2],
            dig_h4: h4,
            dig_h5: h5,
            dig_h6: i8_from_byte(c26[6]),
        }
    }
}

/// The 20-bit pressure reading in bytes 0..3 of the data block (msb, lsb, xlsb[7:4]).
pub open spec fn raw_pressure(raw: Seq<u8>) -> int {
    raw[0] as int * 4096 + raw[1] as int * 16 + raw[2] as int / 16
}

/// The 20-bit temperature reading in bytes 3..6 of the data block.
pub open spec fn raw_temperature(raw: Seq<u8>) -> int {
    raw[3] as int * 4096 + raw[4] as int * 16 + raw[5] as int / 16
}

/// The 16-bit humidity reading in bytes 6..8 of the data block.
pub open spec fn raw_humidity(raw: Seq<u8>) -> int {
    raw[6] as int * 256 + raw[7] as int
}

/// The compensated measurements of the 8-byte data block `raw` (registers 0xF7..0xFE),
/// or `None` when one of the three compensations overflows.
pub open spec fn measurements(raw: Seq<u8>, c: CalibData) -> Option<Measurements> {
    match temp_compensation(raw_temperature(raw), c) {
        None => None,
        Some((temperature, t_fine)) => {
            match (
                pressure_compensation(raw_pressure(raw), t_fine, c),
                humidity_compensation(raw_humidity(raw) as i32, t_fine as i32, c),
            ) {
                (Some(pressure), Some(humidity)) => Some(
                    Measurements {
                        temperature: temperature as i32,
                        pressure: pressure as u32,
                        humidity: humidity as u32,
                    },
                ),
                _ => None,
            }
        },
    }
}

/// `c` holds the temperature and pressure coefficients of the datasheet's worked
/// example (`dig_T1 = 27504` .. `dig_P9 = 6000`); the humidity coefficients are free.
pub open spec fn datasheet_tp_coefficients(c: CalibData) -> bool {
    &&& c.dig_t1 == 27504 && c.dig_t2 == 26435 && c.dig_t3 == -1000
    &&& c.dig_p1 == 36477 && c.dig_p2 == -10685 && c.dig_p3 == 3024
    &&& c.dig_p4 == 2855 && c.dig_p5 == 140 && c.dig_p6 == -7
    &&& c.dig_p7 == 15500 && c.dig_p8 == -14600 && c.dig_p9 == 6000
}

proof fn lemma_shl17_i64(x: i64)
    ensures
        -70368744177664 <= x < 70368744177664 ==> x << 17u32 == x * 131072,
{
    assert(-70368744177664 <= x < 70368744177664 ==> x << 17u32 == x * 131072) by (bit_vector);
}

proof fn lemma_div_toward_zero_bound(n: int, d: int, nb: int, db: int)
    requires
        0 < db <= d,
        -nb <= n <= nb,
    ensures
        -(nb / db) <= div_toward_zero(n, d) <= nb / db,
{
    broadcast use vstd::arithmetic::div_mod::lemma_div_is_ordered_by_denominator;
    broadcast use vstd::arithmetic::div_mod::lemma_div_is_ordered;
    let m = if n >= 0 { n } else { -n };
    assert(m / d <= m / db);
    assert(m / db <= nb / db);
    assert(0 <= m / d);
}

proof fn lemma_datasheet_temperature(raw: int, c: CalibData)
    requires
        0 <= raw < 1048576,
        datasheet_tp_coefficients(c),
    ensures
        temp_compensation(raw, c) is Some,
        -740000 <= (temp_compensation(raw, c)->0).1 <= 990000,
{
    let e = raw / 16 - 27504;
    assert(0 <= e * e <= 38031 * 38031) by (nonlinear_arith)
        requires
            -27504 <= e <= 38031,
    ;
}

proof fn lemma_datasheet_pressure(raw: int, t_fine: int, c: CalibData)
    requires
        0 <= raw < 1048576,
        -740000 <= t_fine <= 990000,
        datasheet_tp_coefficients(c),
    ensures
        pressure_compensation(raw, t_fine, c) is Some,
{
    let v1 = t_fine - 128000;
    let a = v1 * v1;
    assert(0 <= v1 * v1 <= 868000 * 868000) by (nonlinear_arith)
        requires
            -868000 <= v1 <= 862000,
    ;
    let b = v1 * 140;
    lemma_shl17_i64(b as i64);
    assert(((b as i64) << 17u32) as int == b * 131072);
    let v2 = a * (-7) + b * 131072 + 2855 * 34359738368;
    let w1 = a * 3024;
    let v1b = w1 / 256 + v1 * (-10685) * 4096;
    let z = 140737488355328 + v1b;
    let zz = z * 36477;
    assert(100000000000000 <= z <= 190000000000000);
    let v1c = zz / 8589934592;
    assert(v1c >= 420000000);
    let p0 = 1048576 - raw;
    let n2 = (p0 * 2147483648 - v2) * 3125;
    assert(-400000000000000000 <= n2 <= 7000000000000000000);
    lemma_div_toward_zero_bound(n2, v1c, 7000000000000000000, 420000000);
    let p1 = div_toward_zero(n2, v1c);
    assert(-16666666667 <= p1 <= 16666666667);
    let h = p1 / 8192;
    assert(-2034506 <= h <= 2034506);
    assert(0 <= 6000 * h * h <= 6000 * 2034506 * 2034506) by (nonlinear_arith)
        requires
            -2034506 <= h <= 2034506,
    ;
    assert((c.dig_p9 as int) * h * h == 6000 * h * h);
}

/// Law: below the reference reading the temperature is below zero. With a positive
/// `dig_T2` and a non-positive `dig_T3` (the signs of real parts), a raw temperature whose
/// `raw / 8` is under `2 * dig_T1` gives a negative `t_fine` and a temperature of at most
/// 0 centidegrees: the difference `raw / 8 - 2 * dig_T1` keeps its sign.
pub proof fn lemma_temperature_below_reference(raw: int, c: CalibData)
    requires
        c.dig_t2 > 0,
        c.dig_t3 <= 0,
        temp_compensation(raw, c) is Some,
        raw / 8 < 2 * (c.dig_t1 as int),
    ensures
        (temp_compensation(raw, c)->0).1 < 0,
        (temp_compensation(raw, c)->0).0 <= 0,
{
    let t2 = c.dig_t2 as int;
    let t3 = c.dig_t3 as int;
    let d = raw / 8 - (c.dig_t1 as int) * 2;
    let e = raw / 16 - (c.dig_t1 as int);
    assert(d * t2 <= -1) by (nonlinear_arith)
        requires
            d <= -1,
            t2 >= 1,
    ;
    assert(e * e >= 0) by (nonlinear_arith);
    let sq = e * e;
    assert((sq / 4096) * t3 <= 0) by (nonlinear_arith)
        requires
            sq / 4096 >= 0,
            t3 <= 0,
    ;
}

/// Law: with the datasheet's temperature coefficients the compensated temperature (and
/// `t_fine`) never decreases as the raw reading grows, over all 20-bit raw readings.
pub proof fn lemma_temperature_monotone(r1: int, r2: int, c: CalibData)
    requires
        datasheet_tp_coefficients(c),
        0 <= r1 <= r2 < 1048576,
    ensures
        temp_compensation(r1, c) is Some,
        temp_compensation(r2, c) is Some,
        (temp_compensation(r1, c)->0).1 <= (temp_compensation(r2, c)->0).1,
        (temp_compensation(r1, c)->0).0 <= (temp_compensation(r2, c)->0).0,
{
    lemma_datasheet_temperature(r1, c);
    lemma_datasheet_temperature(r2, c);
    let k1 = r1 / 8;
    let k2 = r2 / 8;
    assert(r1 / 16 == k1 / 2);
    assert(r2 / 16 == k2 / 2);
    let e1 = r1 / 16 - 27504;
    let e2 = r2 / 16 - 27504;
    assert(k1 <= k2);
    assert(e1 <= e2);
    if k1 < k2 {
        assert(e2 * e2 - e1 * e1 <= 76062 * (e2 - e1)) by (nonlinear_arith)
            requires
                e1 <= e2,
                e1 + e2 <= 76062,
        ;
        assert(e2 - e1 <= (k2 - k1) / 2 + 1);
    }
}

/// The steps of the pressure formula after the quotient `p1`, with the datasheet's
/// `dig_P7`, `dig_P8` and `dig_P9`.
spec fn datasheet_pressure_tail(p1: int) -> int {
    let h = p1 / 8192;
    let s1 = p1 + (6000 * h * h) / 33554432;
    let s2 = s1 + (-14600 * p1) / 524288;
    s2 / 256 + 15500 * 16
}

proof fn lemma_u32_of_i64(x: i64)
    ensures
        0 <= x < 4294967296 ==> (x as u32) as i64 == x,
{
    assert(0 <= x < 4294967296 ==> (x as u32) as i64 == x) by (bit_vector);
}

/// The tail grows by at least one for every 400 the quotient grows, and stays a `u32`.
proof fn lemma_datasheet_tail_increasing(pm: int, pp: int)
    requires
        0 <= pm,
        pm + 400 <= pp,
        pp <= 16000000000,
    ensures
        0 <= datasheet_pressure_tail(pm) < datasheet_pressure_tail(pp) < 4294967296,
{
    let hm = pm / 8192;
    let hp = pp / 8192;
    assert(0 <= hm <= hp <= 1953125);
    assert(hm * hm <= hp * hp <= 1953125 * 1953125) by (nonlinear_arith)
        requires
            0 <= hm <= hp <= 1953125,
    ;
    assert(0 <= 6000 * hm * hm <= 6000 * hp * hp <= 6000 * 1953125 * 1953125) by (nonlinear_arith)
        requires
            0 <= hm <= hp <= 1953125,
    ;
}

/// The quotient of the pressure formula for a raw reading up to 900000 and a `t_fine`
/// within 860000 of 128000, with the datasheet's coefficients: its numerator, its
/// divisor, and the quotient itself, from which the rest of the formula follows.
proof fn lemma_datasheet_pressure_quotient(raw: int, t_fine: int, c: CalibData) -> (r: (int, int, int))
    requires
        0 <= raw <= 900000,
        -732000 <= t_fine <= 988000,
        datasheet_tp_coefficients(c),
    ensures
        r.0 == ((1048576 - raw) * 2147483648 - ((t_fine - 128000) * (t_fine - 128000) * (-7)
            + (t_fine - 128000) * 140 * 131072 + 2855 * 34359738368)) * 3125,
        r.1 == (140737488355328 + ((t_fine - 128000) * (t_fine - 128000) * 3024) / 256 + (t_fine
            - 128000) * (-10685) * 4096) * 36477 / 8589934592,
        641000000000000000 <= r.0 <= 6800000000000000000,
        437000000 <= r.1 <= 795000000,
        r.2 == r.0 / r.1,
        0 <= r.2 <= 16000000000,
        pressure_compensation(raw, t_fine, c) == Some(datasheet_pressure_tail(r.2)),
{
    lemma_datasheet_pressure(raw, t_fine, c);
    let v1 = t_fine - 128000;
    let a = v1 * v1;
    assert(0 <= a <= 860000 * 860000) by (nonlinear_arith)
        requires
            -860000 <= v1 <= 860000,
            a == v1 * v1,
    ;
    let b = v1 * 140;
    lemma_shl17_i64(b as i64);
    let v2 = a * (-7) + b * 131072 + 2855 * 34359738368;
    let z = 140737488355328 + (a * 3024) / 256 + v1 * (-10685) * 4096;
    let v1c = z * 36477 / 8589934592;
    let n2 = ((1048576 - raw) * 2147483648 - v2) * 3125;
    assert(641000000000000000 <= n2 <= 6800000000000000000);
    assert(437000000 <= v1c <= 795000000);
    let p1 = n2 / v1c;
    broadcast use vstd::arithmetic::div_mod::lemma_div_is_ordered_by_denominator;
    broadcast use vstd::arithmetic::div_mod::lemma_div_is_ordered;
    assert(n2 / v1c <= n2 / 437000000);
    assert(n2 / 437000000 <= 6800000000000000000int / 437000000);
    assert(0 <= p1 <= 16000000000);
    assert(div_toward_zero(n2, v1c) == p1);
    let h = p1 / 8192;
    assert((c.dig_p9 as int) * h * h == 6000 * h * h);
    lemma_datasheet_tail_increasing(p1, p1 + 400);
    let s4 = datasheet_pressure_tail(p1);
    lemma_u32_of_i64(s4 as i64);
    (n2, v1c, p1)
}

/// Pure arithmetic: moving `114688000000 * delta` onto the numerator and at least
/// `370 * delta` onto the divisor lowers the quotient by at least `200 * delta`.
proof fn lemma_quotients_ordered(np: int, vp: int, nm: int, vm: int, delta: int)
    requires
        641000000000000000 <= np,
        nm == np + 114688000000 * delta,
        437000000 <= vp <= 795000000,
        vm <= 795000000,
        vm - vp >= 370 * delta,
        delta >= 1,
    ensures
        nm / vm + 200 * delta <= np / vp,
{
    let qp = np / vp;
    let qm = nm / vm;
    vstd::arithmetic::div_mod::lemma_fundamental_div_mod(np, vp);
    vstd::arithmetic::div_mod::lemma_mod_bound(np, vp);
    vstd::arithmetic::div_mod::lemma_fundamental_div_mod(nm, vm);
    vstd::arithmetic::div_mod::lemma_mod_bound(nm, vm);
    assert(np < vp * (qp + 1)) by (nonlinear_arith)
        requires
            np == vp * qp + np % vp,
            np % vp < vp,
    ;
    assert(vm * qm <= nm) by (nonlinear_arith)
        requires
            nm == vm * qm + nm % vm,
            0 <= nm % vm,
    ;
    if qp < qm + 200 * delta {
        assert(np < vp * (qm + 200 * delta)) by (nonlinear_arith)
            requires
                np < vp * (qp + 1),
                qp + 1 <= qm + 200 * delta,
                vp > 0,
        ;
        assert(np * vm < vp * qm * vm + 200 * delta * vp * vm) by (nonlinear_arith)
            requires
                np < vp * (qm + 200 * delta),
                vm > 0,
        ;
        assert(vp * qm * vm <= vp * nm) by (nonlinear_arith)
            requires
                vm * qm <= nm,
                vp > 0,
        ;
        assert(np * (vm - vp) < delta * vp * (114688000000 + 200 * vm)) by (nonlinear_arith)
            requires
                np * vm < vp * qm * vm + 200 * delta * vp * vm,
                vp * qm * vm <= vp * nm,
                nm == np + 114688000000 * delta,
        ;
        assert(np * (vm - vp) >= 641000000000000000 * (370 * delta)) by (nonlinear_arith)
            requires
                641000000000000000 <= np,
                vm - vp >= 370 * delta,
                delta >= 1,
        ;
        assert(delta * vp * (114688000000 + 200 * vm) <= delta * 795000000 * (114688000000 + 200
            * 795000000)) by (nonlinear_arith)
            requires
                437000000 <= vp <= 795000000,
                vm <= 795000000,
                vm >= vp,
                delta >= 1,
        ;
        assert(delta * 795000000 * (114688000000 + 200 * 795000000) == 217581960000000000000 * delta) by (nonlinear_arith);
        assert(641000000000000000 * (370 * delta) == 237170000000000000000 * delta);
    }
}

/// Law: the temperature offset of the pressure formula keeps its sign. With the
/// datasheet's coefficients and the same raw pressure reading (up to 900000), a
/// `t_fine` that lies `delta` below the 25 C reference 128000 gives a lower compensated
/// pressure than one that lies `delta` above it, for every `delta` from 2 up to 860000.
pub proof fn lemma_pressure_temperature_offset_signed(raw: int, delta: int, c: CalibData)
    requires
        datasheet_tp_coefficients(c),
        0 <= raw <= 900000,
        2 <= delta <= 860000,
    ensures
        pressure_compensation(raw, 128000 - delta, c) is Some,
        pressure_compensation(raw, 128000 + delta, c) is Some,
        pressure_compensation(raw, 128000 - delta, c)->0 < pressure_compensation(
            raw,
            128000 + delta,
            c,
        )->0,
{
    let (nm, vm, pm) = lemma_datasheet_pressure_quotient(raw, 128000 - delta, c);
    let (np, vp, pp) = lemma_datasheet_pressure_quotient(raw, 128000 + delta, c);
    let lo = (128000 - delta) - 128000;
    let hi = (128000 + delta) - 128000;
    assert(lo * lo == hi * hi) by (nonlinear_arith)
        requires
            lo == -delta,
            hi == delta,
    ;
    assert(nm == np + 114688000000 * delta);
    assert(vm - vp >= 370 * delta);
    lemma_quotients_ordered(np, vp, nm, vm, delta);
    lemma_datasheet_tail_increasing(pm, pp);
}

/// Law: a higher raw pressure reading means a lower pressure. With the datasheet's
/// coefficients and the same `t_fine` (within 860000 of 128000), of two raw readings up
/// to 900000 the larger compensates to the strictly smaller pressure.
pub proof fn lemma_pressure_falls_with_raw(r1: int, r2: int, t_fine: int, c: CalibData)
    requires
        datasheet_tp_coefficients(c),
        0 <= r1 < r2 <= 900000,
        -732000 <= t_fine <= 988000,
    ensures
        pressure_compensation(r1, t_fine, c) is Some,
        pressure_compensation(r2, t_fine, c) is Some,
        pressure_compensation(r2, t_fine, c)->0 < pressure_compensation(r1, t_fine, c)->0,
{
    let (n1, v, q1) = lemma_datasheet_pressure_quotient(r1, t_fine, c);
    let (n2, v2, q2) = lemma_datasheet_pressure_quotient(r2, t_fine, c);
    assert(v2 == v);
    assert(n1 >= n2 + 401 * v);
    vstd::arithmetic::div_mod::lemma_fundamental_div_mod(n2, v);
    vstd::arithmetic::div_mod::lemma_mod_bound(n2, v);
    assert(v * q2 <= n2) by (nonlinear_arith)
        requires
            n2 == v * q2 + n2 % v,
            0 <= n2 % v,
    ;
    assert(v * (q2 + 401) <= n1) by (nonlinear_arith)
        requires
            v * q2 <= n2,
            n1 >= n2 + 401 * v,
    ;
    vstd::arithmetic::div_mod::lemma_div_is_ordered(v * (q2 + 401), n1, v);
    vstd::arithmetic::div_mod::lemma_div_by_multiple(q2 + 401, v);
    assert((v * (q2 + 401)) / v == q2 + 401) by (nonlinear_arith)
        requires
            ((q2 + 401) * v) / v == q2 + 401,
    ;
    lemma_datasheet_tail_increasing(q2, q1);
}

/// Law: with the temperature and pressure coefficients of the datasheet's worked
/// example, every 8-byte data block compensates without overflow, so `read` accepts
/// every reply of the right length: raw temperature and pressure take all 20-bit
/// values, raw humidity all 16-bit values, and the humidity coefficients are any.
///
/// Coefficients far from any real part's can overflow (a `dig_T1` of 0 with a `dig_T2`
/// of 32767 and a large raw temperature does), so the law is not stated for every
/// calibration.
pub proof fn lemma_datasheet_calibration_reads(raw: Seq<u8>, c: CalibData)
    requires
        raw.len() == 8,
        datasheet_tp_coefficients(c),
    ensures
        measurements(raw, c) is Some,
        read_accepts(raw, Some(c)),
{
    lemma_datasheet_temperature(raw_temperature(raw), c);
    let t_fine = (temp_compensation(raw_temperature(raw), c)->0).1;
    lemma_datasheet_pressure(raw_pressure(raw), t_fine, c);
    assert(fits_i32(t_fine - 76800));
}

/// The three raw readings of an 8-byte data block.
fn raw_readings(raw: &[u8]) -> (r: (i32, i32, i32))
    requires
        raw@.len() == 8,
    ensures
        r.0 as int == raw_pressure(raw@),
        r.1 as int == raw_temperature(raw@),
        r.2 as int == raw_humidity(raw@),
        0 <= r.0 < 1048576,
        0 <= r.1 < 1048576,
        0 <= r.2 < 65536,
{
    let raw_press = (raw[0] as i32) * 4096 + (raw[1] as i32) * 16 + (raw[2] as i32) / 16;
    let raw_temp = (raw[3] as i32) * 4096 + (raw[4] as i32) * 16 + (raw[5] as i32) / 16;
    let raw_hum = (raw[6] as i32) * 256 + (raw[7] as i32);
    (raw_press, raw_temp, raw_hum)
}

/// Errors of the driver; `E` is the bus error type.
#[derive(Debug)]
pub enum Error<E> {
    I2c(E),
    InvalidDevice,
}

/// One I2C transfer addressed to the sensor at `ADDRESS`.
#[derive(Clone, Copy, Debug, PartialEq, Eq, Structural)]
pub enum Transfer {
    /// Write `value` to `register` (the two bytes `[register, value]`).
    Write { register: u8, value: u8 },
    /// Write `register`, then read `len` bytes starting there.
    WriteRead { register: u8, len: usize },
}

/// The bytes a transfer writes to the sensor: `[register, value]` for a write, the
/// register alone before the read of a write-read.
pub open spec fn written_bytes(t: Transfer) -> Seq<u8> {
    match t {
        Transfer::Write { register, value } => seq![register, value],
        Transfer::WriteRead { register, .. } => seq![register],
    }
}

impl Transfer {
    /// The bytes this transfer puts on the bus before any read.
    pub fn write_bytes(&self) -> (b: Vec<u8>)
        ensures
            b@ == written_bytes(*self),
    {
        match *self {
            Transfer::Write { register, value } => vec![register, value],
            Transfer::WriteRead { register, .. } => vec![register],
        }
    }

    /// How many bytes this transfer reads back: `len` for a write-read, none for a write.
    pub fn read_len(&self) -> (n: usize)
        ensures
            n == match *self {
                Transfer::WriteRead { len, .. } => len,
                Transfer::Write { .. } => 0usize,
            },
    {
        match *self {
            Transfer::WriteRead { len, .. } => len,
            Transfer::Write { .. } => 0,
        }
    }
}

/// Where the initialisation sequence stands: the transfer named by `phase_transfer`
/// of the phase has been handed out and its outcome is awaited.
#[derive(Clone, Copy, Debug)]
pub enum InitPhase {
    ChipId,
    Reset,
    Status,
    Calib00,
    /// The first calibration block has been read; the second is awaited.
    Calib26 { c00: [u8; 26] },
    CtrlHum,
    CtrlMeas,
}

/// What the initialisation sequence asks for next.
#[derive(Debug)]
pub enum InitStep<E> {
    /// Perform the transfer, then report its outcome for the phase.
    Continue(InitPhase, Transfer),
    /// The sequence is over, with this outcome.
    Finished(Result<(), Error<E>>),
}

/// The transfer whose outcome a phase waits for.
pub open spec fn phase_transfer(phase: InitPhase) -> Transfer {
    match phase {
        InitPhase::ChipId => Transfer::WriteRead { register: CHIP_ID_REG, len: 1 },
        InitPhase::Reset => Transfer::Write { register: RESET_REG, value: RESET_VALUE },
        InitPhase::Status => Transfer::WriteRead { register: STATUS_REG, len: 1 },
        InitPhase::Calib00 => Transfer::WriteRead { register: CALIB_00_REG, len: 26 },
        InitPhase::Calib26 { .. } => Transfer::WriteRead { register: CALIB_26_REG, len: 7 },
        InitPhase::CtrlHum => Transfer::Write { register: CTRL_HUM_REG, value: CTRL_HUM_VALUE },
        InitPhase::CtrlMeas => Transfer::Write { register: CTRL_MEAS_REG, value: CTRL_MEAS_VALUE },
    }
}

/// How many bytes the transfer of a phase reads back.
pub open spec fn reply_len(phase: InitPhase) -> nat {
    match phase_transfer(phase) {
        Transfer::WriteRead { len, .. } => len as nat,
        Transfer::Write { .. } => 0,
    }
}

/// `step` continues with phase `next` and hands out the transfer of `next`.
pub open spec fn continues_with<E>(step: InitStep<E>, next: InitPhase) -> bool {
    step == InitStep::<E>::Continue(next, phase_transfer(next))
}

/// The transfer that fetches the 8 measurement bytes.
pub open spec fn read_request() -> Transfer {
    Transfer::WriteRead { register: DATA_REG, len: 8 }
}

/// A successful `read_request` reply `raw` can be compensated with `calib`: it holds
/// the 8 data bytes, the calibration has been read, and no compensation overflows.
pub open spec fn read_accepts(raw: Seq<u8>, calib: Option<CalibData>) -> bool {
    &&& raw.len() == 8
    &&& calib is Some
    &&& measurements(raw, calib->0) is Some
}

/// Driver for one BME280 on the bus `i2c`.
pub struct Bme280<I2C> {
    /// The bus the sensor hangs on; the firmware performs the transfers on it.
    pub i2c: I2C,
    calib: Option<CalibData>,
}

impl<I2C> Bme280<I2C> {
    /// The bus the driver was built on.
    pub closed spec fn bus(&self) -> I2C {
        self.i2c
    }

    /// The calibration read during initialisation, if any.
    pub closed spec fn calibration(&self) -> Option<CalibData> {
        self.calib
    }

    /// A driver on `i2c` that has not read its calibration yet.
    pub fn new(i2c: I2C) -> (r: Self)
        ensures
            r.bus() == i2c,
            r.calibration() is None,
    {
        Self { i2c, calib: None }
    }

    /// Starts the initialisation sequence: check the chip id, soft-reset, wait until the
    /// NVM copy is done, read the calibration, then configure oversampling and normal
    /// mode. Returns the first phase with the transfer it needs.
    pub fn init(&self) -> (r: (InitPhase, Transfer))
        ensures
            r.0 == InitPhase::ChipId,
            r.1 == phase_transfer(r.0),
    {
        (InitPhase::ChipId, Transfer::WriteRead { register: CHIP_ID_REG, len: 1 })
    }

    /// Advances the initialisation sequence by the outcome of the transfer of `phase`;
    /// `reply` holds the bytes read (none for a write) or the bus error.
    ///
    /// A bus error ends the sequence with `Error::I2c`; a chip id other than `CHIP_ID`
    /// ends it with `Error::InvalidDevice`; the status register is polled until its
    /// bit 0 clears; the calibration is stored once both blocks are read; the sequence
    /// ends with `Ok` after the measurement control register is written.
    pub fn init_step<E>(&mut self, phase: InitPhase, reply: Result<&[u8], E>) -> (r: InitStep<E>)
        requires
            reply matches Ok(b) ==> b@.len() == reply_len(phase),
        ensures
            final(self).bus() == old(self).bus(),
            match reply {
                Err(e) => {
                    &&& r == InitStep::<E>::Finished(Err(Error::I2c(e)))
                    &&& final(self).calibration() == old(self).calibration()
                },
                Ok(b) => {
                    &&& (phase matches InitPhase::Calib26 { c00 } ==> final(self).calibration()
                        == Some(calib_from_registers(c00@, b@)))
                    &&& (!(phase is Calib26) ==> final(self).calibration()
                        == old(self).calibration())
                    &&& match phase {
                        InitPhase::ChipId => if b@[0] == CHIP_ID {
                            continues_with(r, InitPhase::Reset)
                        } else {
                            r == InitStep::<E>::Finished(Err(Error::InvalidDevice))
                        },
                        InitPhase::Reset => continues_with(r, InitPhase::Status),
                        InitPhase::Status => if b@[0] & 1 == 0 {
                            continues_with(r, InitPhase::Calib00)
                        } else {
                            continues_with(r, InitPhase::Status)
                        },
                        InitPhase::Calib00 => r matches InitStep::Continue(p, t) && p matches InitPhase::Calib26 { c00 }
                            && c00@ == b@ && t == phase_transfer(p),
                        InitPhase::Calib26 { .. } => continues_with(r, InitPhase::CtrlHum),
                        InitPhase::CtrlHum => continues_with(r, InitPhase::CtrlMeas),
                        InitPhase::CtrlMeas => r == InitStep::<E>::Finished(Ok(())),
                    }
                },
            },
    {
        let b = match reply {
            Err(e) => return InitStep::Finished(Err(Error::I2c(e))),
            Ok(b) => b,
        };
        match phase {
            InitPhase::ChipId => {
                if b[0] != CHIP_ID {
                    InitStep::Finished(Err(Error::InvalidDevice))
                } else {
                    InitStep::Continue(
                        InitPhase::Reset,
                        Transfer::Write { register: RESET_REG, value: RESET_VALUE },
                    )
                }
            },
            InitPhase::Reset => InitStep::Continue(
                InitPhase::Status,
                Transfer::WriteRead { register: STATUS_REG, len: 1 },
            ),
            InitPhase::Status => {
                if b[0] & 0x01 == 0 {
                    InitStep::Continue(
                        InitPhase::Calib00,
                        Transfer::WriteRead { register: CALIB_00_REG, len: 26 },
                    )
                } else {
                    InitStep::Continue(
                        InitPhase::Status,
                        Transfer::WriteRead { register: STATUS_REG, len: 1 },
                    )
                }
            },
            InitPhase::Calib00 => {
                let mut c00 = [0u8; 26];
                let mut i: usize = 0;
                while i < 26
                    invariant
                        0 <= i <= 26,
                        b@.len() == 26,
                        forall|j: int| 0 <= j < i ==> c00@[j] == b@[j],
                    decreases 26 - i,
                {
                    c00[i] = b[i];
                    i = i + 1;
                }
                assert(c00@ =~= b@);
                InitStep::Continue(
                    InitPhase::Calib26 { c00 },
                    Transfer::WriteRead { register: CALIB_26_REG, len: 7 },
                )
            },
            InitPhase::Calib26 { c00 } => {
                let c26 = [b[0], b[1], b[2], b[3], b[4], b[5], b[6]];
                assert(c26@ =~= b@);
                self.calib = Some(CalibData::from_registers(&c00, &c26));
                InitStep::Continue(
                    InitPhase::CtrlHum,
                    Transfer::Write { register: CTRL_HUM_REG, value: CTRL_HUM_VALUE },
                )
            },
            InitPhase::CtrlHum => InitStep::Continue(
                InitPhase::CtrlMeas,
                Transfer::Write { register: CTRL_MEAS_REG, value: CTRL_MEAS_VALUE },
            ),
            InitPhase::CtrlMeas => InitStep::Finished(Ok(())),
        }
    }

    /// The transfer that fetches a measurement: write `DATA_REG`, then read the 8 data
    /// bytes (pressure, temperature, humidity) starting there.
    pub fn read_transfer(&self) -> (t: Transfer)
        ensures
            t == read_request(),
    {
        Transfer::WriteRead { register: DATA_REG, len: 8 }
    }

    /// Turns the outcome of `read_transfer` into measurements compensated with the
    /// stored calibration; a bus error is handed back as `Error::I2c`.
    pub fn read<E>(&self, reply: Result<&[u8], E>) -> (r: Result<Measurements, Error<E>>)
        requires
            reply matches Ok(b) ==> read_accepts(b@, self.calibration()),
        ensures
            match reply {
                Err(e) => r == Err::<Measurements, Error<E>>(Error::I2c(e)),
                Ok(b) => r == Ok::<Measurements, Error<E>>(
                    measurements(b@, self.calibration()->0)->0,
                ),
            },
            r matches Ok(m) ==> m.humidity <= 102400,
    {
        match reply {
            Err(e) => Err(Error::I2c(e)),
            Ok(raw) => {
                let (raw_press, raw_temp, raw_hum) = raw_readings(raw);
                let c = self.calib.unwrap();
                let (temperature, t_fine) = compensate_temp(raw_temp, &c);
                let pressure = compensate_pressure(raw_press, t_fine, &c);
                let humidity = compensate_humidity(raw_hum, t_fine, &c);
                Ok(Measurements { temperature, pressure, humidity })
            },
        }
    }

    /// `read` where its precondition holds, `None` where it does not: the transfer
    /// succeeded but the reply is not 8 bytes long, the calibration has not been read,
    /// or a compensation overflows.
    pub fn try_read<E>(&self, reply: Result<&[u8], E>) -> (r: Option<Result<Measurements, Error<E>>>)
        ensures
            match reply {
                Err(e) => r == Some(Err::<Measurements, Error<E>>(Error::I2c(e))),
                Ok(b) => if read_accepts(b@, self.calibration()) {
                    r == Some(Ok::<Measurements, Error<E>>(measurements(b@, self.calibration()->0)->0))
                } else {
                    r is None
                },
            },
            r matches Some(Ok(m)) ==> m.humidity <= 102400,
    {
        let raw = match reply {
            Err(e) => return Some(Err(Error::I2c(e))),
            Ok(raw) => raw,
        };
        if raw.len() != 8 {
            return None;
        }
        let c = match self.calib {
            Some(c) => c,
            None => return None,
        };
        let (raw_press, raw_temp, raw_hum) = raw_readings(raw);
        let (temperature, t_fine) = match compensate_temp_checked(raw_temp, &c) {
            Some(v) => v,
            None => return None,
        };
        let pressure = match compensate_pressure_checked(raw_press, t_fine, &c) {
            Some(v) => v,
            None => return None,
        };
        if t_fine.checked_sub(76800).is_none() {
            return None;
        }
        let humidity = compensate_humidity(raw_hum, t_fine, &c);
        Some(Ok(Measurements { temperature, pressure, humidity }))
    }
}

} // verus!
