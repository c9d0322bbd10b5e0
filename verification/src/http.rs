//! The JSON body of a reading POSTed to the backend.
//!
//! The body is built in a `heapless::String<128>`, as the firmware sends it:
//! `{"temperature_c":23.15,"humidity_pct":50.12,"pressure_hpa":1013.25}`.
use vstd::prelude::*;
use crate::bme280::Measurements;

verus! {

/// Host name of the backend.
pub const HOST: &'static str = "lode-api-rust.onrender.com";
/// Endpoint the readings are POSTed to.
pub const URL: &'static str = "https://lode-api-rust.onrender.com/readings";

/// `heapless::String`, a string stored inline with a fixed capacity of `N` bytes.
#[verifier::external_type_specification]
#[verifier::external_body]
pub struct ExHeaplessString<const N: usize>(heapless::String<N>);

/// The bytes held by a `heapless::String<128>`, in order.
pub uninterp spec fn body_bytes(s: heapless::String<128>) -> Seq<u8>;

/// `heapless::String::new`: a string holding no bytes.
#[verifier::external_body]
fn new_body() -> (s: heapless::String<128>)
    ensures
        body_bytes(s) == Seq::<u8>::empty(),
{
    heapless::String::new()
}

/// `heapless::String::push` with an ASCII character: when fewer than 128 bytes are held,
/// appends the character's single byte and returns `Ok`; otherwise returns `Err` and
/// leaves the string as it was.
#[verifier::external_body]
fn push_ascii(s: &mut heapless::String<128>, c: u8) -> (r: Result<(), ()>)
    requires
        c < 128,
    ensures
        body_bytes(*old(s)).len() < 128 ==> r is Ok && body_bytes(*final(s)) == body_bytes(
            *old(s),
        ).push(c),
        body_bytes(*old(s)).len() >= 128 ==> r is Err && body_bytes(*final(s)) == body_bytes(
            *old(s),
        ),
{
    s.push(c as char)
}

/// `"temperature_c":` after the opening brace of the object.
pub const TEMPERATURE_KEY: [u8; 17] = [
    123, 34, 116, 101, 109, 112, 101, 114, 97, 116, 117, 114, 101, 95, 99, 34, 58,
];
/// `,"humidity_pct":`
pub const HUMIDITY_KEY: [u8; 16] = [
    44, 34, 104, 117, 109, 105, 100, 105, 116, 121, 95, 112, 99, 116, 34, 58,
];
/// `,"pressure_hpa":`
pub const PRESSURE_KEY: [u8; 16] = [
    44, 34, 112, 114, 101, 115, 115, 117, 114, 101, 95, 104, 112, 97, 34, 58,
];

/// ASCII `.`.
pub const DOT: u8 = 46;
/// ASCII `-`.
pub const MINUS: u8 = 45;
/// ASCII closing brace.
pub const CLOSE_BRACE: u8 = 125;

/// The ASCII digit of `d < 10`.
pub open spec fn digit(d: nat) -> u8 {
    (48 + d) as u8
}

/// Decimal digits of `n`, most significant first, without leading zeros (`{}` of an
/// unsigned integer).
pub open spec fn decimal(n: nat) -> Seq<u8>
    decreases n,
{
    if n < 10 {
        seq![digit(n)]
    } else {
        decimal(n / 10).push(digit(n % 10))
    }
}

/// `{:02}` of `n < 100`: two digits, with a leading zero below ten.
pub open spec fn two_digits(n: nat) -> Seq<u8> {
    seq![digit(n / 10), digit(n % 10)]
}

/// One `"key":value` member: `key` (which starts with the opening brace or the
/// separating comma), a minus sign when `negative`, the digits of `int_part`, a dot and
/// the two digits of `frac`.
pub open spec fn member(key: Seq<u8>, negative: bool, int_part: nat, frac: nat) -> Seq<u8> {
    key + (if negative { seq![MINUS] } else { Seq::empty() }) + decimal(int_part) + seq![DOT]
        + two_digits(frac)
}

/// The JSON body for `m`: each value with two decimals, truncated toward zero.
///
/// The temperature is `temperature / 100` degrees C written exactly: a minus sign when
/// it is negative, then the integer part and the two decimals of `|temperature|`, so
/// -5 is written `-0.05`. Humidity is `humidity / 1024` %, pressure
/// `pressure / 256 / 100` hPa.
pub open spec fn reading_json(m: Measurements) -> Seq<u8> {
    let t = m.temperature as int;
    let t_abs = if t < 0 { -t } else { t };
    let hum = m.humidity as int;
    let press_pa = m.pressure as int / 256;
    member(TEMPERATURE_KEY@, t < 0, (t_abs / 100) as nat, (t_abs % 100) as nat)
        + member(HUMIDITY_KEY@, false, (hum / 1024) as nat, ((hum % 1024) * 100 / 1024) as nat)
        + member(PRESSURE_KEY@, false, (press_pa / 100) as nat, (press_pa % 100) as nat)
        + seq![CLOSE_BRACE]
}

/// 10 to the power `k`.
pub open spec fn pow10(k: nat) -> nat
    decreases k,
{
    if k == 0 {
        1
    } else {
        10 * pow10((k - 1) as nat)
    }
}

proof fn lemma_decimal_len(n: nat, k: nat)
    requires
        n < pow10(k),
        k >= 1,
    ensures
        1 <= decimal(n).len() <= k,
        forall|i: int| 0 <= i < decimal(n).len() ==> 48 <= #[trigger] decimal(n)[i] < 58,
    decreases n,
{
    if n >= 10 {
        assert(k >= 2) by {
            if k == 1 {
                assert(pow10(1) == 10) by { reveal_with_fuel(pow10, 2); }
            }
        }
        assert(n / 10 < pow10((k - 1) as nat));
        lemma_decimal_len(n / 10, (k - 1) as nat);
    }
}

fn push_byte(s: &mut heapless::String<128>, c: u8)
    requires
        c < 128,
        body_bytes(*old(s)).len() < 128,
    ensures
        body_bytes(*final(s)) == body_bytes(*old(s)).push(c),
{
    let _ = push_ascii(s, c);
}

fn push_bytes(s: &mut heapless::String<128>, bytes: &[u8])
    requires
        body_bytes(*old(s)).len() + bytes@.len() <= 128,
        forall|i: int| 0 <= i < bytes@.len() ==> #[trigger] bytes@[i] < 128,
    ensures
        body_bytes(*final(s)) == body_bytes(*old(s)) + bytes@,
{
    let ghost start = body_bytes(*s);
    let mut i: usize = 0;
    while i < bytes.len()
        invariant
            0 <= i <= bytes@.len(),
            start.len() + bytes@.len() <= 128,
            forall|j: int| 0 <= j < bytes@.len() ==> #[trigger] bytes@[j] < 128,
            body_bytes(*s) == start + bytes@.subrange(0, i as int),
        decreases bytes@.len() - i,
    {
        push_byte(s, bytes[i]);
        i = i + 1;
        assert(bytes@.subrange(0, i as int) =~= bytes@.subrange(0, i - 1).push(bytes@[i - 1]));
    }
    assert(bytes@.subrange(0, bytes@.len() as int) =~= bytes@);
}

fn push_decimal(s: &mut heapless::String<128>, n: u32)
    requires
        body_bytes(*old(s)).len() + decimal(n as nat).len() <= 128,
    ensures
        body_bytes(*final(s)) == body_bytes(*old(s)) + decimal(n as nat),
    decreases n,
{
    let ghost start = body_bytes(*s);
    if n >= 10 {
        push_decimal(s, n / 10);
    }
    push_byte(s, 48 + (n % 10) as u8);
    assert(body_bytes(*s) =~= start + decimal(n as nat));
}

fn push_two_digits(s: &mut heapless::String<128>, n: u32)
    requires
        n < 100,
        body_bytes(*old(s)).len() + 2 <= 128,
    ensures
        body_bytes(*final(s)) == body_bytes(*old(s)) + two_digits(n as nat),
{
    let ghost start = body_bytes(*s);
    push_byte(s, 48 + (n / 10) as u8);
    push_byte(s, 48 + (n % 10) as u8);
    assert(body_bytes(*s) =~= start + two_digits(n as nat));
}

fn push_member(
    s: &mut heapless::String<128>,
    key: &[u8],
    negative: bool,
    int_part: u32,
    frac: u32,
    max_digits: Ghost<nat>,
)
    requires
        frac < 100,
        1 <= max_digits@,
        int_part < pow10(max_digits@),
        forall|i: int| 0 <= i < key@.len() ==> #[trigger] key@[i] < 128,
        body_bytes(*old(s)).len() + key@.len() + 1 + max_digits@ + 3 <= 128,
    ensures
        body_bytes(*final(s)) == body_bytes(*old(s)) + member(key@, negative, int_part as nat, frac as nat),
        member(key@, negative, int_part as nat, frac as nat).len() <= key@.len() + (if negative { 1int } else { 0 }) + max_digits@ + 3,
{
    let ghost start = body_bytes(*s);
    proof { lemma_decimal_len(int_part as nat, max_digits@); }
    push_bytes(s, key);
    if negative {
        push_byte(s, MINUS);
    }
    push_decimal(s, int_part);
    push_byte(s, DOT);
    push_two_digits(s, frac);
    assert(body_bytes(*s) =~= start + member(key@, negative, int_part as nat, frac as nat));
}

/// The JSON body of the POST that uploads `m`; it always fits the 128-byte buffer.
pub fn reading_body(m: &Measurements) -> (body: heapless::String<128>)
    ensures
        body_bytes(body) == reading_json(*m),
        reading_json(*m).len() <= 81,
{
    let t = m.temperature;
    let t_abs: u32 = if t < 0 { (-(t as i64)) as u32 } else { t as u32 };
    let press_pa = m.pressure / 256;
    let hum = m.humidity;
    proof { reveal_with_fuel(pow10, 11); }
    let mut body = new_body();
    push_member(&mut body, &TEMPERATURE_KEY, t < 0, t_abs / 100, t_abs % 100, Ghost(8));
    push_member(&mut body, &HUMIDITY_KEY, false, hum / 1024, (hum % 1024) * 100 / 1024, Ghost(7));
    push_member(&mut body, &PRESSURE_KEY, false, press_pa / 100, press_pa % 100, Ghost(6));
    push_byte(&mut body, CLOSE_BRACE);
    body
}

} // verus!
