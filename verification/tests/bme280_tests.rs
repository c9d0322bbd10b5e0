use lode_stm32h723::bme280::{
    compensate_humidity, compensate_pressure, compensate_temp, log_fields, Bme280, CalibData, Error,
    InitPhase, InitStep, Measurements, Transfer, CALIB_00_REG, DATA_REG, CALIB_26_REG, CHIP_ID_REG, CTRL_HUM_REG,
    CTRL_MEAS_REG, RESET_REG, STATUS_REG,
};

fn datasheet_calib() -> CalibData {
    CalibData {
        dig_t1: 27504,
        dig_t2: 26435,
        dig_t3: -1000,
        dig_p1: 36477,
        dig_p2: -10685,
        dig_p3: 3024,
        dig_p4: 2855,
        dig_p5: 140,
        dig_p6: -7,
        dig_p7: 15500,
        dig_p8: -14600,
        dig_p9: 6000,
        dig_h1: 75,
        dig_h2: 362,
        dig_h3: 0,
        dig_h4: 313,
        dig_h5: 50,
        dig_h6: 30,
    }
}

const C00: [u8; 26] = [
    0x70, 0x6B, 0x43, 0x67, 0x18, 0xFC, 0x7D, 0x8E, 0x43, 0xD6, 0xD0, 0x0B, 0x27, 0x0B, 0x8C,
    0x00, 0xF9, 0xFF, 0x8C, 0x3C, 0xF8, 0xC6, 0x70, 0x17, 0x00, 0x4B,
];
const C26: [u8; 7] = [0x6A, 0x01, 0x00, 0x13, 0x29, 0x03, 0x1E];
// press 415148, temp 519888, hum 30000
const RAW: [u8; 8] = [0x65, 0x5A, 0xC0, 0x7E, 0xED, 0x00, 0x75, 0x30];

fn same_calib(a: &CalibData, b: &CalibData) -> bool {
    format!("{:?}", a) == format!("{:?}", b)
}

#[test]
fn temperature_of_datasheet_example() {
    let c = datasheet_calib();
    assert_eq!(compensate_temp(519888, &c), (2508, 128422));
}

#[test]
fn pressure_of_datasheet_example() {
    let c = datasheet_calib();
    assert_eq!(compensate_pressure(415148, 128422, &c), 25767233);
}

#[test]
fn pressure_is_zero_when_divisor_vanishes() {
    let mut c = datasheet_calib();
    c.dig_p1 = 0;
    assert_eq!(compensate_pressure(415148, 128422, &c), 0);
}

#[test]
fn humidity_of_example() {
    let c = datasheet_calib();
    assert_eq!(compensate_humidity(30000, 128422, &c), 56317);
}

#[test]
fn humidity_factor_is_taken_of_t_fine_offset() {
    let c = CalibData {
        dig_t1: 0,
        dig_t2: 0,
        dig_t3: 0,
        dig_p1: 0,
        dig_p2: 0,
        dig_p3: 0,
        dig_p4: 0,
        dig_p5: 0,
        dig_p6: 0,
        dig_p7: 0,
        dig_p8: 0,
        dig_p9: 0,
        dig_h1: 0,
        dig_h2: 1,
        dig_h3: 0,
        dig_h4: 0,
        dig_h5: 0,
        dig_h6: 64,
    };
    assert_eq!(compensate_humidity(32768, 76800, &c), 512);
}

#[test]
fn humidity_is_clamped_to_one_hundred_percent() {
    let c = datasheet_calib();
    assert_eq!(compensate_humidity(65535, 128422, &c), 102400);
    assert_eq!(compensate_humidity(0, 128422, &c), 0);
}

#[test]
fn calibration_decodes_register_layout() {
    let c = CalibData::from_registers(&C00, &C26);
    assert!(same_calib(&c, &datasheet_calib()));
}

#[test]
fn calibration_decodes_negative_h4_h5() {
    let mut c26 = C26;
    c26[3] = 0xF0;
    c26[5] = 0xFF;
    let c = CalibData::from_registers(&C00, &c26);
    assert_eq!(c.dig_h4, -247);
    assert_eq!(c.dig_h5, -14);
    c26[6] = 0x80;
    assert_eq!(CalibData::from_registers(&C00, &c26).dig_h6, -128);
}

fn step(bme: &mut Bme280<()>, phase: InitPhase, reply: &[u8]) -> InitStep<u32> {
    bme.init_step(phase, Ok::<&[u8], u32>(reply))
}

fn read_ok(bme: &Bme280<()>, raw: &[u8]) -> Option<Result<Measurements, Error<u32>>> {
    bme.try_read(Ok::<&[u8], u32>(raw))
}

fn expect_continue(s: InitStep<u32>, t: Transfer) -> InitPhase {
    match s {
        InitStep::Continue(p, tr) => {
            assert_eq!(tr, t);
            p
        }
        InitStep::Finished(_) => panic!("sequence ended early"),
    }
}

#[test]
fn init_sequence_reads_calibration() {
    let mut bme = Bme280::new(());
    let (phase, t) = bme.init();
    assert_eq!(t, Transfer::WriteRead { register: CHIP_ID_REG, len: 1 });
    let phase = expect_continue(step(&mut bme, phase, &[0x60]), Transfer::Write { register: RESET_REG, value: 0xB6 });
    let phase = expect_continue(step(&mut bme, phase, &[]), Transfer::WriteRead { register: STATUS_REG, len: 1 });
    // NVM copy still running: poll again
    let phase = expect_continue(step(&mut bme, phase, &[0x01]), Transfer::WriteRead { register: STATUS_REG, len: 1 });
    let phase = expect_continue(step(&mut bme, phase, &[0x08]), Transfer::WriteRead { register: CALIB_00_REG, len: 26 });
    let phase = expect_continue(step(&mut bme, phase, &C00), Transfer::WriteRead { register: CALIB_26_REG, len: 7 });
    assert!(read_ok(&bme, &RAW).is_none());
    let phase = expect_continue(step(&mut bme, phase, &C26), Transfer::Write { register: CTRL_HUM_REG, value: 0b001 });
    let phase = expect_continue(step(&mut bme, phase, &[]), Transfer::Write { register: CTRL_MEAS_REG, value: 0b0100_1011 });
    match step(&mut bme, phase, &[]) {
        InitStep::Finished(Ok(())) => {}
        _ => panic!("expected success"),
    }
    let m = read_ok(&bme, &RAW).unwrap().unwrap();
    assert_eq!((m.temperature, m.pressure, m.humidity), (2508, 25767233, 56317));
    let m2 = bme.read(Ok::<&[u8], u32>(&RAW)).unwrap();
    assert_eq!((m2.temperature, m2.pressure, m2.humidity), (2508, 25767233, 56317));
}

#[test]
fn init_rejects_other_chip_id() {
    let mut bme = Bme280::new(());
    let (phase, _) = bme.init();
    match step(&mut bme, phase, &[0x58]) {
        InitStep::Finished(Err(Error::InvalidDevice)) => {}
        _ => panic!("expected InvalidDevice"),
    }
}

#[test]
fn init_reports_bus_error() {
    let mut bme = Bme280::new(());
    match bme.init_step(InitPhase::Reset, Err::<&[u8], u32>(7)) {
        InitStep::Finished(Err(Error::I2c(7))) => {}
        _ => panic!("expected I2c error"),
    }
    assert!(read_ok(&bme, &RAW).is_none());
}

#[test]
fn read_before_init_is_refused() {
    let bme = Bme280::new(());
    assert!(read_ok(&bme, &RAW).is_none());
}

#[test]
fn read_with_overflowing_calibration_is_refused() {
    let mut bme = Bme280::new(());
    let mut c00 = C00;
    // dig_t2 = 32767 with dig_t1 = 0 and a large raw temperature overflows i32
    c00[0] = 0;
    c00[1] = 0;
    c00[2] = 0xFF;
    c00[3] = 0x7F;
    let phase = expect_continue(step(&mut bme, InitPhase::Calib00, &c00), Transfer::WriteRead { register: CALIB_26_REG, len: 7 });
    let _ = step(&mut bme, phase, &C26);
    let raw = [0x65, 0x5A, 0xC0, 0xFF, 0xFF, 0xF0, 0x75, 0x30];
    assert!(read_ok(&bme, &raw).is_none());
    assert!(matches!(read_ok(&bme, &RAW), Some(Ok(_))));
}

#[test]
fn read_names_its_transfer() {
    let bme = Bme280::new(());
    assert_eq!(bme.read_transfer(), Transfer::WriteRead { register: DATA_REG, len: 8 });
    assert_eq!(DATA_REG, 0xF7);
}

#[test]
fn read_hands_back_bus_error() {
    let bme = Bme280::new(());
    assert!(matches!(bme.read(Err::<&[u8], u32>(5)), Err(Error::I2c(5))));
    assert!(matches!(bme.try_read(Err::<&[u8], u32>(9)), Some(Err(Error::I2c(9)))));
}

#[test]
fn read_refuses_short_reply() {
    let mut bme = Bme280::new(());
    let phase = expect_continue(step(&mut bme, InitPhase::Calib00, &C00), Transfer::WriteRead { register: CALIB_26_REG, len: 7 });
    let _ = step(&mut bme, phase, &C26);
    assert!(read_ok(&bme, &RAW[..7]).is_none());
    assert!(matches!(read_ok(&bme, &RAW), Some(Ok(_))));
}

#[test]
fn transfers_put_register_then_value_on_the_bus() {
    let w = Transfer::Write { register: CTRL_MEAS_REG, value: 0b0100_1011 };
    assert_eq!(w.write_bytes(), vec![0xF4, 0x4B]);
    assert_eq!(w.read_len(), 0);
    let r = Transfer::WriteRead { register: DATA_REG, len: 8 };
    assert_eq!(r.write_bytes(), vec![0xF7]);
    assert_eq!(r.read_len(), 8);
}

#[test]
fn log_fields_split_whole_and_fraction() {
    let m = Measurements { temperature: 2508, pressure: 25767233, humidity: 56317 };
    assert_eq!(log_fields(&m), (25, 8, 100653, 54, 99));
    let cold = Measurements { temperature: -1234, pressure: 255, humidity: 1023 };
    assert_eq!(log_fields(&cold), (-12, -34, 0, 0, 99));
    let tiny = Measurements { temperature: -5, pressure: 0, humidity: 0 };
    assert_eq!(log_fields(&tiny), (0, -5, 0, 0, 0));
}

#[test]
fn datasheet_calibration_reads_every_extreme_block() {
    let mut bme = Bme280::new(());
    let phase = expect_continue(step(&mut bme, InitPhase::Calib00, &C00), Transfer::WriteRead { register: CALIB_26_REG, len: 7 });
    let _ = step(&mut bme, phase, &C26);
    let blocks: [[u8; 8]; 4] = [
        [0x00; 8],
        [0xFF; 8],
        [0x00, 0x00, 0x00, 0xFF, 0xFF, 0xF0, 0x00, 0x00],
        [0xFF, 0xFF, 0xF0, 0x00, 0x00, 0x00, 0xFF, 0xFF],
    ];
    for raw in blocks {
        assert!(matches!(read_ok(&bme, &raw), Some(Ok(_))));
        assert!(bme.read(Ok::<&[u8], u32>(&raw)).is_ok());
    }
}
