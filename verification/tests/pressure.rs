use rproc::number::Decimal;
use rproc::pressure::{Pressure, PressureAvg, PressureStore};
use rproc::sys::kernel::osrelease::OsRelease;
use rproc::{GrammarError, ReadError};

fn percent(d: Decimal) -> f32 {
    let v = (d.digits as f64 / 10f64.powi(d.scale as i32)) as f32;
    if d.negative {
        -v
    } else {
        v
    }
}

fn percent_is_valid(v: f32) -> bool {
    v >= 0. && v <= 100.
}

fn local_kernel() -> OsRelease {
    OsRelease::current(Some("6.18.44-fc-v165\n")).unwrap()
}

fn local_pressure(t: Pressure) -> Option<PressureStore> {
    let content = match t {
        Pressure::Cpu => "some avg10=0.31 avg60=0.12 avg300=0.03 total=4117437\n\
                          full avg10=0.00 avg60=0.00 avg300=0.00 total=0\n",
        Pressure::Mem => "some avg10=0.00 avg60=0.00 avg300=0.00 total=0\n\
                          full avg10=0.00 avg60=0.00 avg300=0.00 total=0\n",
        Pressure::Io => "some avg10=12.50 avg60=3.07 avg300=100.00 total=98210\n\
                         full avg10=11.25 avg60=2.96 avg300=0.64 total=91772\n",
    };
    PressureStore::new(t, &local_kernel(), Some(content))
}

const TWO_LINES: &str = "some avg10=1.50 avg60=0.25 avg300=12.00 total=123456\n\
                         full avg10=0.10 avg60=100.00 avg300=0.00 total=654321\n";

const ONE_LINE: &str = "some avg10=1.50 avg60=0.25 avg300=12.00 total=123456\n";

#[test]
fn test_local_cpu_pressure() {
    if let Some(pressure) = local_pressure(Pressure::Cpu) {
        println!("cpu pressure: {:?}", pressure);
        assert!(percent_is_valid(percent(pressure.some.avg10)));
        assert!(percent_is_valid(percent(pressure.some.avg60)));
        assert!(percent_is_valid(percent(pressure.some.avg300)));
        assert!(percent_is_valid(percent(pressure.full.avg10)));
        assert!(percent_is_valid(percent(pressure.full.avg60)));
        assert!(percent_is_valid(percent(pressure.full.avg300)));
    }
}

#[test]
fn test_local_mem_pressure() {
    if let Some(pressure) = local_pressure(Pressure::Mem) {
        println!("memory pressure: {:?}", pressure);
        assert!(percent_is_valid(percent(pressure.some.avg10)));
        assert!(percent_is_valid(percent(pressure.some.avg60)));
        assert!(percent_is_valid(percent(pressure.some.avg300)));
        assert!(percent_is_valid(percent(pressure.full.avg10)));
        assert!(percent_is_valid(percent(pressure.full.avg60)));
        assert!(percent_is_valid(percent(pressure.full.avg300)));
    }
}

#[test]
fn test_local_io_pressure() {
    if let Some(pressure) = local_pressure(Pressure::Io) {
        println!("io pressure: {:?}", pressure);
        assert!(percent_is_valid(percent(pressure.some.avg10)));
        assert!(percent_is_valid(percent(pressure.some.avg60)));
        assert!(percent_is_valid(percent(pressure.some.avg300)));
        assert!(percent_is_valid(percent(pressure.full.avg10)));
        assert!(percent_is_valid(percent(pressure.full.avg60)));
        assert!(percent_is_valid(percent(pressure.full.avg300)));
    }
}

#[test]
fn pressure_paths() {
    assert_eq!(Pressure::Cpu.path(), "/proc/pressure/cpu");
    assert_eq!(Pressure::Mem.path(), "/proc/pressure/memory");
    assert_eq!(Pressure::Io.path(), "/proc/pressure/io");
}

#[test]
fn pressure_two_lines() {
    let pressure = PressureStore::from_str(TWO_LINES, true).unwrap();

    assert_eq!(pressure.some.avg10, Decimal { negative: false, digits: 150, scale: 2 });
    assert_eq!(pressure.some.avg60, Decimal { negative: false, digits: 25, scale: 2 });
    assert_eq!(pressure.some.avg300, Decimal { negative: false, digits: 1200, scale: 2 });
    assert_eq!(pressure.some.total, 123456);
    assert_eq!(pressure.full.avg10, Decimal { negative: false, digits: 10, scale: 2 });
    assert_eq!(pressure.full.avg60, Decimal { negative: false, digits: 10000, scale: 2 });
    assert_eq!(pressure.full.avg300, Decimal { negative: false, digits: 0, scale: 2 });
    assert_eq!(pressure.full.total, 654321);
    assert_eq!(percent(pressure.some.avg10), 1.5);
    assert_eq!(percent(pressure.some.avg60), 0.25);
    assert_eq!(percent(pressure.full.avg60), 100.0);
}

#[test]
fn pressure_totals_are_read_apart() {
    let low = PressureStore::from_str(
        "some avg10=0.00 avg60=0.00 avg300=0.00 total=7\nfull avg10=0.00 avg60=0.00 avg300=0.00 total=9\n",
        true,
    )
    .unwrap();
    let high = PressureStore::from_str(
        "some avg10=0.00 avg60=0.00 avg300=0.00 total=8\nfull avg10=0.00 avg60=0.00 avg300=0.00 total=9\n",
        true,
    )
    .unwrap();

    assert_eq!((low.some.total, low.full.total), (7, 9));
    assert_eq!((high.some.total, high.full.total), (8, 9));
    assert!(high.some.total >= low.some.total);
    assert!(high.full.total >= low.full.total);
}

#[test]
fn pressure_one_line_without_full() {
    let pressure = PressureStore::from_str(ONE_LINE, false).unwrap();

    assert_eq!(pressure.some.total, 123456);
    assert_eq!(pressure.some.avg300, Decimal { negative: false, digits: 1200, scale: 2 });
    assert_eq!(pressure.full, PressureAvg::default());
    assert_eq!(pressure.full.total, 0);
    assert_eq!(pressure.full.avg10, Decimal { negative: false, digits: 0, scale: 0 });
}

#[test]
fn pressure_two_lines_read_without_full() {
    let pressure = PressureStore::from_str(TWO_LINES, false).unwrap();

    assert_eq!(pressure.some, PressureStore::from_str(TWO_LINES, true).unwrap().some);
    assert_eq!(pressure.full, PressureAvg::default());
}

#[test]
fn pressure_one_line_read_with_full_is_too_short() {
    assert_eq!(PressureStore::from_str(ONE_LINE, true).unwrap_err(), GrammarError::TooFewFields);
    assert_eq!(PressureStore::from_str("", false).unwrap_err(), GrammarError::TooFewFields);
    assert_eq!(
        PressureStore::from_str("some avg10=1.50 avg60=0.25 avg300=12.00", false).unwrap_err(),
        GrammarError::TooFewFields
    );
    assert_eq!(
        PressureStore::from_str(
            "some avg10=1.50 avg60=0.25 avg300=12.00 total=1 full avg10=0.10 avg60=1.00",
            true
        )
        .unwrap_err(),
        GrammarError::TooFewFields
    );
}

#[test]
fn pressure_names_the_field_that_does_not_fit() {
    assert_eq!(
        PressureStore::from_str("full avg10=1.50 avg60=0.25 avg300=12.00 total=1", false).unwrap_err(),
        GrammarError::UnexpectedKeyword(0)
    );
    assert_eq!(
        PressureStore::from_str("some avg60=1.50 avg60=0.25 avg300=12.00 total=1", false).unwrap_err(),
        GrammarError::UnexpectedKeyword(1)
    );
    assert_eq!(
        PressureStore::from_str("some avg10=1.50 avg60=x avg300=12.00 total=1", false).unwrap_err(),
        GrammarError::NotNumeric(2)
    );
    assert_eq!(
        PressureStore::from_str("some avg10=1.50 avg60=0.25 avg300= total=1", false).unwrap_err(),
        GrammarError::NotNumeric(3)
    );
    assert_eq!(
        PressureStore::from_str("some avg10=1.50 avg60=0.25 avg300=12.00 total=1.5", false).unwrap_err(),
        GrammarError::NotNumeric(4)
    );
    assert_eq!(
        PressureStore::from_str("some avg10=1.50 avg60=0.25 avg300=12.00 sum=1", false).unwrap_err(),
        GrammarError::UnexpectedKeyword(4)
    );
    assert_eq!(
        PressureStore::from_str(
            "some avg10=1.50 avg60=0.25 avg300=12.00 total=1 some avg10=1 avg60=1 avg300=1 total=1",
            true
        )
        .unwrap_err(),
        GrammarError::UnexpectedKeyword(5)
    );
    assert_eq!(
        PressureStore::from_str(
            "some avg10=1.50 avg60=0.25 avg300=12.00 total=1 full avg10=1 avg60=1 avg300=1 total=-1",
            true
        )
        .unwrap_err(),
        GrammarError::NotNumeric(9)
    );
}

#[test]
fn pressure_passes_values_out_of_range_through() {
    let pressure =
        PressureStore::from_str("some avg10=250.75 avg60=-3.5 avg300=100.01 total=0", false).unwrap();

    assert_eq!(pressure.some.avg10, Decimal { negative: false, digits: 25075, scale: 2 });
    assert_eq!(pressure.some.avg60, Decimal { negative: true, digits: 35, scale: 1 });
    assert_eq!(pressure.some.avg300, Decimal { negative: false, digits: 10001, scale: 2 });
    assert!(!percent_is_valid(percent(pressure.some.avg10)));
    assert!(!percent_is_valid(percent(pressure.some.avg60)));
}

#[test]
fn pressure_grammar_goes_by_domain_and_kernel() {
    let old = OsRelease::new(5, 12, 300);
    let new = OsRelease::new(5, 13, 0);

    assert!(!Pressure::Cpu.has_full(&old));
    assert!(Pressure::Cpu.has_full(&new));
    assert!(Pressure::Cpu.has_full(&OsRelease::new(6, 0, 0)));
    assert!(!Pressure::Cpu.has_full(&OsRelease::new(4, 20, 0)));
    assert!(Pressure::Mem.has_full(&old));
    assert!(Pressure::Io.has_full(&old));
    assert!(Pressure::Mem.has_full(&new));
    assert!(Pressure::Io.has_full(&new));
}

#[test]
fn pressure_of_cpu_on_an_old_kernel() {
    let old = OsRelease::new(5, 12, 19);
    let pressure = PressureStore::new(Pressure::Cpu, &old, Some(ONE_LINE)).unwrap();

    assert_eq!(pressure.some.total, 123456);
    assert_eq!(pressure.full, PressureAvg::default());
    assert!(PressureStore::new(Pressure::Mem, &old, Some(ONE_LINE)).is_none());
    assert!(PressureStore::new(Pressure::Io, &old, Some(ONE_LINE)).is_none());
    assert_eq!(
        PressureStore::read(Pressure::Mem, &old, Some(ONE_LINE)).unwrap_err(),
        ReadError::Malformed(GrammarError::TooFewFields)
    );
}

#[test]
fn pressure_of_cpu_on_a_new_kernel() {
    let new = OsRelease::new(5, 13, 0);

    assert!(PressureStore::new(Pressure::Cpu, &new, Some(ONE_LINE)).is_none());
    let pressure = PressureStore::new(Pressure::Cpu, &new, Some(TWO_LINES)).unwrap();
    assert_eq!(pressure.full.total, 654321);
}

#[test]
fn pressure_without_file() {
    let kernel = OsRelease::new(5, 14, 12);

    assert!(PressureStore::new(Pressure::Cpu, &kernel, None).is_none());
    assert_eq!(
        PressureStore::read(Pressure::Io, &kernel, None).unwrap_err(),
        ReadError::Unavailable
    );
}

#[test]
fn pressure_read_twice_gives_equal_records() {
    let kernel = OsRelease::new(5, 14, 12);
    let first = PressureStore::read(Pressure::Mem, &kernel, Some(TWO_LINES));
    let second = PressureStore::read(Pressure::Mem, &kernel, Some(TWO_LINES));

    assert_eq!(first, second);
    assert!(first.is_ok());
}

#[test]
fn default_pressure_is_zero() {
    let pressure = PressureStore::default();

    assert_eq!(pressure.some, PressureAvg::default());
    assert_eq!(pressure.full.total, 0);
    assert_eq!(percent(pressure.some.avg10), 0.0);
}
