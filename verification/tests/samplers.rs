use process_monitor::cpu::Cpu;
use process_monitor::error::Error;
use process_monitor::memory::{MemInfo, MemScale};
use process_monitor::ratio::Ratio;

fn value(r: &Ratio) -> f64 {
    let size = r.numerator() as f64 / r.denominator() as f64;
    if r.is_negative() {
        -size
    } else {
        size
    }
}

#[test]
fn cpu_first_reading_is_zero() {
    let cpu = Cpu::new("cpu 10 0 10 80 0\ncpu0 10 0 10 80 0\n").unwrap();
    assert_eq!(cpu.get_cpu_count(), 1);
    assert_eq!(cpu.total_jif(), 100);
    let u = cpu.utilization();
    assert_eq!((u.numerator(), u.denominator()), (0, 1));
    assert_eq!(value(&u), 0.0);
}

#[test]
fn cpu_utilization_is_active_over_total_delta() {
    let mut cpu = Cpu::new("cpu 10 0 10 80 0\n").unwrap();
    assert_eq!(cpu.refresh("cpu 20 0 20 160 0\n"), Ok(()));
    let u = cpu.utilization();
    assert_eq!((u.numerator(), u.denominator()), (20, 100));
    assert_eq!(value(&u), 0.2);
    assert_eq!(cpu.total_jif(), 200);
}

#[test]
fn cpu_utilization_zero_delta_is_zero() {
    let mut cpu = Cpu::new("cpu 1 2 3 4 5\n").unwrap();
    assert_eq!(cpu.refresh("cpu 1 2 3 4 5\n"), Ok(()));
    let u = cpu.utilization();
    assert_eq!((u.numerator(), u.denominator()), (0, 1));
}

#[test]
fn cpu_utilization_stays_in_unit_interval() {
    let samples: [(u64, u64); 9] = [
        (0, 0),
        (5, 0),
        (5, 7),
        (1000, 7),
        (1000, 3),
        (900, 50),
        (901, 2),
        (u64::MAX - 7, 7),
        (0, 0),
    ];
    let mut cpu = Cpu::from_sample(4, samples[0]).unwrap();
    for s in samples.iter() {
        assert_eq!(cpu.advance(*s), Ok(()));
        let u = cpu.utilization();
        assert!(!u.is_negative());
        assert!(u.numerator() as u128 <= u.denominator());
    }
    assert_eq!(cpu.get_cpu_count(), 4);
}

#[test]
fn cpu_window_moves_on_every_reading() {
    let mut cpu = Cpu::from_sample(1, (10, 10)).unwrap();
    assert_eq!(cpu.advance((30, 20)), Ok(()));
    let u = cpu.utilization();
    assert_eq!((u.numerator(), u.denominator()), (20, 30));
    assert_eq!(cpu.advance((40, 15)), Ok(()));
    assert_eq!(cpu.total_jif(), 55);
    let u = cpu.utilization();
    assert_eq!((u.numerator(), u.denominator()), (0, 1));
    assert_eq!(cpu.advance((35, 25)), Ok(()));
    let u = cpu.utilization();
    assert_eq!((u.numerator(), u.denominator()), (0, 1));
    assert_eq!(cpu.refresh("cpu 20 10 10 20 10\n"), Ok(()));
    assert_eq!(cpu.total_jif(), 70);
    let u = cpu.utilization();
    assert_eq!((u.numerator(), u.denominator()), (5, 10));
    assert_eq!(cpu.refresh("cpu 1 1 1 1 1\n"), Ok(()));
    assert_eq!(cpu.total_jif(), 5);
    let u = cpu.utilization();
    assert_eq!((u.numerator(), u.denominator()), (0, 1));
}

#[test]
fn cpu_refuses_only_what_gives_no_reading() {
    let mut cpu = Cpu::from_sample(1, (10, 10)).unwrap();
    assert_eq!(cpu.advance((u64::MAX, 10)), Err(Error::Parse));
    assert_eq!(cpu.refresh("nothing"), Err(Error::Parse));
    assert_eq!(cpu.refresh("cpu 1 2 3 4\n"), Err(Error::Parse));
    assert_eq!(cpu.total_jif(), 20);
    let u = cpu.utilization();
    assert_eq!((u.numerator(), u.denominator()), (0, 1));
    assert_eq!(cpu.advance((10, 30)), Ok(()));
    let u = cpu.utilization();
    assert_eq!((u.numerator(), u.denominator()), (0, 20));
}

#[test]
fn cpu_new_rejects_malformed_file() {
    assert_eq!(Cpu::new("").err(), Some(Error::Parse));
    assert_eq!(Cpu::from_sample(1, (u64::MAX, 1)).err(), Some(Error::Parse));
}

#[test]
fn memory_utilization_three_quarters() {
    let mem = MemInfo::new("MemTotal: 1000 kB\nMemFree: 250 kB\n").unwrap();
    assert_eq!(mem.total_mem(), 1000);
    assert_eq!(mem.free_mem(), 250);
    let u = mem.utilization();
    assert_eq!((u.numerator(), u.denominator()), (750, 1000));
    assert_eq!(value(&u), 0.75);
}

#[test]
fn memory_utilization_below_zero_when_free_exceeds_total() {
    let mem = MemInfo::new("MemTotal: 100 kB\nMemFree: 150 kB\n").unwrap();
    let u = mem.utilization();
    assert!(u.is_negative());
    assert_eq!(value(&u), -0.5);
}

#[test]
fn memory_is_held_in_the_chosen_unit() {
    let text = "MemTotal: 16500000 kB\nMemFree: 4999999 kB\n";
    let mem = MemInfo::with_scale(text, MemScale::AsMegaBytes).unwrap();
    assert_eq!((mem.total_mem(), mem.free_mem()), (16500, 4999));
    let mem = MemInfo::with_scale(text, MemScale::AsGibaBytes).unwrap();
    assert_eq!((mem.total_mem(), mem.free_mem()), (16, 4));
    assert_eq!(mem.scaling(), MemScale::AsGibaBytes);
    assert_eq!(MemScale::AsKiloBytes.unit(), "KB");
    assert_eq!(MemScale::AsMegaBytes.unit(), "MB");
    assert_eq!(MemScale::AsGibaBytes.unit(), "GB");
    assert_eq!(MemScale::AsMegaBytes.divisor(), 1000);
}

#[test]
fn memory_refresh_replaces_total_and_free() {
    let mut mem = MemInfo::new("MemTotal: 1000 kB\nMemFree: 250 kB\n").unwrap();
    assert_eq!(mem.refresh("MemTotal: 2000 kB\nMemFree: 500 kB\n"), Ok(()));
    assert_eq!((mem.total_mem(), mem.free_mem()), (2000, 500));
    assert_eq!(mem.refresh("MemTotal: 2000 kB\n"), Err(Error::Parse));
    assert_eq!((mem.total_mem(), mem.free_mem()), (2000, 500));
    assert_eq!(MemInfo::new("").err(), Some(Error::Parse));
}

#[test]
fn ratio_order_is_exact() {
    let third = Ratio::new(1, 3);
    let same = Ratio::new(6148914691236517205, 18446744073709551615);
    let more = Ratio::new(6148914691236517206, 18446744073709551615);
    assert!(third.le(&same) && same.le(&third));
    assert!(third.lt(&more) && !more.le(&third));
    let huge = Ratio::new(u64::MAX, u128::MAX);
    let huger = Ratio::new(u64::MAX, u128::MAX - 1);
    assert!(huge.lt(&huger));
    let minus = Ratio::negative(1, 2);
    assert!(minus.lt(&Ratio::zero()) && minus.lt(&third));
    assert!(Ratio::negative(2, 3).lt(&minus));
    assert!(Ratio::negative(0, 5).le(&Ratio::zero()));
    assert!(Ratio::zero().le(&Ratio::negative(0, 5)));
}
