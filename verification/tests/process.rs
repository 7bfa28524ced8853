use process_monitor::error::Error;
use process_monitor::process::{Process, ProcessFiles};

const STATUS: &str = "Name:\tbash\nState:\tS (sleeping)\nUid:\t1000\t1000\t1000\t1000\nVmData:    1234 kB\nVmStk:\t132 kB\n";
const STAT: &str = "4242 (bash) S 1 4242 4242 0 -1 4194304 100 0 0 0 30 20 5 5 20 0 1 0 5000 1000000 200 18446744073709551615 1 1 0 0 0 0 0 0 0 0 0 0 17 0 0 0 0 0 0\n";
const PASSWD: &str = "root:x:0:0:root:/root:/bin/bash\nalice:x:1000:1000:Alice:/home/alice:/bin/bash\nclone:x:1000:1000::/home/clone:/bin/sh\n";

fn files() -> ProcessFiles {
    ProcessFiles {
        status: Some(String::from(STATUS)),
        cmdline: Some(String::from("/bin/bash\0--login\0")),
        stat: Some(String::from(STAT)),
    }
}

fn table() -> Option<String> {
    Some(String::from(PASSWD))
}

#[test]
fn ram_is_first_token_of_vmdata() {
    assert_eq!(Process::get_ram("VmData:    1234 kB"), Ok(1234));
    assert_eq!(Process::get_ram(STATUS), Ok(1234));
    assert_eq!(Process::get_ram("Name:\tkthreadd\n"), Err(Error::Parse));
    assert_eq!(Process::get_ram("VmData: many kB\n"), Err(Error::Parse));
    assert_eq!(Process::get_ram("VmData:\n"), Err(Error::Parse));
    assert_eq!(Process::get_ram("VmData 12 kB\n"), Err(Error::Parse));
}

#[test]
fn uid_is_first_token_of_uid() {
    assert_eq!(Process::get_uid(STATUS), Ok(String::from("1000")));
    assert_eq!(Process::get_uid("Name:\tx\n"), Err(Error::Parse));
}

#[test]
fn command_loses_its_last_character() {
    assert_eq!(Process::get_command("/bin/bash\0--login\0"), "/bin/bash\0--login");
    assert_eq!(Process::get_command(""), "");
    assert_eq!(Process::get_command("\0"), "");
}

#[test]
fn active_jiffies_sum_four_fields() {
    assert_eq!(Process::get_active_jiffies(STAT), Ok(60));
    assert_eq!(Process::get_active_jiffies("1 (a) S 1 2 3"), Err(Error::Parse));
    let big = "0 0 0 0 0 0 0 0 0 0 0 0 0 4294967295 1 0 0 0 0 0 0 5";
    assert_eq!(Process::get_active_jiffies(big), Err(Error::Parse));
    assert_eq!(Process::get_start_time(big), Ok(5));
    assert_eq!(Process::get_start_time(STAT), Ok(5000));
}

#[test]
fn user_is_first_match_in_accounts() {
    assert_eq!(Process::get_user("1000", PASSWD), Ok(String::from("alice")));
    assert_eq!(Process::get_user("0", PASSWD), Ok(String::from("root")));
    assert_eq!(Process::get_user("77", PASSWD), Ok(String::new()));
    assert_eq!(Process::find_user("77", PASSWD), Err(Error::Lookup));
    assert_eq!(Process::find_user("0", "  root:x:0:0 \n"), Ok(String::from("root")));
}

#[test]
fn user_lookup_stops_at_malformed_row() {
    let text = "root:x:0:0\nbroken\nalice:x:1000:1000\n";
    assert_eq!(Process::get_user("0", text), Ok(String::from("root")));
    assert_eq!(Process::get_user("1000", text), Err(Error::Parse));
}

#[test]
fn uptime_is_whole_seconds_since_start() {
    assert_eq!(Process::get_uptime(10_000, 5000, 100), 50);
    assert_eq!(Process::get_uptime(10_099, 5000, 100), 50);
    assert_eq!(Process::get_uptime(10_100, 5000, 100), 51);
    assert_eq!(Process::get_uptime(1_000, 5000, 100), 0);
    assert_eq!(Process::get_uptime(5_000, 5000, 100), 0);
    assert_eq!(Process::get_uptime(u64::MAX, 0, i64::MAX), u64::MAX / 100);
    assert_eq!(Process::get_uptime(350, 7, 3), 1);
}

#[test]
fn record_is_built_from_the_files() {
    let p = Process::new(4242, 150, 10_000, &files(), &table(), 100).unwrap();
    assert_eq!(p.pid(), 4242);
    assert_eq!(p.ram(), 1234);
    assert_eq!(p.uid(), "1000");
    assert_eq!(p.user(), "alice");
    assert_eq!(p.active_jiffies(), 60);
    assert_eq!(p.total_jiffies(), 150);
    assert_eq!(p.uptime(), 50);
    assert_eq!(p.command(), "/bin/bash\0--login");
}

#[test]
fn record_fails_on_the_first_bad_file() {
    let mut f = files();
    f.status = None;
    f.stat = Some(String::from("short"));
    assert_eq!(Process::new(1, 0, 0, &f, &table(), 100).err(), Some(Error::Io));
    let mut f = files();
    f.cmdline = None;
    assert_eq!(Process::new(1, 0, 0, &f, &table(), 100).err(), Some(Error::Io));
    let mut f = files();
    f.stat = None;
    assert_eq!(Process::new(1, 0, 0, &f, &table(), 100).err(), Some(Error::Io));
    assert_eq!(Process::new(1, 0, 0, &files(), &None, 100).err(), Some(Error::Io));
    let mut f = files();
    f.stat = Some(String::from("short"));
    assert_eq!(Process::new(1, 0, 0, &f, &table(), 100).err(), Some(Error::Parse));
    let mut f = files();
    f.status = Some(String::from("Uid:\t0\n"));
    f.cmdline = None;
    assert_eq!(Process::new(1, 0, 0, &f, &table(), 100).err(), Some(Error::Parse));
}

#[test]
fn cpu_utilization_is_exact() {
    let p = Process::new(4242, 150, 10_000, &files(), &table(), 100).unwrap();
    let u = p.cpu_utilization(10_000, 100);
    assert_eq!((u.numerator(), u.denominator()), (600_000, 500_000));
    assert!(!u.is_negative());
    assert_eq!(u.numerator() as f64 / u.denominator() as f64, 1.2);
    let later = p.cpu_utilization(20_000, 100);
    assert_eq!((later.numerator(), later.denominator()), (600_000, 1_500_000));
    let none = p.cpu_utilization(5_000, 100);
    assert_eq!((none.numerator(), none.denominator()), (0, 1));
    let before = p.cpu_utilization(4_000, 100);
    assert!(before.is_negative());
    assert_eq!((before.numerator(), before.denominator()), (600_000, 100_000));
}

#[test]
fn command_of_41_characters_is_cut() {
    let mut f = files();
    let long: String = "abcdefghijklmnopqrstuvwxyz0123456789ABCDE".chars().collect();
    assert_eq!(long.chars().count(), 41);
    f.cmdline = Some(format!("{}\0", long));
    let p = Process::new(1, 0, 10_000, &f, &table(), 100).unwrap();
    assert_eq!(p.command(), "abcdefghijklmnopqrstuvwxyz0123456789A...");
    assert_eq!(p.command().chars().count(), 40);
}

#[test]
fn command_of_40_characters_is_kept() {
    let mut f = files();
    let long = "abcdefghijklmnopqrstuvwxyz0123456789ABCD";
    assert_eq!(long.chars().count(), 40);
    f.cmdline = Some(format!("{}\0", long));
    let p = Process::new(1, 0, 10_000, &f, &table(), 100).unwrap();
    assert_eq!(p.command(), long);
    let accents = "\u{e9}".repeat(40);
    f.cmdline = Some(format!("{}\0", accents));
    let p = Process::new(1, 0, 10_000, &f, &table(), 100).unwrap();
    assert_eq!(p.command(), accents);
}

#[test]
fn head_and_rows_are_aligned() {
    assert_eq!(
        Process::head_str(),
        format!(
            "{:<8} {:<8} {:<8} {:<10} {:>10} {:<40}",
            "PID", "USER", "CPU[%]", "RAM[KB]", "UPTIME", "COMMAND"
        )
    );
    let p = Process::new(4242, 150, 10_000, &files(), &table(), 100).unwrap();
    assert_eq!(
        p.row_str("1.20"),
        format!(
            "{:<8} {:<8} {:<8} {:<10} {:>10} {:<40}",
            4242, "alice", "1.20", 1234, "00:00:50", "/bin/bash\0--login"
        )
    );
}

#[test]
fn pid_path_is_under_proc() {
    assert_eq!(Process::format_pid_path(4242, "stat"), "/proc/4242/stat");
    assert_eq!(Process::format_pid_path(0, "cmdline"), "/proc/0/cmdline");
    assert_eq!(
        Process::format_pid_path(u32::MAX, "status"),
        "/proc/4294967295/status"
    );
}
