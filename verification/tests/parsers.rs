use process_monitor::error::Error;
use process_monitor::file_utils::read_as_hashmap;
use process_monitor::linux_parser::{
    clk_tck_from, get_cpu_cnt, get_cpu_utilization, get_kernel, get_mem_utilization,
    get_operating_system, get_pids, get_processes, get_sc_clk_tck, get_uptime, is_numeric,
    ProcessStates,
};

const STAT: &str = "cpu  10 20 30 40 50 6 7 8 9 10\n\
cpu0 5 10 15 20 25 3 3 4 4 5\n\
cpu1 5 10 15 20 25 3 4 4 5 5\n\
intr 12345 0 0\n\
ctxt 777\n\
btime 1700000000\n\
processes 4242\n\
procs_running 3\n\
procs_blocked 1\n";

#[test]
fn key_value_line_is_split_at_first_delimiter() {
    let kv = read_as_hashmap("VmData:    1234 kB", ":").unwrap();
    assert_eq!(kv.get("VmData"), Some(String::from("1234 kB")));
    assert_eq!(kv.get("VmRSS"), None);
}

#[test]
fn key_value_first_occurrence_wins() {
    let kv = read_as_hashmap("a=1\nb=2\na=3\n", "=").unwrap();
    assert_eq!(kv.get("a"), Some(String::from("1")));
    assert_eq!(kv.get("b"), Some(String::from("2")));
}

#[test]
fn key_value_later_delimiters_stay_in_the_value() {
    let kv = read_as_hashmap("k:a:b", ":").unwrap();
    assert_eq!(kv.get("k"), Some(String::from("a:b")));
    let kv = read_as_hashmap("time: 12:30 \r\n", ":").unwrap();
    assert_eq!(kv.get("time"), Some(String::from("12:30")));
    let kv = read_as_hashmap("k::v::w", "::").unwrap();
    assert_eq!(kv.get("k"), Some(String::from("v::w")));
    let kv = read_as_hashmap("cpu  1 2 3\nempty \n", " ").unwrap();
    assert_eq!(kv.get("cpu"), Some(String::from("1 2 3")));
    assert_eq!(kv.get("empty"), Some(String::new()));
}

#[test]
fn key_value_line_without_delimiter_is_malformed() {
    assert_eq!(read_as_hashmap("a=1\n# note\n", "=").err(), Some(Error::Parse));
    assert!(read_as_hashmap("", "=").is_ok());
}

#[test]
fn cpu_sample_sums_active_and_idle() {
    assert_eq!(get_cpu_utilization(STAT), Ok((60, 90)));
    assert_eq!(get_cpu_utilization("cpu 1 2 3 4 5"), Ok((6, 9)));
}

#[test]
fn cpu_sample_rejects_short_or_huge_lines() {
    assert_eq!(get_cpu_utilization(""), Err(Error::Parse));
    assert_eq!(get_cpu_utilization("cpu 1 2 3 4"), Err(Error::Parse));
    assert_eq!(
        get_cpu_utilization("cpu 1 2 3 4 5 99999999999999999999"),
        Err(Error::Parse)
    );
    assert_eq!(
        get_cpu_utilization("cpu 18446744073709551615 1 0 0 0"),
        Err(Error::Parse)
    );
    assert_eq!(get_cpu_utilization("cpu 1 2 3 4 \u{2460}"), Err(Error::Parse));
}

#[test]
fn cpu_count_leaves_out_the_sum_line() {
    assert_eq!(get_cpu_cnt(STAT), Ok(2));
    assert_eq!(get_cpu_cnt("cpu 1 2 3\n"), Ok(1));
    assert_eq!(get_cpu_cnt("intr 1\n"), Ok(0));
}

#[test]
fn process_counts_are_read_by_label() {
    assert_eq!(get_processes(ProcessStates::Total, STAT), Ok(4242));
    assert_eq!(get_processes(ProcessStates::Running, STAT), Ok(3));
    assert_eq!(get_processes(ProcessStates::Blocked, STAT), Ok(1));
    assert_eq!(ProcessStates::Total.label(), "processes");
    assert_eq!(ProcessStates::Running.label(), "procs_running");
    assert_eq!(ProcessStates::Blocked.label(), "procs_blocked");
}

#[test]
fn process_counts_missing_or_malformed() {
    assert_eq!(get_processes(ProcessStates::Total, "ctxt 1\n"), Err(Error::Parse));
    assert_eq!(get_processes(ProcessStates::Total, "processes x\n"), Err(Error::Parse));
    assert_eq!(get_processes(ProcessStates::Total, "nospace\n"), Err(Error::Parse));
    assert_eq!(
        get_processes(ProcessStates::Total, "processes 4294967296\n"),
        Err(Error::Parse)
    );
}

#[test]
fn memory_sample_is_free_then_total() {
    let text = "MemTotal:       16000 kB\nMemFree:         4000 kB\nMemAvailable: 1 kB\n";
    assert_eq!(get_mem_utilization(text), Ok((4000, 16000)));
    assert_eq!(get_mem_utilization("MemTotal: 1 kB\n"), Err(Error::Parse));
    assert_eq!(get_mem_utilization("MemTotal: x kB\nMemFree: 1 kB\n"), Err(Error::Parse));
}

#[test]
fn uptime_is_read_in_hundredths() {
    assert_eq!(get_uptime("350735.47 1234567.89\n"), Ok(35073547));
    assert_eq!(get_uptime("12"), Ok(1200));
    assert_eq!(get_uptime("12."), Ok(1200));
    assert_eq!(get_uptime("12.5"), Ok(1250));
    assert_eq!(get_uptime("12.349"), Ok(1234));
    assert_eq!(get_uptime("+7.01"), Ok(701));
}

#[test]
fn uptime_malformed() {
    assert_eq!(get_uptime(""), Err(Error::Parse));
    assert_eq!(get_uptime(".5"), Err(Error::Parse));
    assert_eq!(get_uptime("1e3"), Err(Error::Parse));
    assert_eq!(get_uptime("1.2.3"), Err(Error::Parse));
    assert_eq!(get_uptime("184467440737095516.16"), Err(Error::Parse));
    assert_eq!(get_uptime("184467440737095516.15"), Ok(u64::MAX));
}

#[test]
fn operating_system_name_loses_its_quotes() {
    let text = "NAME=\"Ubuntu\"\nPRETTY_NAME=\"Ubuntu 22.04.3 LTS\"\nID=ubuntu\n";
    assert_eq!(get_operating_system(text), Ok(String::from("Ubuntu 22.04.3 LTS")));
    assert_eq!(get_operating_system("NAME=x\n"), Err(Error::Parse));
    assert_eq!(get_operating_system("PRETTY_NAME\n"), Err(Error::Parse));
}

#[test]
fn kernel_is_the_third_piece() {
    let text = "Linux version 5.15.0-91-generic (buildd@lcy02) #101\n";
    assert_eq!(get_kernel(text), Ok(String::from("5.15.0-91-generic")));
    assert_eq!(get_kernel("a  b c"), Ok(String::from("c")));
    assert_eq!(get_kernel(" Linux\tversion\n6.1 "), Ok(String::from("6.1")));
    assert_eq!(get_kernel("a  b"), Err(Error::Parse));
    assert_eq!(get_kernel("Linux version"), Err(Error::Parse));
}

#[test]
fn pids_are_the_numeric_names() {
    let names = vec![
        String::from("1"),
        String::from("self"),
        String::from("42"),
        String::from("cpuinfo"),
        String::from("007"),
    ];
    assert_eq!(get_pids(&names), Ok(vec![1, 42, 7]));
    assert_eq!(get_pids(&Vec::new()), Ok(Vec::new()));
}

#[test]
fn pids_numeric_name_that_is_no_number() {
    assert_eq!(get_pids(&vec![String::from("4294967296")]), Err(Error::Parse));
    assert_eq!(get_pids(&vec![String::from("")]), Err(Error::Parse));
    assert_eq!(get_pids(&vec![String::from("\u{0663}")]), Err(Error::Parse));
}

#[test]
fn numeric_text() {
    assert!(is_numeric("12345"));
    assert!(is_numeric(""));
    assert!(is_numeric("\u{2460}7"));
    assert!(!is_numeric("12a"));
    assert!(!is_numeric("cpu"));
}

#[test]
fn clock_ticks_from_each_answer() {
    assert_eq!(clk_tck_from(Ok(Some(100))), Some(100));
    assert_eq!(clk_tck_from(Ok(None)), None);
    assert_eq!(clk_tck_from(Err(nix::errno::Errno::EINVAL)), Some(1));
}

#[test]
fn clock_ticks_of_this_machine() {
    match get_sc_clk_tck() {
        Some(v) => assert!(v > 0),
        None => {}
    }
}
