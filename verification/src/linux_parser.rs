//! Readers for the system-wide files of the process-information filesystem.
//! Each takes the text of a file and gives the values that it holds.

use vstd::prelude::*;
use crate::error::Error;
use crate::file_utils::{key_values, read_as_hashmap};
use crate::number::{parse_hundredths, parse_hundredths_u64, parse_u64, parse_unsigned};
use crate::text::{
    contains, has_match, is_numeric_char, lines, remove_all, split_lines, split_whitespace,
    to_chars, to_string, unicode_numeric, views, without, words,
};

verus! {

pub const PROC_DIR: &'static str = "/proc/";

pub const VERSION_FILENAME: &'static str = "version";

pub const MEM_FILENAME: &'static str = "meminfo";

pub const UPTIME_FILENAME: &'static str = "uptime";

pub const STAT_FILENAME: &'static str = "stat";

pub const STATUS_FILENAME: &'static str = "status";

pub const CMDLINE_FILENAME: &'static str = "cmdline";

pub const PASSWD_PATH: &'static str = "/etc/passwd";

pub const OS_PATH: &'static str = "/etc/os-release";

/// The process counts that the aggregate stat file holds.
pub enum ProcessStates {
    Total,
    Running,
    Blocked,
}

impl ProcessStates {
    /// The key under which the aggregate stat file holds the count.
    pub open spec fn label_text(&self) -> Seq<char> {
        match *self {
            ProcessStates::Total => "processes"@,
            ProcessStates::Blocked => "procs_blocked"@,
            ProcessStates::Running => "procs_running"@,
        }
    }

    /// The key under which the aggregate stat file holds the count.
    pub fn label(&self) -> (r: &'static str)
        ensures
            r@ == self.label_text(),
    {
        match self {
            ProcessStates::Total => "processes",
            ProcessStates::Blocked => "procs_blocked",
            ProcessStates::Running => "procs_running",
        }
    }
}

#[verifier::external_type_specification]
#[verifier::external_body]
pub struct ExErrno(nix::errno::Errno);

/// `nix::unistd::sysconf` for the variable `CLK_TCK`. Trusted: a value that
/// is reported is not -1, which the system call keeps for "no value".
/// Nothing else is claimed: the answer is the machine's.
#[verifier::external_body]
fn sysconf_clk_tck() -> (r: Result<Option<i64>, nix::errno::Errno>)
    ensures
        r matches Ok(Some(v)) ==> v != -1,
{
    nix::unistd::sysconf(nix::unistd::SysconfVar::CLK_TCK)
}

/// The clock ticks per second that an answer of the system stands for: the
/// value where there is one, 1 where the query failed, none where the system
/// has no such value.
pub open spec fn clk_tck_of(outcome: Result<Option<i64>, nix::errno::Errno>) -> Option<i64> {
    match outcome {
        Ok(Some(v)) => Some(v),
        Ok(None) => None,
        Err(_) => Some(1),
    }
}

/// The clock ticks per second that an answer of the system stands for.
pub fn clk_tck_from(outcome: Result<Option<i64>, nix::errno::Errno>) -> (r: Option<i64>)
    ensures
        r == clk_tck_of(outcome),
{
    match outcome {
        Ok(op) => op,
        Err(_) => Some(1),
    }
}

/// The clock ticks per second of this machine, or `None` where the system
/// has no such value.
pub fn get_sc_clk_tck() -> (r: Option<i64>)
    ensures
        r != Some(-1i64),
{
    clk_tck_from(sysconf_clk_tck())
}

/// Whether every character of `s` is numeric. The empty text is.
pub open spec fn all_numeric(s: Seq<char>) -> bool {
    forall|i: int| 0 <= i < s.len() ==> unicode_numeric(#[trigger] s[i])
}

/// Whether every character of `s` is numeric.
pub fn numeric_chars(s: &Vec<char>) -> (r: bool)
    ensures
        r == all_numeric(s@),
{
    let mut i: usize = 0;
    while i < s.len()
        invariant
            i <= s.len(),
            forall|j: int| 0 <= j < i ==> unicode_numeric(#[trigger] s@[j]),
        decreases s.len() - i,
    {
        if !is_numeric_char(s[i]) {
            return false;
        }
        i += 1;
    }
    true
}

/// Whether every character of `s` is numeric. The empty text is.
pub fn is_numeric(s: &str) -> (r: bool)
    ensures
        r == all_numeric(s@),
{
    numeric_chars(&to_chars(s))
}

/// Those of `items` that are numeric, in order.
pub open spec fn numeric_only(items: Seq<Seq<char>>) -> Seq<Seq<char>> {
    items.filter(|w: Seq<char>| all_numeric(w))
}

/// Whether each of `items` writes an unsigned number of at most `max`.
pub open spec fn all_parse(items: Seq<Seq<char>>, max: nat) -> bool {
    forall|i: int| 0 <= i < items.len() ==> parse_unsigned(#[trigger] items[i], max) is Some
}

/// The numbers that `items` write.
pub open spec fn numbers(items: Seq<Seq<char>>, max: nat) -> Seq<nat> {
    items.map_values(|w: Seq<char>| parse_unsigned(w, max).unwrap())
}

/// The numbers that the numeric ones among `items` write, when each of them
/// writes an unsigned number of at most `max`.
pub open spec fn numeric_values(items: Seq<Seq<char>>, max: nat) -> Option<Seq<nat>> {
    if all_parse(numeric_only(items), max) {
        Some(numbers(numeric_only(items), max))
    } else {
        None
    }
}

/// The numbers of `v`.
pub open spec fn as_nats(v: Seq<u64>) -> Seq<nat> {
    v.map_values(|x: u64| x as nat)
}

/// Reads the numeric ones among `items` as numbers of at most `max`. One
/// that is numeric and writes no such number is an error.
pub fn read_numeric(items: &Vec<Vec<char>>, max: u64) -> (r: Result<Vec<u64>, Error>)
    ensures
        match r {
            Ok(v) => numeric_values(views(items@), max as nat) == Some(as_nats(v@)),
            Err(e) => e == Error::Parse && numeric_values(views(items@), max as nat) is None,
        },
{
    let ghost all = views(items@);
    let ghost pred = |w: Seq<char>| all_numeric(w);
    let mut out: Vec<u64> = Vec::new();
    let mut i: usize = 0;
    assert(all.take(0) == Seq::<Seq<char>>::empty());
    assert(all.take(0).filter(pred) == Seq::<Seq<char>>::empty()) by {
        reveal(Seq::filter);
    }
    while i < items.len()
        invariant
            i <= items.len(),
            all == views(items@),
            pred == |w: Seq<char>| all_numeric(w),
            all_parse(all.take(i as int).filter(pred), max as nat),
            as_nats(out@) == numbers(all.take(i as int).filter(pred), max as nat),
        decreases items.len() - i,
    {
        let item = &items[i];
        let ghost seen = all.take(i as int);
        proof {
            assert(item@ == all[i as int]);
            assert(all.take(i + 1) == seen.push(item@));
            seen.lemma_filter_push(item@, pred);
        }
        if numeric_chars(item) {
            let value = match parse_u64(item) {
                Some(v) => if v <= max {
                    Some(v)
                } else {
                    None
                },
                None => None,
            };
            match value {
                Some(v) => {
                    let ghost before = out@;
                    out.push(v);
                    proof {
                        let kept = seen.filter(pred);
                        assert(as_nats(out@) == as_nats(before).push(v as nat));
                        assert(numbers(kept.push(item@), max as nat) == numbers(
                            kept,
                            max as nat,
                        ).push(v as nat));
                    }
                },
                None => {
                    proof {
                        all.lemma_filter_contains(pred, i as int);
                        let kept = all.filter(pred);
                        let j = choose|j: int| 0 <= j < kept.len() && kept[j] == item@;
                        assert(parse_unsigned(kept[j], max as nat) is None);
                    }
                    return Err(Error::Parse);
                },
            }
        }
        i += 1;
    }
    assert(all.take(items.len() as int) == all);
    Ok(out)
}

/// The line of `contents` with index `n`; the empty text where there are
/// fewer lines.
pub open spec fn line_or_empty(contents: Seq<char>, n: int) -> Seq<char> {
    if 0 <= n < lines(contents).len() {
        lines(contents)[n]
    } else {
        Seq::empty()
    }
}

/// The words of the line of `all` with index `n`; none where there are fewer
/// lines.
fn words_of_line(all: &Vec<Vec<char>>, n: usize, Ghost(contents): Ghost<Seq<char>>) -> (r: Vec<
    Vec<char>,
>)
    requires
        views(all@) == lines(contents),
    ensures
        views(r@) == words(line_or_empty(contents, n as int)),
{
    if n < all.len() {
        assert(all@[n as int]@ == views(all@)[n as int]);
        split_whitespace(&all[n])
    } else {
        let empty: Vec<char> = Vec::new();
        split_whitespace(&empty)
    }
}

/// The active and the idle jiffies that the aggregate stat file `contents`
/// holds. The numeric words of its first line are the counters: the first
/// three add up to the active jiffies, the next two to the idle jiffies. Each
/// numeric word has to write a 64-bit number, and both sums have to fit in 64
/// bits.
pub open spec fn cpu_sample(contents: Seq<char>) -> Option<(nat, nat)> {
    match numeric_values(words(line_or_empty(contents, 0)), u64::MAX as nat) {
        Some(n) => if n.len() >= 5 && n[0] + n[1] + n[2] <= u64::MAX && n[3] + n[4] <= u64::MAX {
            Some((n[0] + n[1] + n[2], n[3] + n[4]))
        } else {
            None
        },
        None => None,
    }
}

/// The active and the idle jiffies of the aggregate stat file `contents`, in
/// this order.
pub fn get_cpu_utilization(contents: &str) -> (r: Result<(u64, u64), Error>)
    ensures
        match r {
            Ok(s) => cpu_sample(contents@) == Some((s.0 as nat, s.1 as nat)),
            Err(e) => e == Error::Parse && cpu_sample(contents@) is None,
        },
{
    let text = to_chars(contents);
    let all = split_lines(&text);
    let first = words_of_line(&all, 0, Ghost(contents@));
    let n = match read_numeric(&first, u64::MAX) {
        Ok(n) => n,
        Err(e) => {
            return Err(e);
        },
    };
    if n.len() < 5 {
        return Err(Error::Parse);
    }
    assert(forall|k: int| 0 <= k < 5 ==> as_nats(n@)[k] == n@[k]);
    let active = match n[0].checked_add(n[1]) {
        Some(sum) => sum.checked_add(n[2]),
        None => None,
    };
    let idle = n[3].checked_add(n[4]);
    match (active, idle) {
        (Some(a), Some(i)) => Ok((a, i)),
        _ => Err(Error::Parse),
    }
}

/// The number of lines of `contents` that hold the text `cpu`.
pub open spec fn cpu_lines(contents: Seq<char>) -> nat {
    lines(contents).filter(|l: Seq<char>| contains(l, "cpu"@)).len()
}

/// The number of cores that the aggregate stat file `contents` lists: one
/// less than its lines that hold `cpu`, since the first of them is the sum
/// over all cores; a file with one such line, or none, counts as it is.
pub open spec fn core_count(contents: Seq<char>) -> nat {
    if cpu_lines(contents) >= 2 {
        (cpu_lines(contents) - 1) as nat
    } else {
        cpu_lines(contents)
    }
}

/// The number of cores that the aggregate stat file `contents` lists. A
/// count that does not fit in 32 bits is an error.
pub fn get_cpu_cnt(contents: &str) -> (r: Result<u32, Error>)
    ensures
        match r {
            Ok(n) => n == core_count(contents@),
            Err(e) => e == Error::Parse && core_count(contents@) > u32::MAX,
        },
{
    let text = to_chars(contents);
    let all = split_lines(&text);
    let name = to_chars("cpu");
    let ghost ls = lines(contents@);
    let ghost pred = |l: Seq<char>| contains(l, "cpu"@);
    let mut count: usize = 0;
    let mut i: usize = 0;
    assert(ls.take(0).filter(pred) == Seq::<Seq<char>>::empty()) by {
        assert(ls.take(0) == Seq::<Seq<char>>::empty());
        reveal(Seq::filter);
    }
    while i < all.len()
        invariant
            i <= all.len(),
            ls == views(all@),
            name@ == "cpu"@,
            pred == |l: Seq<char>| contains(l, "cpu"@),
            count <= i,
            count == ls.take(i as int).filter(pred).len(),
        decreases all.len() - i,
    {
        proof {
            assert(all@[i as int]@ == ls[i as int]);
            assert(ls.take(i + 1) == ls.take(i as int).push(ls[i as int]));
            ls.take(i as int).lemma_filter_push(ls[i as int], pred);
        }
        if has_match(&all[i], &name) {
            count += 1;
        }
        i += 1;
    }
    assert(ls.take(all.len() as int) == ls);
    let cores: usize = if count >= 2 {
        count - 1
    } else {
        count
    };
    if cores <= 0xffff_ffff {
        Ok(cores as u32)
    } else {
        Err(Error::Parse)
    }
}

/// The number that the second word of `line` writes.
pub open spec fn second_number(line: Seq<char>) -> Option<nat> {
    if words(line).len() >= 2 {
        parse_unsigned(words(line)[1], u64::MAX as nat)
    } else {
        None
    }
}

/// The free and the total memory that the aggregate memory file `contents`
/// holds, in this order: the second word of its first line is the total, the
/// second word of its second line the free memory.
pub open spec fn mem_sample(contents: Seq<char>) -> Option<(nat, nat)> {
    match (second_number(line_or_empty(contents, 0)), second_number(line_or_empty(contents, 1))) {
        (Some(total), Some(free)) => Some((free, total)),
        _ => None,
    }
}

/// The number that the second word among `ws` writes.
fn second_of(ws: &Vec<Vec<char>>, Ghost(line): Ghost<Seq<char>>) -> (r: Option<u64>)
    requires
        views(ws@) == words(line),
    ensures
        match r {
            Some(v) => second_number(line) == Some(v as nat),
            None => second_number(line) is None,
        },
{
    if ws.len() >= 2 {
        assert(ws@[1]@ == views(ws@)[1]);
        parse_u64(&ws[1])
    } else {
        None
    }
}

/// The free and the total memory of the aggregate memory file `contents`, in
/// kilobytes and in this order.
pub fn get_mem_utilization(contents: &str) -> (r: Result<(u64, u64), Error>)
    ensures
        match r {
            Ok(s) => mem_sample(contents@) == Some((s.0 as nat, s.1 as nat)),
            Err(e) => e == Error::Parse && mem_sample(contents@) is None,
        },
{
    let text = to_chars(contents);
    let all = split_lines(&text);
    let first = words_of_line(&all, 0, Ghost(contents@));
    let second = words_of_line(&all, 1, Ghost(contents@));
    let total = second_of(&first, Ghost(line_or_empty(contents@, 0)));
    let free = second_of(&second, Ghost(line_or_empty(contents@, 1)));
    match (total, free) {
        (Some(t), Some(f)) => Ok((f, t)),
        _ => Err(Error::Parse),
    }
}

/// The time since boot that the uptime file `contents` holds, in hundredths
/// of a second: its first word, read as a decimal number.
pub open spec fn uptime_hundredths(contents: Seq<char>) -> Option<nat> {
    if words(contents).len() >= 1 {
        parse_hundredths(words(contents)[0], u64::MAX as nat)
    } else {
        None
    }
}

/// The time since boot of the uptime file `contents`, in hundredths of a
/// second.
pub fn get_uptime(contents: &str) -> (r: Result<u64, Error>)
    ensures
        match r {
            Ok(v) => uptime_hundredths(contents@) == Some(v as nat),
            Err(e) => e == Error::Parse && uptime_hundredths(contents@) is None,
        },
{
    let text = to_chars(contents);
    let ws = split_whitespace(&text);
    if ws.len() < 1 {
        return Err(Error::Parse);
    }
    assert(ws@[0]@ == views(ws@)[0]);
    match parse_hundredths_u64(&ws[0]) {
        Some(v) => Ok(v),
        None => Err(Error::Parse),
    }
}

/// The count that the aggregate stat file `contents` holds under `label`:
/// the file is read as key/value lines parted by a space, and the value of
/// `label` as a 32-bit number.
pub open spec fn process_count(label: Seq<char>, contents: Seq<char>) -> Option<nat> {
    match key_values(contents, " "@) {
        Some(m) => if m.contains_key(label) {
            parse_unsigned(m[label], u32::MAX as nat)
        } else {
            None
        },
        None => None,
    }
}

/// The number of processes in the state `process_type` that the aggregate
/// stat file `contents` holds.
pub fn get_processes(process_type: ProcessStates, contents: &str) -> (r: Result<u32, Error>)
    ensures
        match r {
            Ok(n) => process_count(process_type.label_text(), contents@) == Some(n as nat),
            Err(e) => e == Error::Parse && process_count(process_type.label_text(), contents@)
                is None,
        },
{
    let stat = match read_as_hashmap(contents, " ") {
        Ok(stat) => stat,
        Err(e) => {
            return Err(e);
        },
    };
    let value = match stat.lookup(&to_chars(process_type.label())) {
        Some(v) => v,
        None => {
            return Err(Error::Parse);
        },
    };
    match crate::number::parse_u32(value) {
        Some(n) => Ok(n),
        None => Err(Error::Parse),
    }
}

/// The name of the operating system that the release file `contents` holds:
/// the file is read as key/value lines parted by `=`, and the name is the
/// value of `PRETTY_NAME` without its quotation marks.
pub open spec fn operating_system(contents: Seq<char>) -> Option<Seq<char>> {
    match key_values(contents, "="@) {
        Some(m) => if m.contains_key("PRETTY_NAME"@) {
            Some(remove_all(m["PRETTY_NAME"@], "\""@))
        } else {
            None
        },
        None => None,
    }
}

/// The name of the operating system that the release file `contents` holds.
pub fn get_operating_system(contents: &str) -> (r: Result<String, Error>)
    ensures
        match r {
            Ok(name) => operating_system(contents@) == Some(name@),
            Err(e) => e == Error::Parse && operating_system(contents@) is None,
        },
{
    let os_release = match read_as_hashmap(contents, "=") {
        Ok(m) => m,
        Err(e) => {
            return Err(e);
        },
    };
    match os_release.lookup(&to_chars("PRETTY_NAME")) {
        Some(name) => Ok(to_string(&without(name, &to_chars("\"")))),
        None => Err(Error::Parse),
    }
}

/// The kernel release that the version file `contents` holds: its third
/// word.
pub open spec fn kernel(contents: Seq<char>) -> Option<Seq<char>> {
    if words(contents).len() >= 3 {
        Some(words(contents)[2])
    } else {
        None
    }
}

/// The kernel release that the version file `contents` holds.
pub fn get_kernel(contents: &str) -> (r: Result<String, Error>)
    ensures
        match r {
            Ok(name) => kernel(contents@) == Some(name@),
            Err(e) => e == Error::Parse && kernel(contents@) is None,
        },
{
    let version_info = split_whitespace(&to_chars(contents));
    if version_info.len() >= 3 {
        assert(version_info@[2]@ == views(version_info@)[2]);
        Ok(to_string(&version_info[2]))
    } else {
        Err(Error::Parse)
    }
}

/// The text of each string of `names`.
pub open spec fn texts(names: Seq<String>) -> Seq<Seq<char>> {
    names.map_values(|s: String| s@)
}

/// The process ids among the directory entries `names`: the numeric names,
/// each read as a 32-bit number, in the order of the listing.
pub open spec fn pids(names: Seq<Seq<char>>) -> Option<Seq<nat>> {
    numeric_values(names, u32::MAX as nat)
}

/// The numbers of `v`.
pub open spec fn ids(v: Seq<u32>) -> Seq<nat> {
    v.map_values(|x: u32| x as nat)
}

/// The process ids among the entries `names` of the process directory. A
/// numeric name that is no 32-bit number is an error.
pub fn get_pids(names: &Vec<String>) -> (r: Result<Vec<u32>, Error>)
    ensures
        match r {
            Ok(v) => pids(texts(names@)) == Some(ids(v@)),
            Err(e) => e == Error::Parse && pids(texts(names@)) is None,
        },
{
    let mut items: Vec<Vec<char>> = Vec::new();
    let mut i: usize = 0;
    while i < names.len()
        invariant
            i <= names.len(),
            views(items@) == texts(names@).take(i as int),
        decreases names.len() - i,
    {
        let ghost before = items@;
        items.push(to_chars(names[i].as_str()));
        assert(views(items@) == views(before).push(names@[i as int]@));
        assert(texts(names@).take(i + 1) == texts(names@).take(i as int).push(
            names@[i as int]@,
        ));
        i += 1;
    }
    assert(texts(names@).take(names.len() as int) == texts(names@));
    let wide = match read_numeric(&items, 0xffff_ffff) {
        Ok(v) => v,
        Err(e) => {
            return Err(e);
        },
    };
    let ghost kept = numeric_only(texts(names@));
    let mut out: Vec<u32> = Vec::new();
    let mut k: usize = 0;
    while k < wide.len()
        invariant
            k <= wide.len(),
            as_nats(wide@) == numbers(kept, u32::MAX as nat),
            all_parse(kept, u32::MAX as nat),
            ids(out@) == as_nats(wide@).take(k as int),
        decreases wide.len() - k,
    {
        let ghost before = out@;
        assert(as_nats(wide@).len() == wide@.len());
        assert(numbers(kept, u32::MAX as nat).len() == kept.len());
        assert(as_nats(wide@)[k as int] == wide@[k as int]);
        assert(numbers(kept, u32::MAX as nat)[k as int] == parse_unsigned(
            kept[k as int],
            u32::MAX as nat,
        ).unwrap());
        assert(parse_unsigned(kept[k as int], u32::MAX as nat) is Some);
        let v = wide[k];
        out.push(v as u32);
        assert(ids(out@) == ids(before).push(v as nat));
        assert(as_nats(wide@).take(k + 1) == as_nats(wide@).take(k as int).push(v as nat));
        k += 1;
    }
    assert(as_nats(wide@).take(wide.len() as int) == as_nats(wide@));
    Ok(out)
}

} // verus!
