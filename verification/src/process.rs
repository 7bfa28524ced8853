//! One record for each process, derived from its status, command-line and
//! stat files and from the accounts table.

use vstd::prelude::*;
use crate::error::Error;
use crate::file_utils::{key_values, read_as_hashmap};
use crate::format::{append_chars, pad_left, pad_right, padded_left, padded_right, seconds_chars, seconds_text};
use crate::linux_parser::PROC_DIR;
use crate::number::{decimal, decimal_text, parse_u32, parse_unsigned};
use crate::ratio::Ratio;
use crate::text::{
    copy_range, lines, same_chars, split, split_lines, split_on, split_whitespace, to_chars,
    to_string, trim, trimmed, views, words,
};

verus! {

pub const RAM_LABEL_FILTER: &'static str = "VmData";

pub const UID_LABEL_FILTER: &'static str = "Uid";

/// The texts of the three files of one process, each as it was read; `None`
/// stands for a file that was missing or could not be read.
pub struct ProcessFiles {
    pub status: Option<String>,
    pub cmdline: Option<String>,
    pub stat: Option<String>,
}

/// The text of a file, or the error that a missing file stands for.
pub open spec fn text_of(file: Option<String>) -> Result<Seq<char>, Error> {
    match file {
        Some(s) => Ok(s@),
        None => Err(Error::Io),
    }
}

/// The first word of the value that the status file `status` holds under
/// `key`. The file is read as key/value lines parted by a colon.
pub open spec fn status_field(status: Seq<char>, key: Seq<char>) -> Option<Seq<char>> {
    match key_values(status, ":"@) {
        Some(m) => if m.contains_key(key) && words(m[key]).len() >= 1 {
            Some(words(m[key])[0])
        } else {
            None
        },
        None => None,
    }
}

/// The memory of the process in kilobytes: the field `VmData` of its status
/// file, as a 32-bit number.
pub open spec fn ram_of(status: Seq<char>) -> Option<nat> {
    match status_field(status, "VmData"@) {
        Some(w) => parse_unsigned(w, u32::MAX as nat),
        None => None,
    }
}

/// The id of the owner of the process: the field `Uid` of its status file.
pub open spec fn uid_of(status: Seq<char>) -> Option<Seq<char>> {
    status_field(status, "Uid"@)
}

/// The command line of the process: the text of its command-line file
/// without the last character, which ends it.
pub open spec fn command_of(cmdline: Seq<char>) -> Seq<char> {
    if cmdline.len() > 0 {
        cmdline.drop_last()
    } else {
        cmdline
    }
}

/// The number that the word of `stat` with index `n` writes, as a 32-bit
/// number.
pub open spec fn stat_field(stat: Seq<char>, n: int) -> Option<nat> {
    if 0 <= n < words(stat).len() {
        parse_unsigned(words(stat)[n], u32::MAX as nat)
    } else {
        None
    }
}

/// The jiffies that the process and the children it waited for have run, in
/// user and in kernel mode: the sum of the words 14 to 17 of its stat line,
/// which has to fit in 32 bits.
pub open spec fn active_jiffies_of(stat: Seq<char>) -> Option<nat> {
    match (stat_field(stat, 13), stat_field(stat, 14), stat_field(stat, 15), stat_field(stat, 16)) {
        (Some(a), Some(b), Some(c), Some(d)) => if a + b + c + d <= u32::MAX {
            Some(a + b + c + d)
        } else {
            None
        },
        _ => None,
    }
}

/// The time at which the process started, in clock ticks since boot: word
/// 22 of its stat line.
pub open spec fn start_time_of(stat: Seq<char>) -> Option<nat> {
    stat_field(stat, 21)
}

/// Hundred times the clock ticks between the start of a process and the
/// moment `system_uptime`, which is in hundredths of a second. It is below
/// zero for a process that started after that moment.
pub open spec fn elapsed(system_uptime: u64, start_time: u32, clk_tck: i64) -> int {
    clk_tck * system_uptime - 100 * start_time
}

/// The whole seconds for which a process has run: `system_uptime -
/// start_time / clk_tck`, rounded down, and zero where that is below zero.
pub open spec fn uptime_seconds(system_uptime: u64, start_time: u32, clk_tck: i64) -> int {
    if elapsed(system_uptime, start_time, clk_tck) > 0 {
        elapsed(system_uptime, start_time, clk_tck) / (100 * clk_tck)
    } else {
        0
    }
}

/// The name of the first row of the accounts table `rows` whose user id is
/// `uid`. A row is parted at colons: its first field is the name, its third
/// the user id. A row of fewer than three fields that comes before a match is
/// malformed; a table without a match gives a lookup error.
pub open spec fn find_user(rows: Seq<Seq<char>>, uid: Seq<char>) -> Result<Seq<char>, Error>
    decreases rows.len(),
{
    if rows.len() == 0 {
        Err(Error::Lookup)
    } else if split(trim(rows[0]), ':').len() < 3 {
        Err(Error::Parse)
    } else if split(trim(rows[0]), ':')[2] == uid {
        Ok(split(trim(rows[0]), ':')[0])
    } else {
        find_user(rows.drop_first(), uid)
    }
}

/// The name under which a process of the user `uid` is shown: the name found
/// in the accounts table, and the empty text for a user that the table does
/// not hold.
pub open spec fn user_of(accounts: Seq<char>, uid: Seq<char>) -> Result<Seq<char>, Error> {
    match find_user(lines(accounts), uid) {
        Ok(name) => Ok(name),
        Err(Error::Lookup) => Ok(Seq::empty()),
        Err(e) => Err(e),
    }
}

/// What a process record holds.
pub struct ProcessView {
    pub pid: u32,
    pub command: Seq<char>,
    pub ram: u32,
    pub uid: Seq<char>,
    pub user: Seq<char>,
    pub active_jiffies: u32,
    pub total_jiffies: u64,
    pub uptime: u64,
    pub start_time: u32,
}

/// The record of the process `pid` that the files `files` and the accounts
/// table `accounts` give, at the moment `system_uptime` of a system with
/// `clk_tck` clock ticks per second. The files are consulted in the order
/// status, command line, status, accounts, stat; the first one that is
/// missing or malformed decides the error.
pub open spec fn record(
    pid: u32,
    total_jiffies: u64,
    system_uptime: u64,
    files: ProcessFiles,
    accounts: Option<String>,
    clk_tck: i64,
) -> Result<ProcessView, Error> {
    match text_of(files.status) {
        Err(e) => Err(e),
        Ok(status) => match ram_of(status) {
            None => Err(Error::Parse),
            Some(ram) => match text_of(files.cmdline) {
                Err(e) => Err(e),
                Ok(cmdline) => match uid_of(status) {
                    None => Err(Error::Parse),
                    Some(uid) => match text_of(accounts) {
                        Err(e) => Err(e),
                        Ok(table) => match user_of(table, uid) {
                            Err(e) => Err(e),
                            Ok(user) => match text_of(files.stat) {
                                Err(e) => Err(e),
                                Ok(stat) => match (active_jiffies_of(stat), start_time_of(stat)) {
                                    (Some(active), Some(start)) => Ok(
                                        ProcessView {
                                            pid,
                                            command: command_of(cmdline),
                                            ram: ram as u32,
                                            uid,
                                            user,
                                            active_jiffies: active as u32,
                                            total_jiffies,
                                            uptime: uptime_seconds(
                                                system_uptime,
                                                start as u32,
                                                clk_tck,
                                            ) as u64,
                                            start_time: start as u32,
                                        },
                                    ),
                                    _ => Err(Error::Parse),
                                },
                            },
                        },
                    },
                },
            },
        },
    }
}

/// The form in which a command is shown: as it is when it has at most 40
/// characters, else its first 37 characters followed by three dots.
pub open spec fn display_command(command: Seq<char>) -> Seq<char> {
    if command.len() > 40 {
        command.take(37) + seq!['.', '.', '.']
    } else {
        command
    }
}

/// One row of the process table: the cells for process id, user,
/// utilization, memory, uptime and command, of widths 8, 8, 8, 10, 10 and 40,
/// with one space between two cells. Every cell is aligned left but the
/// uptime, which is aligned right; a cell that is too long is not cut.
pub open spec fn row_text(
    pid: Seq<char>,
    user: Seq<char>,
    cpu: Seq<char>,
    ram: Seq<char>,
    uptime: Seq<char>,
    command: Seq<char>,
) -> Seq<char> {
    pad_right(pid, 8, ' ') + seq![' '] + pad_right(user, 8, ' ') + seq![' '] + pad_right(
        cpu,
        8,
        ' ',
    ) + seq![' '] + pad_right(ram, 10, ' ') + seq![' '] + pad_left(uptime, 10, ' ') + seq![' ']
        + pad_right(command, 40, ' ')
}

/// One row of the process table.
pub fn row(
    pid: &Vec<char>,
    user: &Vec<char>,
    cpu: &Vec<char>,
    ram: &Vec<char>,
    uptime: &Vec<char>,
    command: &Vec<char>,
) -> (r: Vec<char>)
    ensures
        r@ == row_text(pid@, user@, cpu@, ram@, uptime@, command@),
{
    let mut out = padded_right(pid, 8, ' ');
    out.push(' ');
    append_chars(&mut out, &padded_right(user, 8, ' '));
    out.push(' ');
    append_chars(&mut out, &padded_right(cpu, 8, ' '));
    out.push(' ');
    append_chars(&mut out, &padded_right(ram, 10, ' '));
    out.push(' ');
    append_chars(&mut out, &padded_left(uptime, 10, ' '));
    out.push(' ');
    append_chars(&mut out, &padded_right(command, 40, ' '));
    proof {
        let a = pad_right(pid@, 8, ' ');
        let b = pad_right(user@, 8, ' ');
        let c = pad_right(cpu@, 8, ' ');
        let d = pad_right(ram@, 10, ' ');
        let e = pad_left(uptime@, 10, ' ');
        let sp = seq![' '];
        assert(a.push(' ') == a + sp);
        assert((a + sp + b).push(' ') == a + sp + b + sp);
        assert((a + sp + b + sp + c).push(' ') == a + sp + b + sp + c + sp);
        assert((a + sp + b + sp + c + sp + d).push(' ') == a + sp + b + sp + c + sp + d + sp);
        assert((a + sp + b + sp + c + sp + d + sp + e).push(' ') == a + sp + b + sp + c + sp + d
            + sp + e + sp);
    }
    out
}

/// The first word of the value that the status file `status` holds under
/// `key`.
fn get_status_field(status: &str, key: &str) -> (r: Result<Vec<char>, Error>)
    ensures
        match r {
            Ok(w) => status_field(status@, key@) == Some(w@),
            Err(e) => e == Error::Parse && status_field(status@, key@) is None,
        },
{
    let table = match read_as_hashmap(status, ":") {
        Ok(t) => t,
        Err(e) => {
            return Err(e);
        },
    };
    let value = match table.lookup(&to_chars(key)) {
        Some(v) => v,
        None => {
            return Err(Error::Parse);
        },
    };
    let ws = split_whitespace(value);
    if ws.len() >= 1 {
        assert(ws@[0]@ == views(ws@)[0]);
        Ok(copy_range(&ws[0], 0, ws[0].len()))
    } else {
        Err(Error::Parse)
    }
}

/// The number that the word of `ws` with index `n` writes.
fn field_of(ws: &Vec<Vec<char>>, n: usize, Ghost(stat): Ghost<Seq<char>>) -> (r: Option<u32>)
    requires
        views(ws@) == words(stat),
    ensures
        match r {
            Some(v) => stat_field(stat, n as int) == Some(v as nat),
            None => stat_field(stat, n as int) is None,
        },
{
    if n < ws.len() {
        assert(ws@[n as int]@ == views(ws@)[n as int]);
        parse_u32(&ws[n])
    } else {
        None
    }
}

/// A process record. It is made anew in each sampling cycle.
#[derive(Debug, Eq, Ord, PartialEq, PartialOrd)]
pub struct Process {
    pid: u32,
    command: String,
    ram: u32,
    uid: String,
    user: String,
    acive_jiffies: u32,
    total_jiffies: u64,
    uptime: u64,
    start_time: u32,
}

impl View for Process {
    type V = ProcessView;

    closed spec fn view(&self) -> ProcessView {
        ProcessView {
            pid: self.pid,
            command: self.command@,
            ram: self.ram,
            uid: self.uid@,
            user: self.user@,
            active_jiffies: self.acive_jiffies,
            total_jiffies: self.total_jiffies,
            uptime: self.uptime,
            start_time: self.start_time,
        }
    }
}

impl ProcessView {
    /// The numerator of the utilization in percent at the moment
    /// `system_uptime`: zero where no time has passed since the start of the
    /// process, else ten thousand times the active jiffies, with the sign of
    /// the time that has passed.
    pub open spec fn utilization_numer(&self, system_uptime: u64, clk_tck: i64) -> int {
        if elapsed(system_uptime, self.start_time, clk_tck) > 0 {
            10000 * self.active_jiffies
        } else if elapsed(system_uptime, self.start_time, clk_tck) < 0 {
            -10000 * self.active_jiffies
        } else {
            0
        }
    }

    /// The denominator of the utilization in percent at the moment
    /// `system_uptime`: the size of `elapsed`, and one where that is zero.
    pub open spec fn utilization_denom(&self, system_uptime: u64, clk_tck: i64) -> int {
        if elapsed(system_uptime, self.start_time, clk_tck) > 0 {
            elapsed(system_uptime, self.start_time, clk_tck)
        } else if elapsed(system_uptime, self.start_time, clk_tck) < 0 {
            -elapsed(system_uptime, self.start_time, clk_tck)
        } else {
            1
        }
    }

    /// Whether the utilization of this process at the moment `system_uptime`
    /// is at least that of `other`.
    pub open spec fn at_least(&self, other: &ProcessView, system_uptime: u64, clk_tck: i64) -> bool {
        other.utilization_numer(system_uptime, clk_tck) * self.utilization_denom(
            system_uptime,
            clk_tck,
        ) <= self.utilization_numer(system_uptime, clk_tck) * other.utilization_denom(
            system_uptime,
            clk_tck,
        )
    }
}

impl Process {
    /// The path of the file `file_name` of the process `pid`.
    pub fn format_pid_path(pid: u32, file_name: &str) -> (r: String)
        ensures
            r@ == PROC_DIR@ + decimal_text(pid as nat) + seq!['/'] + file_name@,
    {
        let mut out = to_chars(PROC_DIR);
        append_chars(&mut out, &decimal(pid as u64));
        out.push('/');
        append_chars(&mut out, &to_chars(file_name));
        assert((PROC_DIR@ + decimal_text(pid as nat)).push('/') == PROC_DIR@ + decimal_text(
            pid as nat,
        ) + seq!['/']);
        to_string(&out)
    }

    /// The memory of the process in kilobytes, from its status file.
    pub fn get_ram(status: &str) -> (r: Result<u32, Error>)
        ensures
            match r {
                Ok(v) => ram_of(status@) == Some(v as nat),
                Err(e) => e == Error::Parse && ram_of(status@) is None,
            },
    {
        let ram = match get_status_field(status, RAM_LABEL_FILTER) {
            Ok(w) => w,
            Err(e) => {
                return Err(e);
            },
        };
        match parse_u32(&ram) {
            Some(num) => Ok(num),
            None => Err(Error::Parse),
        }
    }

    /// The id of the owner of the process, from its status file.
    pub fn get_uid(status: &str) -> (r: Result<String, Error>)
        ensures
            match r {
                Ok(v) => uid_of(status@) == Some(v@),
                Err(e) => e == Error::Parse && uid_of(status@) is None,
            },
    {
        match get_status_field(status, UID_LABEL_FILTER) {
            Ok(w) => Ok(to_string(&w)),
            Err(e) => Err(e),
        }
    }

    /// The command line of the process, from its command-line file.
    pub fn get_command(cmdline: &str) -> (r: String)
        ensures
            r@ == command_of(cmdline@),
    {
        let chars = to_chars(cmdline);
        if chars.len() > 0 {
            // remove the trailing \u{0}
            to_string(&copy_range(&chars, 0, chars.len() - 1))
        } else {
            to_string(&chars)
        }
    }

    /// The jiffies that the process has run, from its stat line.
    pub fn get_active_jiffies(stat: &str) -> (r: Result<u32, Error>)
        ensures
            match r {
                Ok(v) => active_jiffies_of(stat@) == Some(v as nat),
                Err(e) => e == Error::Parse && active_jiffies_of(stat@) is None,
            },
    {
        let ws = split_whitespace(&to_chars(stat));
        let a = field_of(&ws, 13, Ghost(stat@));
        let b = field_of(&ws, 14, Ghost(stat@));
        let c = field_of(&ws, 15, Ghost(stat@));
        let d = field_of(&ws, 16, Ghost(stat@));
        match (a, b, c, d) {
            (Some(a), Some(b), Some(c), Some(d)) => {
                let sum: u64 = a as u64 + b as u64 + c as u64 + d as u64;
                if sum <= 0xffff_ffff {
                    Ok(sum as u32)
                } else {
                    Err(Error::Parse)
                }
            },
            _ => Err(Error::Parse),
        }
    }

    /// The time at which the process started, in clock ticks since boot,
    /// from its stat line.
    pub fn get_start_time(stat: &str) -> (r: Result<u32, Error>)
        ensures
            match r {
                Ok(v) => start_time_of(stat@) == Some(v as nat),
                Err(e) => e == Error::Parse && start_time_of(stat@) is None,
            },
    {
        let ws = split_whitespace(&to_chars(stat));
        match field_of(&ws, 21, Ghost(stat@)) {
            Some(v) => Ok(v),
            None => Err(Error::Parse),
        }
    }

    /// The name of the user `pid_uid` in the accounts table `accounts`; a
    /// lookup error where the table does not hold the user.
    pub fn find_user(pid_uid: &str, accounts: &str) -> (r: Result<String, Error>)
        ensures
            match r {
                Ok(name) => find_user(lines(accounts@), pid_uid@) == Ok::<Seq<char>, Error>(
                    name@,
                ),
                Err(e) => find_user(lines(accounts@), pid_uid@) == Err::<Seq<char>, Error>(e),
            },
    {
        let uid = to_chars(pid_uid);
        let rows = split_lines(&to_chars(accounts));
        let ghost all = lines(accounts@);
        let mut i: usize = 0;
        assert(all.skip(0) == all);
        while i < rows.len()
            invariant
                i <= rows.len(),
                views(rows@) == all,
                all == lines(accounts@),
                uid@ == pid_uid@,
                find_user(all, pid_uid@) == find_user(all.skip(i as int), pid_uid@),
            decreases rows.len() - i,
        {
            proof {
                assert(rows@[i as int]@ == all[i as int]);
                assert(all.skip(i as int)[0] == all[i as int]);
                assert(all.skip(i as int).drop_first() == all.skip(i + 1));
            }
            let line = split_on(&trimmed(&rows[i]), ':');
            proof {
                assert(views(line@).len() == line.len());
            }
            if line.len() < 3 {
                return Err(Error::Parse);
            }
            assert(line@[0]@ == views(line@)[0]);
            assert(line@[2]@ == views(line@)[2]);
            if same_chars(&line[2], &uid) {
                return Ok(to_string(&line[0]));
            }
            i += 1;
        }
        Err(Error::Lookup)
    }

    /// The name under which a process of the user `pid_uid` is shown: the
    /// name in the accounts table `accounts`, and the empty text for a user
    /// that the table does not hold.
    pub fn get_user(pid_uid: &str, accounts: &str) -> (r: Result<String, Error>)
        ensures
            match r {
                Ok(name) => user_of(accounts@, pid_uid@) == Ok::<Seq<char>, Error>(name@),
                Err(e) => user_of(accounts@, pid_uid@) == Err::<Seq<char>, Error>(e),
            },
    {
        match Process::find_user(pid_uid, accounts) {
            Ok(name) => Ok(name),
            Err(Error::Lookup) => Ok(String::new()),
            Err(e) => Err(e),
        }
    }

    /// The whole seconds for which a process that started at `start_time`
    /// has run at the moment `system_uptime`.
    pub fn get_uptime(system_uptime: u64, start_time: u32, clk_tck: i64) -> (r: u64)
        requires
            clk_tck > 0,
        ensures
            r == uptime_seconds(system_uptime, start_time, clk_tck),
    {
        let ticks: u128 = Process::scaled_uptime(system_uptime, clk_tck);
        let start: u128 = 100 * (start_time as u128);
        if ticks > start {
            let per_second: u128 = 100 * (clk_tck as u128);
            let seconds: u128 = (ticks - start) / per_second;
            assert(seconds <= system_uptime) by (nonlinear_arith)
                requires
                    seconds == (ticks - start) / (per_second as int),
                    ticks == clk_tck * system_uptime,
                    per_second == 100 * clk_tck,
                    ticks > start,
                    start >= 0,
                    clk_tck > 0,
            {
                assert(seconds * per_second <= ticks - start);
                assert(seconds * clk_tck <= clk_tck * system_uptime);
            }
            seconds as u64
        } else {
            0
        }
    }

    /// The clock ticks of `system_uptime`, times one hundred.
    fn scaled_uptime(system_uptime: u64, clk_tck: i64) -> (r: u128)
        requires
            clk_tck > 0,
        ensures
            r == clk_tck * system_uptime,
    {
        assert(clk_tck * system_uptime <= 0x7fff_ffff_ffff_ffff * 0xffff_ffff_ffff_ffff)
            by (nonlinear_arith)
            requires
                0 < clk_tck <= 0x7fff_ffff_ffff_ffff,
                0 <= system_uptime <= 0xffff_ffff_ffff_ffff,
        ;
        (clk_tck as u128) * (system_uptime as u128)
    }

    /// The record of the process `pid`, from its files and the accounts
    /// table, at the moment `system_uptime`.
    pub fn new(
        pid: u32,
        total_jiffies: u64,
        system_uptime: u64,
        files: &ProcessFiles,
        accounts: &Option<String>,
        clk_tck: i64,
    ) -> (r: Result<Process, Error>)
        requires
            clk_tck > 0,
        ensures
            match r {
                Ok(p) => record(pid, total_jiffies, system_uptime, *files, *accounts, clk_tck)
                    == Ok::<ProcessView, Error>(p@),
                Err(e) => record(pid, total_jiffies, system_uptime, *files, *accounts, clk_tck)
                    == Err::<ProcessView, Error>(e),
            },
    {
        let status = match &files.status {
            Some(s) => s.as_str(),
            None => {
                return Err(Error::Io);
            },
        };
        let ram = match Process::get_ram(status) {
            Ok(v) => v,
            Err(e) => {
                return Err(e);
            },
        };
        let command = match &files.cmdline {
            Some(s) => Process::get_command(s.as_str()),
            None => {
                return Err(Error::Io);
            },
        };
        let uid = match Process::get_uid(status) {
            Ok(v) => v,
            Err(e) => {
                return Err(e);
            },
        };
        let table = match accounts {
            Some(s) => s.as_str(),
            None => {
                return Err(Error::Io);
            },
        };
        let user = match Process::get_user(uid.as_str(), table) {
            Ok(v) => v,
            Err(e) => {
                return Err(e);
            },
        };
        let stat = match &files.stat {
            Some(s) => s.as_str(),
            None => {
                return Err(Error::Io);
            },
        };
        let acive_jiffies = Process::get_active_jiffies(stat);
        let start_time = Process::get_start_time(stat);
        match (acive_jiffies, start_time) {
            (Ok(acive_jiffies), Ok(start_time)) => {
                let uptime = Process::get_uptime(system_uptime, start_time, clk_tck);
                Ok(
                    Process {
                        pid,
                        command,
                        ram,
                        uid,
                        user,
                        acive_jiffies,
                        total_jiffies,
                        uptime,
                        start_time,
                    },
                )
            },
            _ => Err(Error::Parse),
        }
    }

    pub fn pid(&self) -> (r: u32)
        ensures
            r == self@.pid,
    {
        self.pid
    }

    pub fn ram(&self) -> (r: u32)
        ensures
            r == self@.ram,
    {
        self.ram
    }

    pub fn user(&self) -> (r: String)
        ensures
            r@ == self@.user,
    {
        self.user.clone()
    }

    pub fn uid(&self) -> (r: String)
        ensures
            r@ == self@.uid,
    {
        self.uid.clone()
    }

    /// The whole seconds for which the process had run when it was sampled.
    pub fn uptime(&self) -> (r: u64)
        ensures
            r == self@.uptime,
    {
        self.uptime
    }

    /// The jiffies that the process had run when it was sampled.
    pub fn active_jiffies(&self) -> (r: u32)
        ensures
            r == self@.active_jiffies,
    {
        self.acive_jiffies
    }

    /// The total of the processor reading under which the process was
    /// sampled.
    pub fn total_jiffies(&self) -> (r: u64)
        ensures
            r == self@.total_jiffies,
    {
        self.total_jiffies
    }

    /// The utilization of the process in percent at the moment
    /// `system_uptime`: `100 * (active_jiffies / clk_tck) / (system_uptime -
    /// start_time / clk_tck)`, as one fraction, and zero where no time has
    /// passed since the start. It is computed anew at each call and is not
    /// kept. Of its three inputs only the uptime is live: the caller reads it
    /// just before the call. The active jiffies and the start time are those
    /// that the record took from the stat line when the process was
    /// enumerated; the stat line is not read again. So a value shown later
    /// can differ from the one the table was sorted by, through the uptime
    /// alone.
    pub fn cpu_utilization(&self, system_uptime: u64, clk_tck: i64) -> (r: Ratio)
        requires
            clk_tck > 0,
        ensures
            r.wf(),
            r.numer() == self@.utilization_numer(system_uptime, clk_tck),
            r.denom() == self@.utilization_denom(system_uptime, clk_tck),
    {
        let ticks: u128 = Process::scaled_uptime(system_uptime, clk_tck);
        let start: u128 = 100 * (self.start_time as u128);
        let total_time: u64 = 10000 * (self.acive_jiffies as u64);
        if ticks > start {
            Ratio::new(total_time, ticks - start)
        } else if ticks < start {
            Ratio::negative(total_time, start - ticks)
        } else {
            Ratio::zero()
        }
    }

    /// The command in the form in which it is shown.
    pub fn command(&self) -> (r: String)
        ensures
            r@ == display_command(self@.command),
    {
        let chars = to_chars(self.command.as_str());
        if chars.len() > 40 {
            // cut down long commands to 40 characters
            let mut trunc_cmd = copy_range(&chars, 0, 37);
            trunc_cmd.push('.');
            trunc_cmd.push('.');
            trunc_cmd.push('.');
            assert(trunc_cmd@ == chars@.take(37) + seq!['.', '.', '.']);
            return to_string(&trunc_cmd);
        }
        self.command.clone()
    }

    /// The head of the process table.
    pub fn head_str() -> (r: String)
        ensures
            r@ == row_text("PID"@, "USER"@, "CPU[%]"@, "RAM[KB]"@, "UPTIME"@, "COMMAND"@),
    {
        to_string(
            &row(
                &to_chars("PID"),
                &to_chars("USER"),
                &to_chars("CPU[%]"),
                &to_chars("RAM[KB]"),
                &to_chars("UPTIME"),
                &to_chars("COMMAND"),
            ),
        )
    }

    /// The row of the process in the process table; `cpu` is its utilization
    /// as text.
    pub fn row_str(&self, cpu: &str) -> (r: String)
        ensures
            r@ == row_text(
                decimal_text(self@.pid as nat),
                self@.user,
                cpu@,
                decimal_text(self@.ram as nat),
                seconds_text(self@.uptime as nat),
                display_command(self@.command),
            ),
    {
        to_string(
            &row(
                &decimal(self.pid as u64),
                &to_chars(self.user.as_str()),
                &to_chars(cpu),
                &decimal(self.ram as u64),
                &seconds_chars(self.uptime),
                &to_chars(self.command().as_str()),
            ),
        )
    }
}

} // verus!
