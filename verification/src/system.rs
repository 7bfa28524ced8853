//! The snapshot of the whole system: identity, samplers, counts and the
//! process table, which is sorted by utilization.

use vstd::prelude::*;
use crate::cpu::{readable_cores, readable_sample, Cpu};
use crate::error::Error;
use crate::format::{append_chars, append_filler, filler};
use crate::linux_parser::{
    get_kernel, get_operating_system, get_processes, get_uptime, kernel, mem_sample,
    operating_system, process_count, uptime_hundredths, ProcessStates,
};
use crate::memory::{MemInfo, MemScale};
use crate::process::{record, Process, ProcessFiles, ProcessView};
use crate::text::{to_chars, to_string};

verus! {

/// The view of each record of `ps`.
pub open spec fn views_of(ps: Seq<Process>) -> Seq<ProcessView> {
    ps.map_values(|p: Process| p@)
}

/// The record that the entry `entry` of a listing gives, if its files are all
/// there and well-formed.
pub open spec fn entry_record(
    entry: (u32, ProcessFiles),
    total_jiffies: u64,
    system_uptime: u64,
    accounts: Option<String>,
    clk_tck: i64,
) -> Option<ProcessView> {
    match record(entry.0, total_jiffies, system_uptime, entry.1, accounts, clk_tck) {
        Ok(v) => Some(v),
        Err(_) => None,
    }
}

/// The records of the processes of `entries`, in the order of the listing. A
/// process whose record cannot be made, because a file of it has gone or is
/// malformed, is left out; the others are not affected.
pub open spec fn enumerated(
    entries: Seq<(u32, ProcessFiles)>,
    total_jiffies: u64,
    system_uptime: u64,
    accounts: Option<String>,
    clk_tck: i64,
) -> Seq<ProcessView> {
    entries.filter_map(
        |e: (u32, ProcessFiles)| entry_record(e, total_jiffies, system_uptime, accounts, clk_tck),
    )
}

/// The records of the processes of `entries`, in the order of the listing,
/// without those whose record cannot be made.
pub fn enumerate(
    entries: &Vec<(u32, ProcessFiles)>,
    total_jiffies: u64,
    system_uptime: u64,
    accounts: &Option<String>,
    clk_tck: i64,
) -> (r: Vec<Process>)
    requires
        clk_tck > 0,
    ensures
        views_of(r@) == enumerated(entries@, total_jiffies, system_uptime, *accounts, clk_tck),
{
    let ghost f = |e: (u32, ProcessFiles)|
        entry_record(e, total_jiffies, system_uptime, *accounts, clk_tck);
    let mut processes: Vec<Process> = Vec::new();
    let mut i: usize = 0;
    assert(entries@.take(0).filter_map(f) == Seq::<ProcessView>::empty());
    while i < entries.len()
        invariant
            i <= entries.len(),
            clk_tck > 0,
            f == |e: (u32, ProcessFiles)|
                entry_record(e, total_jiffies, system_uptime, *accounts, clk_tck),
            views_of(processes@) == entries@.take(i as int).filter_map(f),
        decreases entries.len() - i,
    {
        proof {
            entries@.lemma_filter_map_take_succ(f, i as int);
        }
        let ghost before = processes@;
        match Process::new(
            entries[i].0,
            total_jiffies,
            system_uptime,
            &entries[i].1,
            accounts,
            clk_tck,
        ) {
            Ok(p) => {
                processes.push(p);
                assert(views_of(processes@) == views_of(before).push(p@));
                assert(views_of(before).push(p@) == views_of(before) + seq![p@]);
            },
            Err(_) => {
                assert(views_of(before) + Seq::<ProcessView>::empty() == views_of(before));
            },
        }
        i += 1;
    }
    assert(entries@.take(entries.len() as int) == entries@);
    processes
}

/// Whether each record of `table` has at least the utilization of the next
/// one, at the moment `system_uptime`.
pub open spec fn sorted_by_utilization(
    table: Seq<ProcessView>,
    system_uptime: u64,
    clk_tck: i64,
) -> bool {
    forall|k: int|
        0 <= k && k + 1 < table.len() ==> (#[trigger] table[k]).at_least(
            &table[k + 1],
            system_uptime,
            clk_tck,
        )
}

/// If `a` has at least the utilization of `b`, and `b` at least that of `c`,
/// then `a` has at least the utilization of `c`.
pub proof fn lemma_at_least_transitive(
    a: ProcessView,
    b: ProcessView,
    c: ProcessView,
    system_uptime: u64,
    clk_tck: i64,
)
    requires
        a.at_least(&b, system_uptime, clk_tck),
        b.at_least(&c, system_uptime, clk_tck),
    ensures
        a.at_least(&c, system_uptime, clk_tck),
{
    let (an, ad) = (
        a.utilization_numer(system_uptime, clk_tck),
        a.utilization_denom(system_uptime, clk_tck),
    );
    let (bn, bd) = (
        b.utilization_numer(system_uptime, clk_tck),
        b.utilization_denom(system_uptime, clk_tck),
    );
    let (cn, cd) = (
        c.utilization_numer(system_uptime, clk_tck),
        c.utilization_denom(system_uptime, clk_tck),
    );
    assert(cn * ad <= an * cd) by (nonlinear_arith)
        requires
            ad > 0,
            bd > 0,
            cd > 0,
            bn * ad <= an * bd,
            cn * bd <= bn * cd,
    {
        assert((bn * ad) * cd <= (an * bd) * cd);
        assert((cn * bd) * ad <= (bn * cd) * ad);
        assert((cn * ad) * bd <= (an * cd) * bd);
    }
}

/// In a sorted table every record has at least the utilization of every
/// record behind it.
pub proof fn lemma_sorted_all_pairs(
    table: Seq<ProcessView>,
    system_uptime: u64,
    clk_tck: i64,
    i: int,
    j: int,
)
    requires
        sorted_by_utilization(table, system_uptime, clk_tck),
        0 <= i <= j < table.len(),
    ensures
        table[i].at_least(&table[j], system_uptime, clk_tck),
    decreases j - i,
{
    if i < j {
        lemma_sorted_all_pairs(table, system_uptime, clk_tck, i + 1, j);
        lemma_at_least_transitive(table[i], table[i + 1], table[j], system_uptime, clk_tck);
    }
}

/// Whether `table` holds the first `n` records of `source`, each once, sorted
/// by utilization from the highest down, records of equal utilization in the
/// order of `source`. `order[k]` is the index in `source` of the record
/// `table[k]`.
pub open spec fn arranges(
    order: Seq<int>,
    table: Seq<ProcessView>,
    source: Seq<ProcessView>,
    n: int,
    system_uptime: u64,
    clk_tck: i64,
) -> bool {
    &&& 0 <= n <= source.len()
    &&& table.len() == n
    &&& order.len() == n
    &&& forall|k: int| 0 <= k < n ==> 0 <= #[trigger] order[k] < n && table[k] == source[order[k]]
    &&& forall|a: int, b: int| 0 <= a < b < n ==> #[trigger] order[a] != #[trigger] order[b]
    &&& sorted_by_utilization(table, system_uptime, clk_tck)
    &&& forall|k: int|
        0 <= k && k + 1 < n && table[k + 1].at_least(&table[k], system_uptime, clk_tck)
            ==> #[trigger] order[k] < order[k + 1]
}

/// Whether `table` is `source` sorted by utilization from the highest down,
/// with records of equal utilization in the order of `source`.
pub open spec fn stably_sorted(
    table: Seq<ProcessView>,
    source: Seq<ProcessView>,
    system_uptime: u64,
    clk_tck: i64,
) -> bool {
    exists|order: Seq<int>|
        arranges(order, table, source, source.len() as int, system_uptime, clk_tck)
}

/// Putting the record `source[n]` into a table of the first `n` records,
/// behind every record of at least its utilization and before the first
/// record of less, gives a table of the first `n + 1` records.
pub proof fn lemma_insert_arranges(
    order: Seq<int>,
    table: Seq<ProcessView>,
    source: Seq<ProcessView>,
    n: int,
    j: int,
    system_uptime: u64,
    clk_tck: i64,
)
    requires
        arranges(order, table, source, n, system_uptime, clk_tck),
        n < source.len(),
        0 <= j <= n,
        forall|k: int| 0 <= k < j ==> (#[trigger] table[k]).at_least(
            &source[n],
            system_uptime,
            clk_tck,
        ),
        j < n ==> !table[j].at_least(&source[n], system_uptime, clk_tck),
    ensures
        arranges(
            order.insert(j, n),
            table.insert(j, source[n]),
            source,
            n + 1,
            system_uptime,
            clk_tck,
        ),
{
    let order2 = order.insert(j, n);
    let table2 = table.insert(j, source[n]);
    assert forall|k: int| 0 <= k < n + 1 implies 0 <= #[trigger] order2[k] < n + 1 && table2[k]
        == source[order2[k]] by {
        if k < j {
            assert(order2[k] == order[k]);
        } else if k > j {
            assert(order2[k] == order[k - 1]);
        }
    }
    assert forall|a: int, b: int| 0 <= a < b < n + 1 implies #[trigger] order2[a]
        != #[trigger] order2[b] by {
        let a0 = if a < j { a } else { a - 1 };
        let b0 = if b < j { b } else { b - 1 };
        if a != j {
            assert(order2[a] == order[a0]);
        }
        if b != j {
            assert(order2[b] == order[b0]);
        }
    }
    assert forall|k: int| 0 <= k && k + 1 < n + 1 implies (#[trigger] table2[k]).at_least(
        &table2[k + 1],
        system_uptime,
        clk_tck,
    ) by {
        if k + 1 < j {
            assert(table2[k] == table[k]);
        } else if k + 1 == j {
            assert(table2[k] == table[k]);
        } else if k == j {
            assert(table2[k + 1] == table[j]);
        } else {
            assert(table2[k] == table[k - 1]);
        }
    }
    assert forall|k: int|
        0 <= k && k + 1 < n + 1 && table2[k + 1].at_least(
            &table2[k],
            system_uptime,
            clk_tck,
        ) implies #[trigger] order2[k] < order2[k + 1] by {
        if k + 1 < j {
            assert(order2[k] == order[k]);
            assert(order2[k + 1] == order[k + 1]);
        } else if k + 1 == j {
            assert(order2[k] == order[k]);
        } else if k == j {
            assert(table2[k + 1] == table[j]);
        } else {
            assert(order2[k] == order[k - 1]);
            assert(order2[k + 1] == order[k]);
            assert(table2[k] == table[k - 1]);
        }
    }
}

/// The records of `processes` sorted by utilization at the moment
/// `system_uptime`, from the highest down; records of equal utilization keep
/// the order in which they came.
pub fn sort_by_utilization(processes: Vec<Process>, system_uptime: u64, clk_tck: i64) -> (r: Vec<
    Process,
>)
    requires
        clk_tck > 0,
    ensures
        sorted_by_utilization(views_of(r@), system_uptime, clk_tck),
        stably_sorted(views_of(r@), views_of(processes@), system_uptime, clk_tck),
{
    let ghost source = views_of(processes@);
    let ghost mut order: Seq<int> = Seq::empty();
    let ghost mut n: int = 0;
    let mut out: Vec<Process> = Vec::new();
    for p in it: processes
        invariant
            clk_tck > 0,
            views_of(it.seq()) == source,
            it.seq().len() == source.len(),
            n == it.index(),
            arranges(order, views_of(out@), source, n, system_uptime, clk_tck),
    {
        assert(p@ == source[n]);
        let key = p.cpu_utilization(system_uptime, clk_tck);
        let mut j: usize = 0;
        while j < out.len() && key.le(&out[j].cpu_utilization(system_uptime, clk_tck))
            invariant
                j <= out.len(),
                clk_tck > 0,
                key.numer() == p@.utilization_numer(system_uptime, clk_tck),
                key.denom() == p@.utilization_denom(system_uptime, clk_tck),
                forall|k: int|
                    0 <= k < j ==> (#[trigger] views_of(out@)[k]).at_least(
                        &p@,
                        system_uptime,
                        clk_tck,
                    ),
            decreases out.len() - j,
        {
            j += 1;
        }
        let ghost before = out@;
        proof {
            lemma_insert_arranges(
                order,
                views_of(before),
                source,
                n,
                j as int,
                system_uptime,
                clk_tck,
            );
            order = order.insert(j as int, n);
            n = n + 1;
        }
        out.insert(j, p);
        assert(views_of(out@) == views_of(before).insert(j as int, p@));
    }
    assert(n == source.len());
    out
}

/// The texts of the files that one sampling cycle reads, each as it was
/// read; `None` stands for a file that was missing or could not be read.
/// `processes` holds, for each process id of the listing, the files of that
/// process.
pub struct SystemFiles {
    pub os_release: Option<String>,
    pub version: Option<String>,
    pub stat: Option<String>,
    pub meminfo: Option<String>,
    pub uptime: Option<String>,
    pub accounts: Option<String>,
    pub processes: Vec<(u32, ProcessFiles)>,
}

/// What reading `file` with `parse` gives: an input error for a file that is
/// missing, a parse error for one that `parse` does not accept.
pub open spec fn reading<T>(file: Option<String>, parse: spec_fn(Seq<char>) -> Option<T>) -> Result<
    T,
    Error,
> {
    match file {
        None => Err(Error::Io),
        Some(s) => match parse(s@) {
            Some(v) => Ok(v),
            None => Err(Error::Parse),
        },
    }
}

/// The system-wide values of one sampling cycle.
pub struct Readings {
    pub sample: (u64, u64),
    pub memory: (nat, nat),
    pub uptime: u64,
    pub total_processes: u32,
    pub running_processes: u32,
}

/// The system-wide values that `files` give. The files are consulted in the
/// order stat, memory, uptime, stat; the first one that is missing or
/// malformed decides the error.
pub open spec fn readings(files: SystemFiles) -> Result<Readings, Error> {
    match reading(files.stat, |c: Seq<char>| readable_sample(c)) {
        Err(e) => Err(e),
        Ok(sample) => match reading(files.meminfo, |c: Seq<char>| mem_sample(c)) {
            Err(e) => Err(e),
            Ok(memory) => match reading(files.uptime, |c: Seq<char>| uptime_hundredths(c)) {
                Err(e) => Err(e),
                Ok(uptime) => match reading(
                    files.stat,
                    |c: Seq<char>| process_count("processes"@, c),
                ) {
                    Err(e) => Err(e),
                    Ok(total) => match reading(
                        files.stat,
                        |c: Seq<char>| process_count("procs_running"@, c),
                    ) {
                        Err(e) => Err(e),
                        Ok(running) => Ok(
                            Readings {
                                sample,
                                memory,
                                uptime: uptime as u64,
                                total_processes: total as u32,
                                running_processes: running as u32,
                            },
                        ),
                    },
                },
            },
        },
    }
}

/// The identity of the system that `files` give: the name of the operating
/// system, the kernel release and the number of cores, consulted in this
/// order.
pub open spec fn identity(files: SystemFiles) -> Result<(Seq<char>, Seq<char>, u32), Error> {
    match reading(files.os_release, |c: Seq<char>| operating_system(c)) {
        Err(e) => Err(e),
        Ok(os) => match reading(files.version, |c: Seq<char>| kernel(c)) {
            Err(e) => Err(e),
            Ok(release) => match reading(files.stat, |c: Seq<char>| readable_cores(c)) {
                Err(e) => Err(e),
                Ok(cores) => Ok((os, release, cores)),
            },
        },
    }
}

/// The snapshot of the system. One owner keeps it and refreshes it once in
/// each cycle.
#[derive(Debug)]
pub struct System {
    os: String,
    kernel: String,
    cpu: Cpu,
    memory: MemInfo,
    processes: Vec<Process>,
    total_processes: u32,
    running_processes: u32,
    uptime: u64,
    clk_tck: i64,
}

impl System {
    /// The clock ticks per second are positive, and the process table is
    /// sorted by utilization at the uptime held.
    #[verifier::type_invariant]
    pub closed spec fn wf(&self) -> bool {
        self.clk_tck > 0 && sorted_by_utilization(
            views_of(self.processes@),
            self.uptime,
            self.clk_tck,
        )
    }

    /// The name of the operating system.
    pub closed spec fn os_text(&self) -> Seq<char> {
        self.os@
    }

    /// The kernel release.
    pub closed spec fn kernel_text(&self) -> Seq<char> {
        self.kernel@
    }

    /// The processor sampler.
    pub closed spec fn cpu_state(&self) -> Cpu {
        self.cpu
    }

    /// The memory sampler.
    pub closed spec fn memory_state(&self) -> MemInfo {
        self.memory
    }

    /// The process table.
    pub closed spec fn table(&self) -> Seq<ProcessView> {
        views_of(self.processes@)
    }

    /// The number of processes created since boot.
    pub closed spec fn total(&self) -> u32 {
        self.total_processes
    }

    /// The number of processes that are running.
    pub closed spec fn running(&self) -> u32 {
        self.running_processes
    }

    /// The time since boot, in hundredths of a second.
    pub closed spec fn uptime_spec(&self) -> u64 {
        self.uptime
    }

    /// The clock ticks per second.
    pub closed spec fn clock(&self) -> i64 {
        self.clk_tck
    }

    /// Whether the snapshot holds the values `x` and the process table that
    /// `files` give: the records of the listing, without the processes whose
    /// record cannot be made, sorted by utilization.
    pub open spec fn holds(&self, x: Readings, files: SystemFiles) -> bool {
        &&& self.cpu_state().current() == x.sample
        &&& self.memory_state().holds(x.memory)
        &&& self.uptime_spec() == x.uptime
        &&& self.total() == x.total_processes
        &&& self.running() == x.running_processes
        &&& sorted_by_utilization(self.table(), self.uptime_spec(), self.clock())
        &&& stably_sorted(
            self.table(),
            enumerated(
                files.processes@,
                (x.sample.0 + x.sample.1) as u64,
                x.uptime,
                files.accounts,
                self.clock(),
            ),
            self.uptime_spec(),
            self.clock(),
        )
    }

    /// Reads the system-wide values of one cycle into `cpu` and `memory`, and
    /// gives the uptime and the two process counts.
    fn sample(cpu: &mut Cpu, memory: &mut MemInfo, files: &SystemFiles) -> (r: Result<
        (u64, u32, u32),
        Error,
    >)
        ensures
            final(cpu).wf(),
            final(cpu).cores() == old(cpu).cores(),
            final(memory).scale() == old(memory).scale(),
            match r {
                Ok(v) => match readings(*files) {
                    Ok(x) => final(cpu).current() == x.sample && final(cpu).previous() == old(
                        cpu,
                    ).current() && final(cpu).is_seeded() && final(memory).holds(x.memory) && v.0
                        == x.uptime && v.1 == x.total_processes && v.2 == x.running_processes,
                    Err(_) => false,
                },
                Err(e) => readings(*files) == Err::<Readings, Error>(e),
            },
    {
        proof {
            use_type_invariant(&*cpu);
        }
        let stat = match &files.stat {
            Some(s) => s.as_str(),
            None => {
                return Err(Error::Io);
            },
        };
        match cpu.refresh(stat) {
            Ok(_) => {},
            Err(e) => {
                return Err(e);
            },
        }
        let meminfo = match &files.meminfo {
            Some(s) => s.as_str(),
            None => {
                return Err(Error::Io);
            },
        };
        match memory.refresh(meminfo) {
            Ok(_) => {},
            Err(e) => {
                return Err(e);
            },
        }
        let uptime = match &files.uptime {
            Some(s) => match get_uptime(s.as_str()) {
                Ok(v) => v,
                Err(e) => {
                    return Err(e);
                },
            },
            None => {
                return Err(Error::Io);
            },
        };
        let total_processes = match get_processes(ProcessStates::Total, stat) {
            Ok(v) => v,
            Err(e) => {
                return Err(e);
            },
        };
        let running_processes = match get_processes(ProcessStates::Running, stat) {
            Ok(v) => v,
            Err(e) => {
                return Err(e);
            },
        };
        Ok((uptime, total_processes, running_processes))
    }

    /// The first snapshot of a system with `clk_tck` clock ticks per second,
    /// from the files `files`. The identity of the system is read once, here.
    /// A system-wide file that is missing or malformed is an error; a process
    /// whose files are is left out of the table.
    pub fn new(files: &SystemFiles, clk_tck: i64) -> (r: Result<System, Error>)
        requires
            clk_tck > 0,
        ensures
            match r {
                Ok(s) => s.wf() && s.clock() == clk_tck && match (
                    identity(*files),
                    readings(*files),
                ) {
                    (Ok(id), Ok(x)) => s.os_text() == id.0 && s.kernel_text() == id.1
                        && s.cpu_state().cores() == id.2 && s.cpu_state().previous() == (
                        0u64,
                        0u64,
                    ) && !s.cpu_state().is_seeded() && s.memory_state().scale()
                        == MemScale::AsKiloBytes && s.holds(x, *files),
                    _ => false,
                },
                Err(e) => match identity(*files) {
                    Err(first) => e == first,
                    Ok(_) => readings(*files) == Err::<Readings, Error>(e),
                },
            },
    {
        let os = match &files.os_release {
            Some(s) => match get_operating_system(s.as_str()) {
                Ok(v) => v,
                Err(e) => {
                    return Err(e);
                },
            },
            None => {
                return Err(Error::Io);
            },
        };
        let kernel = match &files.version {
            Some(s) => match get_kernel(s.as_str()) {
                Ok(v) => v,
                Err(e) => {
                    return Err(e);
                },
            },
            None => {
                return Err(Error::Io);
            },
        };
        let stat = match &files.stat {
            Some(s) => s.as_str(),
            None => {
                return Err(Error::Io);
            },
        };
        let cpu = match Cpu::new(stat) {
            Ok(v) => v,
            Err(e) => {
                return Err(e);
            },
        };
        let memory = match &files.meminfo {
            Some(s) => match MemInfo::new(s.as_str()) {
                Ok(v) => v,
                Err(e) => {
                    return Err(e);
                },
            },
            None => {
                return Err(Error::Io);
            },
        };
        let uptime = match &files.uptime {
            Some(s) => match get_uptime(s.as_str()) {
                Ok(v) => v,
                Err(e) => {
                    return Err(e);
                },
            },
            None => {
                return Err(Error::Io);
            },
        };
        let total_processes = match get_processes(ProcessStates::Total, stat) {
            Ok(v) => v,
            Err(e) => {
                return Err(e);
            },
        };
        let running_processes = match get_processes(ProcessStates::Running, stat) {
            Ok(v) => v,
            Err(e) => {
                return Err(e);
            },
        };
        let processes = enumerate(
            &files.processes,
            cpu.total_jif(),
            uptime,
            &files.accounts,
            clk_tck,
        );
        let processes = sort_by_utilization(processes, uptime, clk_tck);
        let s = System {
            os,
            kernel,
            cpu,
            memory,
            processes,
            total_processes,
            running_processes,
            uptime,
            clk_tck,
        };
        proof {
            let id = identity(*files);
            let x = readings(*files);
            assert(id is Ok);
            assert(x is Ok);
            assert(s.os_text() == id->Ok_0.0);
            assert(s.kernel_text() == id->Ok_0.1);
            assert(s.cpu_state().cores() == id->Ok_0.2);
            assert(s.holds(x->Ok_0, *files));
        }
        Ok(s)
    }

    /// Replaces everything but the identity of the system by what `files`
    /// give: the samplers move on, uptime and counts are read again, the
    /// process table is made anew and sorted. Where a system-wide file is
    /// missing or malformed the snapshot stays as it was.
    pub fn refresh(&mut self, files: &SystemFiles) -> (r: Result<(), Error>)
        ensures
            final(self).wf(),
            final(self).os_text() == old(self).os_text(),
            final(self).kernel_text() == old(self).kernel_text(),
            final(self).clock() == old(self).clock(),
            final(self).cpu_state().cores() == old(self).cpu_state().cores(),
            final(self).memory_state().scale() == old(self).memory_state().scale(),
            match r {
                Ok(_) => match readings(*files) {
                    Ok(x) => final(self).cpu_state().previous() == old(self).cpu_state().current()
                        && final(self).cpu_state().is_seeded() && final(self).holds(x, *files),
                    Err(_) => false,
                },
                Err(e) => readings(*files) == Err::<
                    Readings,
                    Error,
                >(e) && *final(self) == *old(self),
            },
    {
        proof {
            use_type_invariant(&*self);
        }
        let mut cpu = self.cpu;
        let mut memory = self.memory;
        let (uptime, total_processes, running_processes) = match System::sample(
            &mut cpu,
            &mut memory,
            files,
        ) {
            Ok(v) => v,
            Err(e) => {
                return Err(e);
            },
        };
        let processes = enumerate(
            &files.processes,
            cpu.total_jif(),
            uptime,
            &files.accounts,
            self.clk_tck,
        );
        let processes = sort_by_utilization(processes, uptime, self.clk_tck);
        *self = System {
            os: self.os.clone(),
            kernel: self.kernel.clone(),
            cpu,
            memory,
            processes,
            total_processes,
            running_processes,
            uptime,
            clk_tck: self.clk_tck,
        };
        Ok(())
    }

    /// The name of the operating system.
    pub fn os(&self) -> (r: &String)
        ensures
            r@ == self.os_text(),
    {
        &self.os
    }

    /// The kernel release.
    pub fn kernel(&self) -> (r: &String)
        ensures
            r@ == self.kernel_text(),
    {
        &self.kernel
    }

    /// The processor sampler.
    pub fn cpu(&self) -> (r: &Cpu)
        ensures
            *r == self.cpu_state(),
    {
        &self.cpu
    }

    /// The memory sampler.
    pub fn memory(&self) -> (r: &MemInfo)
        ensures
            *r == self.memory_state(),
    {
        &self.memory
    }

    /// The process table, sorted by utilization at the uptime held: each
    /// record has at least the utilization of the next one.
    pub fn processes(&self) -> (r: &Vec<Process>)
        ensures
            views_of(r@) == self.table(),
            sorted_by_utilization(views_of(r@), self.uptime_spec(), self.clock()),
    {
        proof {
            use_type_invariant(self);
        }
        &self.processes
    }

    /// The number of processes created since boot.
    pub fn total_processes(&self) -> (r: u32)
        ensures
            r == self.total(),
    {
        self.total_processes
    }

    /// The number of processes that are running.
    pub fn running_processes(&self) -> (r: u32)
        ensures
            r == self.running(),
    {
        self.running_processes
    }

    /// The time since boot, in hundredths of a second.
    pub fn uptime(&self) -> (r: u64)
        ensures
            r == self.uptime_spec(),
    {
        self.uptime
    }

    /// The clock ticks per second with which the snapshot was made.
    pub fn clk_tck(&self) -> (r: i64)
        ensures
            r == self.clock(),
            r > 0,
    {
        proof {
            use_type_invariant(self);
        }
        self.clk_tck
    }

    /// The number of rows of the process table that a display of at most
    /// `process_limit` rows shows: the limit, and no more rows than there are.
    /// The rows shown are the first ones of the table.
    pub fn rows_shown(&self, process_limit: u32) -> (r: usize)
        ensures
            r == if process_limit <= self.table().len() {
                process_limit as int
            } else {
                self.table().len() as int
            },
    {
        let len = self.processes.len();
        assert(len == self.table().len());
        if (process_limit as usize) <= len {
            process_limit as usize
        } else {
            len
        }
    }
}

/// In every snapshot each record of the process table has at least the
/// utilization of the record after it, taken at the uptime of the snapshot.
pub proof fn lemma_table_is_sorted(s: System, k: int)
    requires
        s.wf(),
        0 <= k,
        k + 1 < s.table().len(),
    ensures
        s.table()[k].at_least(&s.table()[k + 1], s.uptime_spec(), s.clock()),
{
}

/// A process whose record cannot be made, wherever it stands in the
/// listing, is left out of the enumeration, and the records of all other
/// processes are what they are without it.
pub proof fn lemma_vanished_process_is_skipped(
    entries: Seq<(u32, ProcessFiles)>,
    at: int,
    gone: (u32, ProcessFiles),
    total_jiffies: u64,
    system_uptime: u64,
    accounts: Option<String>,
    clk_tck: i64,
)
    requires
        0 <= at <= entries.len(),
        record(gone.0, total_jiffies, system_uptime, gone.1, accounts, clk_tck) is Err,
    ensures
        enumerated(entries.insert(at, gone), total_jiffies, system_uptime, accounts, clk_tck)
            == enumerated(entries, total_jiffies, system_uptime, accounts, clk_tck),
    decreases entries.len(),
{
    let longer = entries.insert(at, gone);
    if at == entries.len() {
        assert(longer.drop_last() == entries);
        assert(longer.last() == gone);
    } else {
        let front = entries.drop_last();
        assert(longer.drop_last() == front.insert(at, gone));
        assert(longer.last() == entries.last());
        lemma_vanished_process_is_skipped(
            front,
            at,
            gone,
            total_jiffies,
            system_uptime,
            accounts,
            clk_tck,
        );
    }
}

/// The pattern in which the time of a display is written: year, month, day,
/// hour, minute and second.
pub const TIME_PATTERN: &'static str = "%Y-%m-%d %H:%M:%S";

/// The text of the moment `secs` seconds and `nanos` nanoseconds after the
/// start of 1970 in universal time, written in the pattern `pattern`; none
/// for a moment that the calendar does not reach, and none for a pattern that
/// cannot be written.
pub uninterp spec fn utc_text(secs: i64, nanos: u32, pattern: Seq<char>) -> Option<Seq<char>>;

/// `chrono::DateTime::from_timestamp`, then `format` with `pattern` on the
/// moment it gives, written out by `write_to`. Trusted: the result depends
/// on `secs`, `nanos` and `pattern` alone; it is `None` where
/// `from_timestamp` gives none and where writing reports an error.
#[verifier::external_body]
fn format_utc(secs: i64, nanos: u32, pattern: &str) -> (r: Option<String>)
    ensures
        match r {
            Some(s) => utc_text(secs, nanos, pattern@) == Some(s@),
            None => utc_text(secs, nanos, pattern@) is None,
        },
{
    let mut text = String::new();
    match chrono::DateTime::from_timestamp(secs, nanos) {
        Some(time) => match time.format(pattern).write_to(&mut text) {
            Ok(_) => Some(text),
            Err(_) => None,
        },
        None => None,
    }
}

/// The date and time of the moment `secs` seconds and `nanos` nanoseconds
/// after the start of 1970, in universal time and in the pattern
/// `TIME_PATTERN`.
pub fn get_time(secs: i64, nanos: u32) -> (r: Option<String>)
    ensures
        match r {
            Some(s) => utc_text(secs, nanos, TIME_PATTERN@) == Some(s@),
            None => utc_text(secs, nanos, TIME_PATTERN@) is None,
        },
{
    format_utc(secs, nanos, TIME_PATTERN)
}

/// The head line of a display made at the time `time`: the title, forty
/// spaces, and the time.
pub open spec fn header_text(time: Seq<char>) -> Seq<char> {
    "System Information"@ + filler(40, ' ') + time
}

/// The head line of a display made at the time `time`.
pub fn header_from(time: &str) -> (r: String)
    ensures
        r@ == header_text(time@),
{
    let mut out = to_chars("System Information");
    append_filler(&mut out, 40, ' ');
    append_chars(&mut out, &to_chars(time));
    to_string(&out)
}

/// The head line of a display made at the moment `secs` seconds and `nanos`
/// nanoseconds after the start of 1970.
pub fn header(secs: i64, nanos: u32) -> (r: Option<String>)
    ensures
        match r {
            Some(s) => match utc_text(secs, nanos, TIME_PATTERN@) {
                Some(time) => s@ == header_text(time),
                None => false,
            },
            None => utc_text(secs, nanos, TIME_PATTERN@) is None,
        },
{
    match get_time(secs, nanos) {
        Some(time) => Some(header_from(time.as_str())),
        None => None,
    }
}

} // verus!
