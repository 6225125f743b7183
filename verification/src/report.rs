//! The report: one row per slab class, then a summary of the server.

use vstd::prelude::*;
use vstd::string::*;
use vstd::utf8::{decode_utf8, encode_utf8_decode_utf8, valid_utf8};

use crate::error::{Fault, MCError};
use crate::lex::{parse_unsigned, read_unsigned};
use crate::stats::{chars_of, parse_text, Stats, StatsView};
use crate::text::{
    decimal, pad_left, pad_right, percent_text, push_decimal, push_left, push_percent, push_right,
};
use crate::{duration_text, human_size, human_size_text, human_time, human_time_text, scaled_size_text};

verus! {

/// The global numbers that every row needs.
pub struct Settings {
    pub cmd_set: u64,
    pub cmd_get: u64,
    pub item_size_max: usize,
    pub max_bytes: usize,
}

/// The global stats that only the summary needs.
pub struct Summary {
    pub version: String,
    pub uptime: usize,
    pub curr_connections: String,
    pub max_connections: String,
    pub get_hits: u64,
    pub get_misses: u64,
}

/// The summary's stats as plain values.
pub struct SummaryView {
    pub version: Seq<char>,
    pub uptime: usize,
    pub curr_connections: Seq<char>,
    pub max_connections: Seq<char>,
    pub get_hits: u64,
    pub get_misses: u64,
}

impl View for Summary {
    type V = SummaryView;

    open spec fn view(&self) -> SummaryView {
        SummaryView {
            version: self.version@,
            uptime: self.uptime,
            curr_connections: self.curr_connections@,
            max_connections: self.max_connections@,
            get_hits: self.get_hits,
            get_misses: self.get_misses,
        }
    }
}

/// A global stat that must be there; its absence is reported by name.
pub open spec fn required(m: StatsView, name: Seq<char>) -> Result<Seq<char>, Fault> {
    match m.stat(name) {
        Some(v) => Ok(v),
        None => Err(Fault::Stat(name)),
    }
}

/// A global stat that must be there and be a number of at most `max`.
pub open spec fn required_number(m: StatsView, name: Seq<char>, max: nat) -> Result<nat, Fault> {
    match m.stat(name) {
        None => Err(Fault::Stat(name)),
        Some(v) => match parse_unsigned(v, max) {
            Some(n) => Ok(n),
            None => Err(Fault::Parse),
        },
    }
}

/// A global stat that counts as zero where it is absent.
pub open spec fn optional_number(m: StatsView, name: Seq<char>, max: nat) -> Result<nat, Fault> {
    match m.stat(name) {
        None => Ok(0),
        Some(v) => match parse_unsigned(v, max) {
            Some(n) => Ok(n),
            None => Err(Fault::Parse),
        },
    }
}

/// The settings, or the first fault met when reading `cmd_set`, `cmd_get`,
/// `item_size_max` and `maxbytes` in this order.
pub open spec fn settings_of(m: StatsView) -> Result<Settings, Fault> {
    match required_number(m, "cmd_set"@, u64::MAX as nat) {
        Err(e) => Err(e),
        Ok(cmd_set) => match required_number(m, "cmd_get"@, u64::MAX as nat) {
            Err(e) => Err(e),
            Ok(cmd_get) => match required_number(m, "item_size_max"@, usize::MAX as nat) {
                Err(e) => Err(e),
                Ok(item_size_max) => match optional_number(m, "maxbytes"@, usize::MAX as nat) {
                    Err(e) => Err(e),
                    Ok(max_bytes) => Ok(
                        (Settings {
                            cmd_set: cmd_set as u64,
                            cmd_get: cmd_get as u64,
                            item_size_max: item_size_max as usize,
                            max_bytes: max_bytes as usize,
                        }),
                    ),
                },
            },
        },
    }
}

/// The summary's stats, or the first fault met when reading `version`,
/// `uptime`, `curr_connections`, `max_connections`, `get_hits` and
/// `get_misses` in this order.
pub open spec fn summary_of(m: StatsView) -> Result<SummaryView, Fault> {
    match required(m, "version"@) {
        Err(e) => Err(e),
        Ok(version) => match required_number(m, "uptime"@, usize::MAX as nat) {
            Err(e) => Err(e),
            Ok(uptime) => match required(m, "curr_connections"@) {
                Err(e) => Err(e),
                Ok(curr_connections) => match required(m, "max_connections"@) {
                    Err(e) => Err(e),
                    Ok(max_connections) => match optional_number(
                        m,
                        "get_hits"@,
                        u64::MAX as nat,
                    ) {
                        Err(e) => Err(e),
                        Ok(get_hits) => match optional_number(
                            m,
                            "get_misses"@,
                            u64::MAX as nat,
                        ) {
                            Err(e) => Err(e),
                            Ok(get_misses) => Ok(
                                (SummaryView {
                                    version,
                                    uptime: uptime as usize,
                                    curr_connections,
                                    max_connections,
                                    get_hits: get_hits as u64,
                                    get_misses: get_misses as u64,
                                }),
                            ),
                        },
                    },
                },
            },
        },
    }
}

/// The memory that a slab class holds: its pages times the page size.
pub open spec fn used_memory(m: StatsView, slab: u8, item_size_max: nat) -> nat {
    m.slab_stat_or_zero(slab, "total_pages"@) as nat * item_size_max
}

/// The memory that the items of a slab class asked for.
pub open spec fn requested_memory(m: StatsView, slab: u8) -> nat {
    m.slab_stat_or_zero(slab, "mem_requested"@) as nat
}

/// The memory held by the reported slab classes below `upto`.
pub open spec fn total_used(m: StatsView, upto: nat, item_size_max: nat) -> nat
    decreases upto,
{
    if upto == 0 {
        0
    } else {
        let slab = (upto - 1) as u8;
        total_used(m, (upto - 1) as nat, item_size_max) + if m.slabs.dom().contains(slab) {
            used_memory(m, slab, item_size_max)
        } else {
            0
        }
    }
}

/// The memory asked for in the reported slab classes below `upto`.
pub open spec fn total_requested(m: StatsView, upto: nat) -> nat
    decreases upto,
{
    if upto == 0 {
        0
    } else {
        let slab = (upto - 1) as u8;
        total_requested(m, (upto - 1) as nat) + if m.slabs.dom().contains(slab) {
            requested_memory(m, slab)
        } else {
            0
        }
    }
}

/// Whether both totals over all slab classes fit in `usize`.
pub open spec fn totals_fit(m: StatsView, item_size_max: nat) -> bool {
    total_used(m, 256, item_size_max) <= usize::MAX && total_requested(m, 256) <= usize::MAX
}

/// The line above the table's rows.
pub open spec fn header_text() -> Seq<char> {
    "  # Item_Size    Max_Age  Pages   Count      Used_Mem     To_Store    Efficiency    Set_Usage    Evicted   Evict_Time   OOM\n"@
}

/// The row of one slab class: right-aligned columns, sizes and times in
/// the chosen mode, shares with two decimal places.
pub open spec fn slab_row(m: StatsView, slab: u8, s: Settings, human: bool) -> Seq<char> {
    let chunk_size = m.slab_stat_or_zero(slab, "chunk_size"@) as nat;
    let age = m.slab_stat_or_zero(slab, "age"@) as nat;
    let total_pages = m.slab_stat_or_zero(slab, "total_pages"@) as nat;
    let number = m.slab_stat_or_zero(slab, "number"@) as nat;
    let used = used_memory(m, slab, s.item_size_max as nat);
    let requested = requested_memory(m, slab);
    let cmd_set = m.slab_stat_or_zero(slab, "cmd_set"@) as nat;
    let evicted = m.slab_stat_or_zero(slab, "evicted"@) as nat;
    let evicted_time = m.slab_stat_or_zero(slab, "evicted_time"@) as nat;
    let outofmemory = m.slab_stat_or_zero(slab, "outofmemory"@) as nat;
    pad_left(decimal(slab as nat), 3)
        + " "@ + pad_left(human_size_text(human, chunk_size), 9)
        + " "@ + pad_left(human_time_text(human, age), 10)
        + " "@ + pad_left(decimal(total_pages), 6)
        + " "@ + pad_left(decimal(number), 7)
        + " "@ + pad_left(human_size_text(human, used), 13)
        + " "@ + pad_left(human_size_text(human, requested), 12)
        + " "@ + pad_left(percent_text(requested, used), 11)
        + " % "@ + pad_left(percent_text(cmd_set, s.cmd_set as nat), 10)
        + " % "@ + pad_left(decimal(evicted), 10)
        + " "@ + pad_left(human_time_text(human, evicted_time), 12)
        + " "@ + pad_left(decimal(outofmemory), 5)
        + "\n"@
}

/// The rows of the reported slab classes below `upto`, in ascending order.
pub open spec fn rows_text(m: StatsView, upto: nat, s: Settings, human: bool) -> Seq<char>
    decreases upto,
{
    if upto == 0 {
        Seq::empty()
    } else {
        let slab = (upto - 1) as u8;
        rows_text(m, (upto - 1) as nat, s, human) + if m.slabs.dom().contains(slab) {
            slab_row(m, slab, s, human)
        } else {
            Seq::empty()
        }
    }
}

/// One line of the summary: the label in a column of 25, a colon, the body.
pub open spec fn summary_line(label: Seq<char>, body: Seq<char>) -> Seq<char> {
    pad_right(label, 25) + ": "@ + body + "\n"@
}

/// The seven lines of the summary. Sizes and the uptime are always scaled.
pub open spec fn summary_text(s: Settings, f: SummaryView, used: nat, requested: nat) -> Seq<char> {
    let used_text = scaled_size_text(used);
    let requested_text = scaled_size_text(requested);
    let efficiency = pad_left(percent_text(requested, used), 4);
    let hits = pad_left(percent_text(f.get_hits as nat, s.cmd_get as nat), 4);
    let misses = pad_left(percent_text(f.get_misses as nat, s.cmd_get as nat), 4);
    summary_line(
        "Memcached Version"@,
        f.version + " (uptime "@ + duration_text(f.uptime as nat) + ")"@,
    )
        + summary_line("Current/Max Connections"@, f.curr_connections + "/"@ + f.max_connections)
        + summary_line(
            "Max Memory Allocation"@,
            scaled_size_text(s.max_bytes as nat) + " (provided by -m)"@,
        )
        + summary_line(
            "Total Used Memory"@,
            used_text + " (for "@ + requested_text + " of stored data)"@,
        )
        + summary_line(
            "Global Efficiency"@,
            efficiency + " % ("@ + requested_text + " / "@ + used_text + ")"@,
        )
        + summary_line("Global GET hits"@, hits + " %"@)
        + summary_line("Global GET misses"@, misses + " %"@)
}

/// The whole report: the table's header, the rows, an empty line, the
/// summary.
pub open spec fn report_text(m: StatsView, s: Settings, f: SummaryView, human: bool) -> Seq<char> {
    let used = total_used(m, 256, s.item_size_max as nat);
    let requested = total_requested(m, 256);
    header_text() + rows_text(m, 256, s, human) + "\n"@ + summary_text(s, f, used, requested)
}

/// What a report of the given stats comes to: its text, or the first fault
/// met. The settings are read first, then the rows are added up, then the
/// summary's stats are read. Totals that do not fit in `usize` count as
/// numbers out of range.
pub open spec fn report_outcome(m: StatsView, human: bool) -> Result<Seq<char>, Fault> {
    match settings_of(m) {
        Err(e) => Err(e),
        Ok(s) => if !totals_fit(m, s.item_size_max as nat) {
            Err(Fault::Parse)
        } else {
            match summary_of(m) {
                Err(e) => Err(e),
                Ok(f) => Ok(report_text(m, s, f, human)),
            }
        },
    }
}

/// Where the settings can be read and the totals fit, stats without a
/// `version` give no report: the fault names `version`.
pub proof fn lemma_missing_version(m: StatsView, human: bool)
    requires
        settings_of(m) matches Ok(s) && totals_fit(m, s.item_size_max as nat),
        m.stat("version"@) is None,
    ensures
        report_outcome(m, human) == Err::<Seq<char>, Fault>(Fault::Stat("version"@)),
{
}

/// A report is given only where the seven required stats are there; where
/// `cmd_set` is missing, the fault names it.
pub proof fn lemma_report_needs_required_stats(m: StatsView, human: bool)
    ensures
        m.stat("cmd_set"@) is None ==> report_outcome(m, human) == Err::<Seq<char>, Fault>(
            Fault::Stat("cmd_set"@),
        ),
        report_outcome(m, human) is Ok ==> {
            &&& m.stat("cmd_set"@) is Some
            &&& m.stat("cmd_get"@) is Some
            &&& m.stat("item_size_max"@) is Some
            &&& m.stat("version"@) is Some
            &&& m.stat("uptime"@) is Some
            &&& m.stat("curr_connections"@) is Some
            &&& m.stat("max_connections"@) is Some
        },
{
}

fn read_number(text: &String, max: u64) -> (r: Result<u64, MCError>)
    ensures
        match r {
            Ok(n) => parse_unsigned(text@, max as nat) == Some(n as nat),
            Err(e) => e@ == Fault::Parse && parse_unsigned(text@, max as nat) is None,
        },
{
    let chars = chars_of(text.as_str());
    match read_unsigned(&chars, max) {
        Some(n) => Ok(n),
        None => Err(MCError::Parse),
    }
}

fn get_required<'a>(stats: &'a Stats, name: &str) -> (r: Result<&'a String, MCError>)
    ensures
        match r {
            Ok(v) => required(stats@, name@) == Ok::<Seq<char>, Fault>(v@),
            Err(e) => required(stats@, name@) == Err::<Seq<char>, Fault>(e@),
        },
{
    match stats.get_stat(name) {
        Some(v) => Ok(v),
        None => Err(MCError::Stat(String::from_str(name))),
    }
}

fn get_required_number(stats: &Stats, name: &str, max: u64) -> (r: Result<u64, MCError>)
    ensures
        match r {
            Ok(n) => required_number(stats@, name@, max as nat) == Ok::<nat, Fault>(n as nat),
            Err(e) => required_number(stats@, name@, max as nat) == Err::<nat, Fault>(e@),
        },
{
    match stats.get_stat(name) {
        Some(v) => read_number(v, max),
        None => Err(MCError::Stat(String::from_str(name))),
    }
}

fn get_optional_number(stats: &Stats, name: &str, max: u64) -> (r: Result<u64, MCError>)
    ensures
        match r {
            Ok(n) => optional_number(stats@, name@, max as nat) == Ok::<nat, Fault>(n as nat),
            Err(e) => optional_number(stats@, name@, max as nat) == Err::<nat, Fault>(e@),
        },
{
    match stats.get_stat(name) {
        Some(v) => read_number(v, max),
        None => Ok(0),
    }
}

/// Reads the global numbers that the rows need.
pub fn read_settings(stats: &Stats) -> (r: Result<Settings, MCError>)
    ensures
        match r {
            Ok(s) => settings_of(stats@) == Ok::<Settings, Fault>(s),
            Err(e) => settings_of(stats@) == Err::<Settings, Fault>(e@),
        },
{
    let cmd_set = match get_required_number(stats, "cmd_set", u64::MAX) {
        Ok(n) => n,
        Err(e) => {
            return Err(e);
        },
    };
    let cmd_get = match get_required_number(stats, "cmd_get", u64::MAX) {
        Ok(n) => n,
        Err(e) => {
            return Err(e);
        },
    };
    let item_size_max = match get_required_number(stats, "item_size_max", usize::MAX as u64) {
        Ok(n) => n as usize,
        Err(e) => {
            return Err(e);
        },
    };
    let max_bytes = match get_optional_number(stats, "maxbytes", usize::MAX as u64) {
        Ok(n) => n as usize,
        Err(e) => {
            return Err(e);
        },
    };
    Ok(Settings { cmd_set, cmd_get, item_size_max, max_bytes })
}

/// Reads the global stats that the summary needs.
pub fn read_summary(stats: &Stats) -> (r: Result<Summary, MCError>)
    ensures
        match r {
            Ok(f) => summary_of(stats@) == Ok::<SummaryView, Fault>(f@),
            Err(e) => summary_of(stats@) == Err::<SummaryView, Fault>(e@),
        },
{
    let version = match get_required(stats, "version") {
        Ok(v) => v.clone(),
        Err(e) => {
            return Err(e);
        },
    };
    let uptime = match get_required_number(stats, "uptime", usize::MAX as u64) {
        Ok(n) => n as usize,
        Err(e) => {
            return Err(e);
        },
    };
    let curr_connections = match get_required(stats, "curr_connections") {
        Ok(v) => v.clone(),
        Err(e) => {
            return Err(e);
        },
    };
    let max_connections = match get_required(stats, "max_connections") {
        Ok(v) => v.clone(),
        Err(e) => {
            return Err(e);
        },
    };
    let get_hits = match get_optional_number(stats, "get_hits", u64::MAX) {
        Ok(n) => n,
        Err(e) => {
            return Err(e);
        },
    };
    let get_misses = match get_optional_number(stats, "get_misses", u64::MAX) {
        Ok(n) => n,
        Err(e) => {
            return Err(e);
        },
    };
    Ok(Summary { version, uptime, curr_connections, max_connections, get_hits, get_misses })
}

fn numeral(n: usize) -> (r: String)
    ensures
        r@ == decimal(n as nat),
{
    let mut r = String::new();
    push_decimal(&mut r, n as u128);
    proof {
        assert(r@ =~= decimal(n as nat));
    }
    r
}

fn percent(num: u64, den: u64) -> (r: String)
    ensures
        r@ == percent_text(num as nat, den as nat),
{
    let mut r = String::new();
    push_percent(&mut r, num, den);
    proof {
        assert(r@ =~= percent_text(num as nat, den as nat));
    }
    r
}

fn right(cell: &str, width: usize) -> (r: String)
    ensures
        r@ == pad_left(cell@, width as nat),
{
    let mut r = String::new();
    push_right(&mut r, cell, width);
    proof {
        assert(r@ =~= pad_left(cell@, width as nat));
    }
    r
}

/// Renders the row of one slab class.
fn render_row(stats: &Stats, slab: u8, s: &Settings, short: bool, used: usize) -> (row: String)
    requires
        used == used_memory(stats@, slab, s.item_size_max as nat),
    ensures
        row@ == slab_row(stats@, slab, *s, short),
{
    let requested = stats.slab_stat_or_zero(slab, "mem_requested");
    let mut row = right(numeral(slab as usize).as_str(), 3);
    row.append(" ");
    push_right(&mut row, human_size(short, &stats.slab_stat_or_zero(slab, "chunk_size")).as_str(), 9);
    row.append(" ");
    push_right(&mut row, human_time(short, &stats.slab_stat_or_zero(slab, "age")).as_str(), 10);
    row.append(" ");
    push_right(&mut row, numeral(stats.slab_stat_or_zero(slab, "total_pages")).as_str(), 6);
    row.append(" ");
    push_right(&mut row, numeral(stats.slab_stat_or_zero(slab, "number")).as_str(), 7);
    row.append(" ");
    push_right(&mut row, human_size(short, &used).as_str(), 13);
    row.append(" ");
    push_right(&mut row, human_size(short, &requested).as_str(), 12);
    row.append(" ");
    push_right(&mut row, percent(requested as u64, used as u64).as_str(), 11);
    row.append(" % ");
    push_right(
        &mut row,
        percent(stats.slab_stat_or_zero(slab, "cmd_set") as u64, s.cmd_set).as_str(),
        10,
    );
    row.append(" % ");
    push_right(&mut row, numeral(stats.slab_stat_or_zero(slab, "evicted")).as_str(), 10);
    row.append(" ");
    push_right(&mut row, human_time(short, &stats.slab_stat_or_zero(slab, "evicted_time")).as_str(), 12);
    row.append(" ");
    push_right(&mut row, numeral(stats.slab_stat_or_zero(slab, "outofmemory")).as_str(), 5);
    row.append("\n");
    row
}

fn push_summary_line(out: &mut String, label: &str, body: &str)
    ensures
        final(out)@ == old(out)@ + summary_line(label@, body@),
{
    push_left(out, label, 25);
    out.append(": ");
    out.append(body);
    out.append("\n");
    proof {
        assert(final(out)@ =~= old(out)@ + summary_line(label@, body@));
    }
}

/// Renders the summary.
pub fn render_summary(s: &Settings, f: &Summary, used: usize, requested: usize) -> (out: String)
    ensures
        out@ == summary_text(*s, f@, used as nat, requested as nat),
{
    let used_text = human_size(true, &used);
    let requested_text = human_size(true, &requested);

    let mut out = String::new();
    let mut body = f.version.clone();
    body.append(" (uptime ");
    body.append(human_time(true, &f.uptime).as_str());
    body.append(")");
    push_summary_line(&mut out, "Memcached Version", body.as_str());

    let mut body = f.curr_connections.clone();
    body.append("/");
    body.append(f.max_connections.as_str());
    push_summary_line(&mut out, "Current/Max Connections", body.as_str());

    let mut body = human_size(true, &s.max_bytes);
    body.append(" (provided by -m)");
    push_summary_line(&mut out, "Max Memory Allocation", body.as_str());

    let mut body = human_size(true, &used);
    body.append(" (for ");
    body.append(requested_text.as_str());
    body.append(" of stored data)");
    push_summary_line(&mut out, "Total Used Memory", body.as_str());

    let mut body = right(percent(requested as u64, used as u64).as_str(), 4);
    body.append(" % (");
    body.append(requested_text.as_str());
    body.append(" / ");
    body.append(used_text.as_str());
    body.append(")");
    push_summary_line(&mut out, "Global Efficiency", body.as_str());

    let mut body = right(percent(f.get_hits, s.cmd_get).as_str(), 4);
    body.append(" %");
    push_summary_line(&mut out, "Global GET hits", body.as_str());

    let mut body = right(percent(f.get_misses, s.cmd_get).as_str(), 4);
    body.append(" %");
    push_summary_line(&mut out, "Global GET misses", body.as_str());
    proof {
        assert(out@ =~= summary_text(*s, f@, used as nat, requested as nat));
    }
    out
}

/// Adding slab classes never lowers a total.
pub proof fn lemma_totals_grow(m: StatsView, a: nat, b: nat, item_size_max: nat)
    requires
        a <= b,
    ensures
        total_used(m, a, item_size_max) <= total_used(m, b, item_size_max),
        total_requested(m, a) <= total_requested(m, b),
    decreases b - a,
{
    if a < b {
        lemma_totals_grow(m, a, (b - 1) as nat, item_size_max);
    }
}

/// The table's rows and both totals, or `None` where a total does not fit.
pub fn render_rows(stats: &Stats, s: &Settings, short: bool) -> (r: Option<(String, usize, usize)>)
    ensures
        match r {
            Some((rows, used, requested)) => {
                &&& totals_fit(stats@, s.item_size_max as nat)
                &&& rows@ == rows_text(stats@, 256, *s, short)
                &&& used == total_used(stats@, 256, s.item_size_max as nat)
                &&& requested == total_requested(stats@, 256)
            },
            None => !totals_fit(stats@, s.item_size_max as nat),
        },
{
    let mut rows = String::new();
    let mut total_memory: usize = 0;
    let mut total_requested_memory: usize = 0;
    let mut id: usize = 0;
    while id < 256
        invariant
            id <= 256,
            rows@ == rows_text(stats@, id as nat, *s, short),
            total_memory == total_used(stats@, id as nat, s.item_size_max as nat),
            total_requested_memory == total_requested(stats@, id as nat),
        decreases 256 - id,
    {
        let slab: u8 = id as u8;
        proof {
            lemma_totals_grow(stats@, (id + 1) as nat, 256, s.item_size_max as nat);
        }
        if stats.has_slab(slab) {
            let total_pages = stats.slab_stat_or_zero(slab, "total_pages");
            let mem_requested = stats.slab_stat_or_zero(slab, "mem_requested");
            assert((total_pages as u128) * (s.item_size_max as u128) <= u128::MAX)
                by (nonlinear_arith)
                requires
                    total_pages <= 0xffff_ffff_ffff_ffff,
                    s.item_size_max <= 0xffff_ffff_ffff_ffff,
            ;
            let used_mem: u128 = (total_pages as u128) * (s.item_size_max as u128);
            if used_mem > (usize::MAX - total_memory) as u128 {
                return None;
            }
            if mem_requested > usize::MAX - total_requested_memory {
                return None;
            }
            let used_mem: usize = used_mem as usize;
            total_memory = total_memory + used_mem;
            total_requested_memory = total_requested_memory + mem_requested;
            let row = render_row(stats, slab, s, short, used_mem);
            rows.append(row.as_str());
        } else {
            proof {
                assert(rows@ =~= rows_text(stats@, (id + 1) as nat, *s, short));
            }
        }
        id += 1;
    }
    Some((rows, total_memory, total_requested_memory))
}

/// Renders the report of the given stats: the table of slab classes in
/// ascending order, an empty line and the summary. With `short` set, the
/// table's sizes and times are scaled to units.
pub fn generate_report(stats: &Stats, short: bool) -> (r: Result<String, MCError>)
    ensures
        match r {
            Ok(text) => report_outcome(stats@, short) == Ok::<Seq<char>, Fault>(text@),
            Err(e) => report_outcome(stats@, short) == Err::<Seq<char>, Fault>(e@),
        },
{
    let s = match read_settings(stats) {
        Ok(s) => s,
        Err(e) => {
            return Err(e);
        },
    };
    let (rows, used, requested) = match render_rows(stats, &s, short) {
        Some(t) => t,
        None => {
            return Err(MCError::Parse);
        },
    };
    let f = match read_summary(stats) {
        Ok(f) => f,
        Err(e) => {
            return Err(e);
        },
    };
    let mut out = String::from_str(
        "  # Item_Size    Max_Age  Pages   Count      Used_Mem     To_Store    Efficiency    Set_Usage    Evicted   Evict_Time   OOM\n",
    );
    out.append(rows.as_str());
    out.append("\n");
    out.append(render_summary(&s, &f, used, requested).as_str());
    Ok(out)
}

/// What a raw response comes to: bytes that are no UTF-8 are a fault of
/// their own, a text that cannot be read is a parse fault, and stats that
/// were read come to their report.
pub open spec fn response_outcome(bytes: Seq<u8>, human: bool) -> Result<Seq<char>, Fault> {
    if !valid_utf8(bytes) {
        Err(Fault::UTF8)
    } else {
        match parse_text(decode_utf8(bytes)) {
            None => Err(Fault::Parse),
            Some(m) => report_outcome(m, human),
        }
    }
}

/// The bytes as text. Trusted: `std::str::from_utf8` hands back the same
/// bytes as a string slice where they are valid UTF-8, and its error where
/// they are not.
#[verifier::external_body]
fn text_of(bytes: &[u8]) -> (r: Result<&str, std::str::Utf8Error>)
    ensures
        match r {
            Ok(s) => valid_utf8(bytes@) && s.spec_bytes() == bytes@,
            Err(_) => !valid_utf8(bytes@),
        },
{
    std::str::from_utf8(bytes)
}

/// Renders the report of a response as the server sent it.
pub fn report_response(response: &[u8], short: bool) -> (r: Result<String, MCError>)
    ensures
        match r {
            Ok(text) => response_outcome(response@, short) == Ok::<Seq<char>, Fault>(text@),
            Err(e) => response_outcome(response@, short) == Err::<Seq<char>, Fault>(e@),
        },
{
    let text = match text_of(response) {
        Ok(text) => text,
        Err(e) => {
            return Err(MCError::UTF8(e));
        },
    };
    proof {
        encode_utf8_decode_utf8(text@);
    }
    let stats = match Stats::parse(text) {
        Ok(stats) => stats,
        Err(e) => {
            return Err(e);
        },
    };
    generate_report(&stats, short)
}

} // verus!
