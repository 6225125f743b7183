//! The stats that a server reports: global ones by name, and per slab class.

use vstd::prelude::*;
use vstd::std_specs::iter::IteratorSpec;
use vstd::string::*;

use crate::error::{Fault, MCError};
use crate::lex::{
    fields, lines, parse_unsigned, read_unsigned, split_fields, split_lines, split_words, views,
    words,
};
use crate::text::push_char;

verus! {

/// The stats as mappings: a global stat's name to its raw text, and a slab
/// class to its stats by name.
pub struct StatsView {
    pub stats: Map<Seq<char>, Seq<char>>,
    pub slabs: Map<u8, Map<Seq<char>, usize>>,
}

impl StatsView {
    /// No stats at all.
    pub open spec fn empty() -> StatsView {
        StatsView { stats: Map::empty(), slabs: Map::empty() }
    }

    /// A global stat is kept from its first report; a later one under the
    /// same name changes nothing.
    pub open spec fn add_stat(self, name: Seq<char>, value: Seq<char>) -> StatsView {
        if self.stats.dom().contains(name) {
            self
        } else {
            StatsView { stats: self.stats.insert(name, value), slabs: self.slabs }
        }
    }

    /// The stats of one slab class; none where the class is unknown.
    pub open spec fn slab(self, slab: u8) -> Map<Seq<char>, usize> {
        if self.slabs.dom().contains(slab) {
            self.slabs[slab]
        } else {
            Map::empty()
        }
    }

    /// A slab stat takes the value of its latest report.
    pub open spec fn add_stat_slab(self, slab: u8, name: Seq<char>, value: usize) -> StatsView {
        StatsView {
            stats: self.stats,
            slabs: self.slabs.insert(slab, self.slab(slab).insert(name, value)),
        }
    }

    /// The raw text of a global stat, if the server reported it.
    pub open spec fn stat(self, name: Seq<char>) -> Option<Seq<char>> {
        if self.stats.dom().contains(name) {
            Some(self.stats[name])
        } else {
            None
        }
    }

    /// A stat of a slab class, if the server reported it.
    pub open spec fn slab_stat(self, slab: u8, name: Seq<char>) -> Option<usize> {
        if self.slab(slab).dom().contains(name) {
            Some(self.slab(slab)[name])
        } else {
            None
        }
    }

    /// A slab stat, counted as zero where the server did not report it.
    pub open spec fn slab_stat_or_zero(self, slab: u8, name: Seq<char>) -> usize {
        match self.slab_stat(slab, name) {
            Some(v) => v,
            None => 0,
        }
    }
}

/// One global stat as the server sent it.
#[derive(Debug)]
pub struct GlobalStat {
    pub name: String,
    pub value: String,
}

/// One stat of one slab class.
#[derive(Debug)]
pub struct SlabStat {
    pub slab: u8,
    pub name: String,
    pub value: usize,
}

/// The mapping that a list of global stats stands for: a later entry
/// replaces an earlier one of the same name.
pub open spec fn global_map(entries: Seq<GlobalStat>) -> Map<Seq<char>, Seq<char>>
    decreases entries.len(),
{
    if entries.len() == 0 {
        Map::empty()
    } else {
        global_map(entries.drop_last()).insert(entries.last().name@, entries.last().value@)
    }
}

/// The mapping that a list of slab stats stands for: a later entry
/// replaces an earlier one of the same class and name.
pub open spec fn slab_map(entries: Seq<SlabStat>) -> StatsView
    decreases entries.len(),
{
    if entries.len() == 0 {
        StatsView::empty()
    } else {
        slab_map(entries.drop_last()).add_stat_slab(
            entries.last().slab,
            entries.last().name@,
            entries.last().value,
        )
    }
}

/// The stats of one response. They are kept in the order in which they
/// were taken in, and read through the mappings that they stand for: a
/// stat is found at its latest entry, and `add_stat` takes a global stat in
/// only where its name is new.
#[derive(Debug)]
pub struct Stats {
    pub stats: Vec<GlobalStat>,
    pub slabs: Vec<SlabStat>,
}

impl View for Stats {
    type V = StatsView;

    open spec fn view(&self) -> StatsView {
        StatsView { stats: global_map(self.stats@), slabs: slab_map(self.slabs@).slabs }
    }
}

impl Default for Stats {
    fn default() -> (r: Stats)
        ensures
            r@ == StatsView::empty(),
    {
        Stats { stats: Vec::new(), slabs: Vec::new() }
    }
}

/// The kinds of stat key: a global name, a slab stat written `<id>:<name>`,
/// or one written `items:<id>:<name>`.
#[derive(Debug)]
pub enum StatKey {
    Global(String),
    Slab { slab: u8, name: String },
    SlabItems { slab: u8, name: String },
}

/// A stat key as plain values.
pub enum StatKeyView {
    Global(Seq<char>),
    Slab { slab: u8, name: Seq<char> },
    SlabItems { slab: u8, name: Seq<char> },
}

impl View for StatKey {
    type V = StatKeyView;

    open spec fn view(&self) -> StatKeyView {
        match self {
            StatKey::Global(name) => StatKeyView::Global(name@),
            StatKey::Slab { slab, name } => StatKeyView::Slab { slab: *slab, name: name@ },
            StatKey::SlabItems { slab, name } => StatKeyView::SlabItems {
                slab: *slab,
                name: name@,
            },
        }
    }
}

/// The slab class that a field names, if it is a number from 0 to 255.
pub open spec fn slab_id(field: Seq<char>) -> Option<u8> {
    match parse_unsigned(field, 255) {
        Some(n) => Some(n as u8),
        None => None,
    }
}

/// The kind of a key, by the number of its colon-separated fields: one is a
/// global name, two a slab class and a name, three the word `items`, a slab
/// class and a name. Every other key is refused.
pub open spec fn classify(key: Seq<char>) -> Option<StatKeyView> {
    let f = fields(key);
    if f.len() == 3 && f[0] == "items"@ {
        match slab_id(f[1]) {
            Some(slab) => Some(StatKeyView::SlabItems { slab, name: f[2] }),
            None => None,
        }
    } else if f.len() == 2 {
        match slab_id(f[0]) {
            Some(slab) => Some(StatKeyView::Slab { slab, name: f[1] }),
            None => None,
        }
    } else if f.len() == 1 {
        Some(StatKeyView::Global(f[0]))
    } else {
        None
    }
}

/// The value of a slab stat, if it is a number that fits in `usize`.
pub open spec fn slab_value(value: Seq<char>) -> Option<usize> {
    match parse_unsigned(value, usize::MAX as nat) {
        Some(n) => Some(n as usize),
        None => None,
    }
}

/// What one stat does to the stats read so far, or `None` where it is
/// refused.
pub open spec fn stat_effect(m: StatsView, key: Seq<char>, value: Seq<char>) -> Option<
    StatsView,
> {
    match classify(key) {
        None => None,
        Some(StatKeyView::Global(name)) => Some(m.add_stat(name, value)),
        Some(StatKeyView::Slab { slab, name }) => match slab_value(value) {
            Some(v) => Some(m.add_stat_slab(slab, name, v)),
            None => None,
        },
        Some(StatKeyView::SlabItems { slab, name }) => match slab_value(value) {
            Some(v) => Some(m.add_stat_slab(slab, name, v)),
            None => None,
        },
    }
}

/// A line counts if it has exactly three words and the first is `STAT`.
pub open spec fn is_stat_line(line: Seq<char>) -> bool {
    words(line).len() == 3 && words(line)[0] == "STAT"@
}

/// What one line does: a stat line has the effect of its stat, every other
/// line has none.
pub open spec fn line_effect(m: StatsView, line: Seq<char>) -> Option<StatsView> {
    if is_stat_line(line) {
        stat_effect(m, words(line)[1], words(line)[2])
    } else {
        Some(m)
    }
}

/// The lines' effects one after another; one refused line refuses all.
pub open spec fn lines_effect(m: StatsView, ls: Seq<Seq<char>>) -> Option<StatsView>
    decreases ls.len(),
{
    if ls.len() == 0 {
        Some(m)
    } else {
        match line_effect(m, ls[0]) {
            Some(next) => lines_effect(next, ls.drop_first()),
            None => None,
        }
    }
}

/// The stats that a response holds, or `None` where a stat line is refused.
pub open spec fn parse_text(s: Seq<char>) -> Option<StatsView> {
    lines_effect(StatsView::empty(), lines(s))
}

/// The characters of a text.
pub fn chars_of(s: &str) -> (v: Vec<char>)
    ensures
        v@ == s@,
{
    broadcast use vstd::string::axiom_spec_iter, vstd::string::next_postcondition;

    let mut it = s.chars();
    let mut v: Vec<char> = Vec::new();
    proof {
        assert(v@ + it.remaining() =~= s@);
    }
    loop
        invariant
            it.obeys_prophetic_iter_laws(),
            it.decrease() is Some,
            v@ + it.remaining() == s@,
        ensures
            v@ == s@,
        decreases it.decrease()->0,
    {
        match it.next() {
            Some(c) => {
                v.push(c);
                proof {
                    assert(v@ + it.remaining() =~= s@);
                }
            },
            None => {
                proof {
                    assert(v@ =~= s@);
                }
                break ;
            },
        }
    }
    v
}

/// The text made of the given characters.
pub fn string_of(v: &Vec<char>) -> (s: String)
    ensures
        s@ == v@,
{
    let mut s = String::new();
    let mut i: usize = 0;
    while i < v.len()
        invariant
            i <= v.len(),
            s@ == v@.take(i as int),
        decreases v.len() - i,
    {
        push_char(&mut s, v[i]);
        i += 1;
        proof {
            assert(s@ =~= v@.take(i as int));
        }
    }
    proof {
        assert(v@.take(v.len() as int) =~= v@);
    }
    s
}

fn is_word(tok: &Vec<char>, word: &str) -> (r: bool)
    ensures
        r == (tok@ == word@),
{
    let a = string_of(tok);
    let b = String::from_str(word);
    a == b
}

fn read_slab_id(field: &Vec<char>) -> (r: Option<u8>)
    ensures
        r == slab_id(field@),
{
    match read_unsigned(field, 255) {
        Some(n) => Some(n as u8),
        None => None,
    }
}

fn read_slab_value(value: &Vec<char>) -> (r: Option<usize>)
    ensures
        r == slab_value(value@),
{
    match read_unsigned(value, usize::MAX as u64) {
        Some(n) => Some(n as usize),
        None => None,
    }
}

/// Finds the kind of a key.
pub fn classify_key(key: &Vec<char>) -> (r: Result<StatKey, MCError>)
    ensures
        match r {
            Ok(k) => classify(key@) == Some(k@),
            Err(e) => e@ == Fault::Parse && classify(key@) is None,
        },
{
    let f = split_fields(key);
    proof {
        assert(views(f@).len() == f@.len());
        assert(forall|i: int| 0 <= i < f@.len() ==> views(f@)[i] == f@[i]@);
    }
    if f.len() == 3 && is_word(&f[0], "items") {
        match read_slab_id(&f[1]) {
            Some(slab) => Ok(StatKey::SlabItems { slab, name: string_of(&f[2]) }),
            None => Err(MCError::Parse),
        }
    } else if f.len() == 2 {
        match read_slab_id(&f[0]) {
            Some(slab) => Ok(StatKey::Slab { slab, name: string_of(&f[1]) }),
            None => Err(MCError::Parse),
        }
    } else if f.len() == 1 {
        Ok(StatKey::Global(string_of(&f[0])))
    } else {
        Err(MCError::Parse)
    }
}

impl Stats {
    /// Stats that hold nothing yet.
    pub fn new() -> (r: Stats)
        ensures
            r@ == StatsView::empty(),
    {
        Stats { stats: Vec::new(), slabs: Vec::new() }
    }

    /// Add memcached slab stats
    pub fn add_stat_slab(&mut self, slab: u8, stat: String, value: usize) -> (r: Result<
        (),
        MCError,
    >)
        ensures
            r is Ok,
            final(self)@ == old(self)@.add_stat_slab(slab, stat@, value),
    {
        let ghost before = self.slabs@;
        self.slabs.push(SlabStat { slab, name: stat, value });
        proof {
            assert(self.slabs@.drop_last() =~= before);
        }
        Ok(())
    }

    /// Add general memcached stat
    pub fn add_stat(&mut self, stat: String, value: String)
        ensures
            final(self)@ == old(self)@.add_stat(stat@, value@),
    {
        if self.get_stat(stat.as_str()).is_none() {
            let ghost before = self.stats@;
            self.stats.push(GlobalStat { name: stat, value });
            proof {
                assert(self.stats@.drop_last() =~= before);
            }
        }
    }

    /// The raw text of a global stat.
    pub fn get_stat(&self, name: &str) -> (r: Option<&String>)
        ensures
            match r {
                Some(v) => self@.stat(name@) == Some(v@),
                None => self@.stat(name@) is None,
            },
    {
        let key = String::from_str(name);
        let mut i: usize = self.stats.len();
        proof {
            assert(self.stats@.take(i as int) =~= self.stats@);
        }
        while i > 0
            invariant
                i <= self.stats.len(),
                key@ == name@,
                global_map(self.stats@).dom().contains(name@) == global_map(
                    self.stats@.take(i as int),
                ).dom().contains(name@),
                global_map(self.stats@).dom().contains(name@) ==> global_map(self.stats@)[name@]
                    == global_map(self.stats@.take(i as int))[name@],
            decreases i,
        {
            i -= 1;
            proof {
                assert(self.stats@.take(i + 1).drop_last() =~= self.stats@.take(i as int));
            }
            if self.stats[i].name == key {
                return Some(&self.stats[i].value);
            }
        }
        None
    }

    /// Whether the server reported the slab class.
    pub fn has_slab(&self, slab: u8) -> (r: bool)
        ensures
            r == self@.slabs.dom().contains(slab),
    {
        let mut i: usize = self.slabs.len();
        proof {
            assert(self.slabs@.take(i as int) =~= self.slabs@);
        }
        while i > 0
            invariant
                i <= self.slabs.len(),
                slab_map(self.slabs@).slabs.dom().contains(slab) == slab_map(
                    self.slabs@.take(i as int),
                ).slabs.dom().contains(slab),
            decreases i,
        {
            i -= 1;
            proof {
                assert(self.slabs@.take(i + 1).drop_last() =~= self.slabs@.take(i as int));
            }
            if self.slabs[i].slab == slab {
                return true;
            }
        }
        false
    }

    /// A stat of a slab class.
    pub fn get_slab_stat(&self, slab: u8, name: &str) -> (r: Option<usize>)
        ensures
            r == self@.slab_stat(slab, name@),
    {
        let key = String::from_str(name);
        let mut i: usize = self.slabs.len();
        proof {
            assert(self.slabs@.take(i as int) =~= self.slabs@);
        }
        while i > 0
            invariant
                i <= self.slabs.len(),
                key@ == name@,
                slab_map(self.slabs@).slab_stat(slab, name@) == slab_map(
                    self.slabs@.take(i as int),
                ).slab_stat(slab, name@),
            decreases i,
        {
            i -= 1;
            proof {
                assert(self.slabs@.take(i + 1).drop_last() =~= self.slabs@.take(i as int));
            }
            if self.slabs[i].slab == slab && self.slabs[i].name == key {
                return Some(self.slabs[i].value);
            }
        }
        None
    }

    /// A stat of a slab class, zero where the server did not report it.
    pub fn slab_stat_or_zero(&self, slab: u8, name: &str) -> (r: usize)
        ensures
            r == self@.slab_stat_or_zero(slab, name@),
    {
        match self.get_slab_stat(slab, name) {
            Some(v) => v,
            None => 0,
        }
    }

    /// Takes one stat into the model.
    pub fn apply_stat(&mut self, key: &Vec<char>, value: &Vec<char>) -> (r: Result<(), MCError>)
        ensures
            match r {
                Ok(_) => stat_effect(old(self)@, key@, value@) == Some(final(self)@),
                Err(e) => e@ == Fault::Parse && stat_effect(old(self)@, key@, value@) is None,
            },
    {
        match classify_key(key) {
            Err(e) => Err(e),
            Ok(StatKey::Global(name)) => {
                self.add_stat(name, string_of(value));
                Ok(())
            },
            Ok(StatKey::Slab { slab, name }) => match read_slab_value(value) {
                Some(v) => self.add_stat_slab(slab, name, v),
                None => Err(MCError::Parse),
            },
            Ok(StatKey::SlabItems { slab, name }) => match read_slab_value(value) {
                Some(v) => self.add_stat_slab(slab, name, v),
                None => Err(MCError::Parse),
            },
        }
    }

    /// Takes one line of a response into the model.
    pub fn apply_line(&mut self, line: &Vec<char>) -> (r: Result<(), MCError>)
        ensures
            match r {
                Ok(_) => line_effect(old(self)@, line@) == Some(final(self)@),
                Err(e) => e@ == Fault::Parse && line_effect(old(self)@, line@) is None,
            },
    {
        let w = split_words(line);
        proof {
            assert(views(w@).len() == w@.len());
            assert(forall|i: int| 0 <= i < w@.len() ==> views(w@)[i] == w@[i]@);
        }
        if w.len() == 3 && is_word(&w[0], "STAT") {
            self.apply_stat(&w[1], &w[2])
        } else {
            Ok(())
        }
    }

    /// Reads a whole response. Lines end in CRLF; only the lines
    /// `STAT <key> <value>` count, and the first of them that is refused
    /// fails the whole reading.
    pub fn parse(s: &str) -> (r: Result<Stats, MCError>)
        ensures
            match r {
                Ok(stats) => parse_text(s@) == Some(stats@),
                Err(e) => e@ == Fault::Parse && parse_text(s@) is None,
            },
    {
        let text = chars_of(s);
        let ls = split_lines(&text);
        let mut stats = Stats::new();
        let mut i: usize = 0;
        proof {
            assert(views(ls@).skip(0) =~= lines(s@));
        }
        while i < ls.len()
            invariant
                i <= ls.len(),
                views(ls@) == lines(s@),
                parse_text(s@) == lines_effect(stats@, views(ls@).skip(i as int)),
            decreases ls.len() - i,
        {
            proof {
                assert(views(ls@).skip(i as int)[0] == ls@[i as int]@);
                assert(views(ls@).skip(i as int).drop_first() =~= views(ls@).skip(i + 1));
            }
            match stats.apply_line(&ls[i]) {
                Ok(_) => {},
                Err(e) => {
                    return Err(e);
                },
            }
            i += 1;
        }
        Ok(stats)
    }
}

impl std::str::FromStr for Stats {
    type Err = MCError;

    fn from_str(s: &str) -> (r: Result<Stats, MCError>)
        ensures
            match r {
                Ok(stats) => parse_text(s@) == Some(stats@),
                Err(e) => e@ == Fault::Parse && parse_text(s@) is None,
            },
    {
        Stats::parse(s)
    }
}

} // verus!
