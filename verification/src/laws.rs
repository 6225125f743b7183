//! What holds of reading a response: a stat that was written is read back,
//! a key of unsupported shape refuses the response, and of two reports of
//! one stat the right one is kept.

use vstd::prelude::*;

use crate::lex::{
    fields, is_colonless, is_space, is_spaceless, lemma_decimal_is_read_back, lemma_no_words,
    lemma_one_field, lemma_one_line, lemma_three_fields, lemma_three_words, lemma_two_fields,
    lines, parse_unsigned, words,
};
use crate::stats::{
    classify, is_stat_line, line_effect, lines_effect, parse_text, slab_value, stat_effect,
    StatKeyView, StatsView,
};
use crate::text::decimal;

verus! {

/// A slab stat line is read back: after `STAT <id>:<name> <value>` or
/// `STAT items:<id>:<name> <value>` the stats hold the number that the
/// value writes, under the class that the id writes and under the name.
pub proof fn lemma_slab_line_round_trip(
    m: StatsView,
    line: Seq<char>,
    key: Seq<char>,
    value: Seq<char>,
    id_text: Seq<char>,
    name: Seq<char>,
    slab: u8,
    v: usize,
)
    requires
        words(line) == seq!["STAT"@, key, value],
        fields(key) == seq![id_text, name] || fields(key) == seq!["items"@, id_text, name],
        parse_unsigned(id_text, 255) == Some(slab as nat),
        parse_unsigned(value, usize::MAX as nat) == Some(v as nat),
    ensures
        line_effect(m, line) matches Some(next) && next.slab_stat(slab, name) == Some(v),
{
}

/// What can stand for a name in a key: a text without whitespace and
/// without a colon.
pub open spec fn is_stat_name(name: Seq<char>) -> bool {
    is_spaceless(name) && is_colonless(name)
}

/// The key of a slab stat in its short form, `<id>:<name>`.
pub open spec fn slab_key(slab: u8, name: Seq<char>) -> Seq<char> {
    decimal(slab as nat) + seq![':'] + name
}

/// The key of a slab stat in its long form, `items:<id>:<name>`.
pub open spec fn slab_items_key(slab: u8, name: Seq<char>) -> Seq<char> {
    "items"@ + seq![':'] + decimal(slab as nat) + seq![':'] + name
}

/// The line that reports a stat: `STAT <key> <value>`.
pub open spec fn stat_line(key: Seq<char>, value: Seq<char>) -> Seq<char> {
    "STAT"@ + seq![' '] + key + seq![' '] + value
}

/// The keys of a slab stat are single words.
pub proof fn lemma_slab_keys_are_words(slab: u8, name: Seq<char>)
    requires
        is_stat_name(name),
    ensures
        slab_key(slab, name).len() > 0 && is_spaceless(slab_key(slab, name)),
        slab_items_key(slab, name).len() > 0 && is_spaceless(slab_items_key(slab, name)),
{
    reveal_strlit("items");
    let id_text = decimal(slab as nat);
    lemma_decimal_is_read_back(slab as nat);
    let key = slab_key(slab, name);
    assert forall|i: int| 0 <= i < key.len() implies !is_space(#[trigger] key[i]) by {
        if i < id_text.len() {
            assert(key[i] == id_text[i]);
        } else if i > id_text.len() {
            assert(key[i] == name[i - id_text.len() - 1]);
        }
    }
    let long_key = slab_items_key(slab, name);
    assert forall|i: int| 0 <= i < long_key.len() implies !is_space(#[trigger] long_key[i]) by {
        if i < 5 {
        } else if i == 5 {
        } else if i < 6 + id_text.len() {
            assert(long_key[i] == id_text[i - 6]);
        } else if i > 6 + id_text.len() {
            assert(long_key[i] == name[i - id_text.len() - 7]);
        }
    }
}

/// Writing a slab stat and reading the line gives the stat back, in both
/// forms of the key, for every slab class, name and value.
pub proof fn lemma_written_slab_stat_is_read(m: StatsView, slab: u8, name: Seq<char>, v: usize)
    requires
        is_stat_name(name),
    ensures
        line_effect(m, stat_line(slab_key(slab, name), decimal(v as nat))) matches Some(next)
            && next.slab_stat(slab, name) == Some(v),
        line_effect(m, stat_line(slab_items_key(slab, name), decimal(v as nat))) matches Some(
            next,
        ) && next.slab_stat(slab, name) == Some(v),
{
    reveal_strlit("STAT");
    reveal_strlit("items");
    let id_text = decimal(slab as nat);
    let value = decimal(v as nat);
    lemma_decimal_is_read_back(slab as nat);
    lemma_decimal_is_read_back(v as nat);
    assert(parse_unsigned(id_text, 255) == Some(slab as nat));
    assert(parse_unsigned(value, usize::MAX as nat) == Some(v as nat));
    lemma_slab_keys_are_words(slab, name);

    let key = slab_key(slab, name);
    lemma_three_words("STAT"@, key, value);
    lemma_two_fields(id_text, name);
    lemma_slab_line_round_trip(m, stat_line(key, value), key, value, id_text, name, slab, v);

    let long_key = slab_items_key(slab, name);
    assert(is_colonless("items"@));
    lemma_three_words("STAT"@, long_key, value);
    lemma_three_fields("items"@, id_text, name);
    lemma_slab_line_round_trip(
        m,
        stat_line(long_key, value),
        long_key,
        value,
        id_text,
        name,
        slab,
        v,
    );
}

/// A response of one line and CRLF has the effect of that line.
pub proof fn lemma_response_of_one_line(line: Seq<char>)
    requires
        forall|k: int| 0 <= k < line.len() ==> (#[trigger] line[k]) != '\r',
    ensures
        parse_text(line + seq!['\r', '\n']) == line_effect(StatsView::empty(), line),
{
    lemma_one_line(line);
    lemma_no_words();
    let ls = lines(line + seq!['\r', '\n']);
    assert(ls.drop_first() =~= seq![Seq::<char>::empty()]);
    assert(ls.drop_first().drop_first() =~= Seq::<Seq<char>>::empty());
    match line_effect(StatsView::empty(), line) {
        Some(next) => {
            assert(line_effect(next, Seq::<char>::empty()) == Some(next));
            assert(lines_effect(next, ls.drop_first().drop_first()) == Some(next));
            assert(lines_effect(next, ls.drop_first()) == Some(next));
        },
        None => {},
    }
}

/// Reading the response that reports one slab stat and looking the stat
/// up gives the value that was written.
pub proof fn lemma_written_response_is_read(slab: u8, name: Seq<char>, v: usize)
    requires
        is_stat_name(name),
    ensures
        parse_text(
            stat_line(slab_key(slab, name), decimal(v as nat)) + seq!['\r', '\n'],
        ) matches Some(m) && m.slab_stat(slab, name) == Some(v),
        parse_text(
            stat_line(slab_items_key(slab, name), decimal(v as nat)) + seq!['\r', '\n'],
        ) matches Some(m) && m.slab_stat(slab, name) == Some(v),
{
    reveal_strlit("STAT");
    lemma_decimal_is_read_back(v as nat);
    lemma_slab_keys_are_words(slab, name);
    lemma_written_slab_stat_is_read(StatsView::empty(), slab, name, v);
    lemma_three_words("STAT"@, slab_key(slab, name), decimal(v as nat));
    lemma_three_words("STAT"@, slab_items_key(slab, name), decimal(v as nat));
    lemma_response_of_one_line(stat_line(slab_key(slab, name), decimal(v as nat)));
    lemma_response_of_one_line(stat_line(slab_items_key(slab, name), decimal(v as nat)));
}

/// Writing a global stat and reading the line gives its text back, unless
/// the name was read before: then the earlier text stays.
pub proof fn lemma_written_global_stat_is_read(m: StatsView, name: Seq<char>, value: Seq<char>)
    requires
        name.len() > 0 && is_stat_name(name),
        value.len() > 0 && is_spaceless(value),
    ensures
        line_effect(m, stat_line(name, value)) matches Some(next) && next.stat(name) == (
        if m.stat(name) is None {
            Some(value)
        } else {
            m.stat(name)
        }),
{
    reveal_strlit("STAT");
    lemma_three_words("STAT"@, name, value);
    lemma_one_field(name);
}

/// Whether a line leaves a slab stat as it was, whatever was read before.
pub open spec fn keeps_slab_stat(line: Seq<char>, slab: u8, name: Seq<char>) -> bool {
    forall|n: StatsView|
        match #[trigger] line_effect(n, line) {
            Some(next) => next.slab_stat(slab, name) == n.slab_stat(slab, name),
            None => true,
        }
}

/// Lines that leave a slab stat as it was leave it so together.
pub proof fn lemma_kept_slab_stat(m: StatsView, ls: Seq<Seq<char>>, slab: u8, name: Seq<char>)
    requires
        forall|j: int| 0 <= j < ls.len() ==> keeps_slab_stat(#[trigger] ls[j], slab, name),
        lines_effect(m, ls) is Some,
    ensures
        lines_effect(m, ls)->0.slab_stat(slab, name) == m.slab_stat(slab, name),
    decreases ls.len(),
{
    if ls.len() > 0 {
        let next = line_effect(m, ls[0])->0;
        assert(keeps_slab_stat(ls[0], slab, name));
        assert forall|j: int| 0 <= j < ls.drop_first().len() implies keeps_slab_stat(
            #[trigger] ls.drop_first()[j],
            slab,
            name,
        ) by {
            assert(ls.drop_first()[j] == ls[j + 1]);
        }
        lemma_kept_slab_stat(next, ls.drop_first(), slab, name);
    }
}

/// The last report of a slab stat is the one that the lines leave behind.
pub proof fn lemma_last_slab_report_wins(
    m: StatsView,
    ls: Seq<Seq<char>>,
    i: int,
    slab: u8,
    name: Seq<char>,
    v: usize,
)
    requires
        0 <= i < ls.len(),
        forall|n: StatsView|
            (#[trigger] line_effect(n, ls[i])) matches Some(next) && next.slab_stat(slab, name)
                == Some(v),
        forall|j: int| i < j < ls.len() ==> keeps_slab_stat(#[trigger] ls[j], slab, name),
        lines_effect(m, ls) is Some,
    ensures
        lines_effect(m, ls)->0.slab_stat(slab, name) == Some(v),
    decreases ls.len(),
{
    let next = line_effect(m, ls[0])->0;
    let rest = ls.drop_first();
    if i == 0 {
        assert forall|j: int| 0 <= j < rest.len() implies keeps_slab_stat(
            #[trigger] rest[j],
            slab,
            name,
        ) by {
            assert(rest[j] == ls[j + 1]);
        }
        lemma_kept_slab_stat(next, rest, slab, name);
    } else {
        assert(rest[i - 1] == ls[i]);
        assert forall|j: int| i - 1 < j < rest.len() implies keeps_slab_stat(
            #[trigger] rest[j],
            slab,
            name,
        ) by {
            assert(rest[j] == ls[j + 1]);
        }
        lemma_last_slab_report_wins(next, rest, i - 1, slab, name, v);
    }
}

/// Reading a response and looking a slab stat up gives the number of its
/// last report: of the line `STAT <id>:<name> <value>` or
/// `STAT items:<id>:<name> <value>` after which no line touches it.
pub proof fn lemma_slab_response_round_trip(
    s: Seq<char>,
    i: int,
    key: Seq<char>,
    value: Seq<char>,
    id_text: Seq<char>,
    name: Seq<char>,
    slab: u8,
    v: usize,
)
    requires
        0 <= i < lines(s).len(),
        words(lines(s)[i]) == seq!["STAT"@, key, value],
        fields(key) == seq![id_text, name] || fields(key) == seq!["items"@, id_text, name],
        parse_unsigned(id_text, 255) == Some(slab as nat),
        parse_unsigned(value, usize::MAX as nat) == Some(v as nat),
        forall|j: int| i < j < lines(s).len() ==> keeps_slab_stat(#[trigger] lines(s)[j], slab, name),
        parse_text(s) is Some,
    ensures
        parse_text(s)->0.slab_stat(slab, name) == Some(v),
{
    assert forall|n: StatsView|
        (#[trigger] line_effect(n, lines(s)[i])) matches Some(next) && next.slab_stat(slab, name)
            == Some(v) by {
        lemma_slab_line_round_trip(n, lines(s)[i], key, value, id_text, name, slab, v);
    }
    lemma_last_slab_report_wins(StatsView::empty(), lines(s), i, slab, name, v);
}

/// A line that is no stat line, or whose stat is global or of another
/// slab class or name, leaves a slab stat as it was.
pub proof fn lemma_other_lines_keep(line: Seq<char>, slab: u8, name: Seq<char>)
    requires
        !is_stat_line(line) || match classify(words(line)[1]) {
            Some(StatKeyView::Global(_)) => true,
            Some(StatKeyView::Slab { slab: other, name: other_name }) => other != slab
                || other_name != name,
            Some(StatKeyView::SlabItems { slab: other, name: other_name }) => other != slab
                || other_name != name,
            None => true,
        },
    ensures
        keeps_slab_stat(line, slab, name),
{
}

/// A global stat that was read stays as it is, whatever lines follow.
pub proof fn lemma_global_stat_stays(m: StatsView, ls: Seq<Seq<char>>, name: Seq<char>)
    requires
        m.stat(name) is Some,
        lines_effect(m, ls) is Some,
    ensures
        lines_effect(m, ls)->0.stat(name) == m.stat(name),
    decreases ls.len(),
{
    if ls.len() > 0 {
        let next = line_effect(m, ls[0])->0;
        lemma_global_stat_stays(next, ls.drop_first(), name);
    }
}

/// A global stat line is read back as its raw text, where the name is new.
pub proof fn lemma_global_line_round_trip(
    m: StatsView,
    line: Seq<char>,
    key: Seq<char>,
    value: Seq<char>,
)
    requires
        words(line) == seq!["STAT"@, key, value],
        fields(key) == seq![key],
        m.stat(key) is None,
    ensures
        line_effect(m, line) matches Some(next) && next.stat(key) == Some(value),
{
}

/// A line that no stats can take refuses the whole response.
pub proof fn lemma_refused_line(m: StatsView, ls: Seq<Seq<char>>, i: int)
    requires
        0 <= i < ls.len(),
        forall|n: StatsView| (#[trigger] line_effect(n, ls[i])) is None,
    ensures
        lines_effect(m, ls) is None,
    decreases ls.len(),
{
    if i > 0 {
        match line_effect(m, ls[0]) {
            Some(next) => {
                assert(ls.drop_first()[i - 1] == ls[i]);
                lemma_refused_line(next, ls.drop_first(), i - 1);
            },
            None => {},
        }
    }
}

/// A response with a stat line whose key has four fields or more, or three
/// of which the first is not `items`, holds no stats at all.
pub proof fn lemma_bad_key_fails(s: Seq<char>, i: int, key: Seq<char>, value: Seq<char>)
    requires
        0 <= i < lines(s).len(),
        words(lines(s)[i]) == seq!["STAT"@, key, value],
        fields(key).len() >= 4 || (fields(key).len() == 3 && fields(key)[0] != "items"@),
    ensures
        parse_text(s) is None,
{
    assert(classify(key) is None);
    assert forall|n: StatsView| (#[trigger] line_effect(n, lines(s)[i])) is None by {
        assert(stat_effect(n, key, value) is None);
    }
    lemma_refused_line(StatsView::empty(), lines(s), i);
}

/// The same for a slab id or a slab value that is no number in range.
pub proof fn lemma_bad_number_fails(
    s: Seq<char>,
    i: int,
    key: Seq<char>,
    value: Seq<char>,
    id_text: Seq<char>,
    name: Seq<char>,
)
    requires
        0 <= i < lines(s).len(),
        words(lines(s)[i]) == seq!["STAT"@, key, value],
        fields(key) == seq![id_text, name] || fields(key) == seq!["items"@, id_text, name],
        parse_unsigned(id_text, 255) is None || parse_unsigned(value, usize::MAX as nat) is None,
    ensures
        parse_text(s) is None,
{
    assert forall|n: StatsView| (#[trigger] line_effect(n, lines(s)[i])) is None by {
        assert(stat_effect(n, key, value) is None);
    }
    lemma_refused_line(StatsView::empty(), lines(s), i);
}

/// Of two reports of one global stat the first is kept: the second
/// changes nothing, and a name that was new holds the first value.
pub proof fn lemma_first_global_is_kept(
    m: StatsView,
    key: Seq<char>,
    name: Seq<char>,
    first: Seq<char>,
    second: Seq<char>,
)
    requires
        classify(key) == Some(StatKeyView::Global(name)),
    ensures
        stat_effect(m, key, first) matches Some(m1) && stat_effect(m1, key, second) == Some(m1)
            && m1.stat(name) == (if m.stat(name) is None {
            Some(first)
        } else {
            m.stat(name)
        }),
{
}

/// Of two reports of one slab stat the second is kept.
pub proof fn lemma_last_slab_is_kept(
    m: StatsView,
    key: Seq<char>,
    slab: u8,
    name: Seq<char>,
    first: Seq<char>,
    second: Seq<char>,
    v2: usize,
)
    requires
        classify(key) == Some(StatKeyView::Slab { slab, name }) || classify(key) == Some(
            StatKeyView::SlabItems { slab, name },
        ),
        slab_value(first) is Some,
        slab_value(second) == Some(v2),
    ensures
        stat_effect(m, key, first) matches Some(m1) && stat_effect(m1, key, second) matches Some(
            m2,
        ) && m2.slab_stat(slab, name) == Some(v2),
{
}

} // verus!
