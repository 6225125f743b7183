//! Splitting a response into lines, words and key fields, and reading the
//! unsigned numerals in it.

use vstd::prelude::*;

use crate::text::{decimal, digit_char};

verus! {

/// ASCII whitespace: space, tab, line feed, form feed, carriage return.
pub open spec fn is_space(c: char) -> bool {
    c == ' ' || c == '\t' || c == '\n' || c == '\r' || c == '\x0c'
}

/// The ten ASCII digits.
pub open spec fn is_digit(c: char) -> bool {
    '0' <= c <= '9'
}

/// The views of a vector of texts.
pub open spec fn views(v: Seq<Vec<char>>) -> Seq<Seq<char>> {
    Seq::new(v.len(), |i: int| v[i]@)
}

/// Where the line that begins at `from` ends: at the first carriage return
/// followed by a line feed, or at the end of the text.
pub open spec fn line_end(s: Seq<char>, from: int) -> int
    decreases s.len() - from,
{
    if from + 1 >= s.len() {
        s.len() as int
    } else if s[from] == '\r' && s[from + 1] == '\n' {
        from
    } else {
        line_end(s, from + 1)
    }
}

/// The lines of the text from `from` on.
pub open spec fn lines_from(s: Seq<char>, from: int) -> Seq<Seq<char>>
    recommends
        0 <= from <= s.len(),
    decreases s.len() - from,
{
    let e = line_end(s, from);
    if 0 <= from <= e && e + 2 <= s.len() {
        seq![s.subrange(from, e)] + lines_from(s, e + 2)
    } else {
        seq![s.subrange(from, s.len() as int)]
    }
}

/// The text cut at every CRLF pair. A bare line feed cuts nothing, and a
/// text that ends in CRLF has an empty last line.
pub open spec fn lines(s: Seq<char>) -> Seq<Seq<char>> {
    lines_from(s, 0)
}

/// The first position at or after `from` that holds no whitespace.
pub open spec fn word_start(s: Seq<char>, from: int) -> int
    decreases s.len() - from,
{
    if from >= s.len() {
        s.len() as int
    } else if !is_space(s[from]) {
        from
    } else {
        word_start(s, from + 1)
    }
}

/// The first position at or after `from` that holds whitespace.
pub open spec fn word_end(s: Seq<char>, from: int) -> int
    decreases s.len() - from,
{
    if from >= s.len() {
        s.len() as int
    } else if is_space(s[from]) {
        from
    } else {
        word_end(s, from + 1)
    }
}

/// The words of the text from `from` on.
pub open spec fn words_from(s: Seq<char>, from: int) -> Seq<Seq<char>>
    recommends
        0 <= from <= s.len(),
    decreases s.len() - from,
{
    let a = word_start(s, from);
    let b = word_end(s, a);
    if 0 <= from <= a && a < b <= s.len() {
        seq![s.subrange(a, b)] + words_from(s, b)
    } else {
        Seq::empty()
    }
}

/// The maximal runs of characters that are not whitespace, in order.
pub open spec fn words(s: Seq<char>) -> Seq<Seq<char>> {
    words_from(s, 0)
}

/// The first colon at or after `from`, or the end of the text.
pub open spec fn field_end(s: Seq<char>, from: int) -> int
    decreases s.len() - from,
{
    if from >= s.len() {
        s.len() as int
    } else if s[from] == ':' {
        from
    } else {
        field_end(s, from + 1)
    }
}

/// The fields of the text from `from` on.
pub open spec fn fields_from(s: Seq<char>, from: int) -> Seq<Seq<char>>
    recommends
        0 <= from <= s.len(),
    decreases s.len() - from,
{
    let e = field_end(s, from);
    if 0 <= from <= e && e < s.len() {
        seq![s.subrange(from, e)] + fields_from(s, e + 1)
    } else {
        seq![s.subrange(from, s.len() as int)]
    }
}

/// The text cut at every colon; a field may be empty.
pub open spec fn fields(s: Seq<char>) -> Seq<Seq<char>> {
    fields_from(s, 0)
}

/// The number that a digit stands for.
pub open spec fn digit_value(c: char) -> nat {
    (c as int - 48) as nat
}

/// The number that a run of digits writes; leading zeros count for nothing.
pub open spec fn numeral_value(s: Seq<char>) -> nat
    decreases s.len(),
{
    if s.len() == 0 {
        0
    } else {
        numeral_value(s.drop_last()) * 10 + digit_value(s.last())
    }
}

/// At least one character, and digits only.
pub open spec fn is_numeral(s: Seq<char>) -> bool {
    s.len() > 0 && forall|i: int| 0 <= i < s.len() ==> is_digit(#[trigger] s[i])
}

/// The text without one leading plus sign.
pub open spec fn unsigned_body(s: Seq<char>) -> Seq<char> {
    if s.len() > 0 && s[0] == '+' {
        s.drop_first()
    } else {
        s
    }
}

/// The unsigned integer that `s` writes, if it writes one that is at most
/// `max`: an optional plus sign, then digits and nothing else.
pub open spec fn parse_unsigned(s: Seq<char>, max: nat) -> Option<nat> {
    let d = unsigned_body(s);
    if is_numeral(d) && numeral_value(d) <= max {
        Some(numeral_value(d))
    } else {
        None
    }
}

/// A numeral is worth at least as much as each of its prefixes.
pub proof fn lemma_prefix_value(d: Seq<char>, k: int)
    requires
        0 <= k <= d.len(),
    ensures
        numeral_value(d.take(k)) <= numeral_value(d),
    decreases d.len() - k,
{
    if k == d.len() {
        assert(d.take(k) =~= d);
    } else {
        lemma_prefix_value(d, k + 1);
        assert(d.take(k + 1).drop_last() =~= d.take(k));
    }
}

/// A text without whitespace: what one word can be.
pub open spec fn is_spaceless(s: Seq<char>) -> bool {
    forall|i: int| 0 <= i < s.len() ==> !is_space(#[trigger] s[i])
}

/// A text without a colon: what one field can be.
pub open spec fn is_colonless(s: Seq<char>) -> bool {
    forall|i: int| 0 <= i < s.len() ==> (#[trigger] s[i]) != ':'
}

/// A run of whitespace from `from` up to `to` is skipped as a whole.
pub proof fn lemma_word_start_at(s: Seq<char>, from: int, to: int)
    requires
        0 <= from <= to <= s.len(),
        forall|k: int| from <= k < to ==> is_space(#[trigger] s[k]),
        to == s.len() || !is_space(s[to]),
    ensures
        word_start(s, from) == to,
    decreases to - from,
{
    if from < to {
        lemma_word_start_at(s, from + 1, to);
    }
}

/// A run without whitespace from `from` up to `to` is one word.
pub proof fn lemma_word_end_at(s: Seq<char>, from: int, to: int)
    requires
        0 <= from <= to <= s.len(),
        forall|k: int| from <= k < to ==> !is_space(#[trigger] s[k]),
        to == s.len() || is_space(s[to]),
    ensures
        word_end(s, from) == to,
    decreases to - from,
{
    if from < to {
        lemma_word_end_at(s, from + 1, to);
    }
}

/// A run without a colon from `from` up to `to` is one field.
pub proof fn lemma_field_end_at(s: Seq<char>, from: int, to: int)
    requires
        0 <= from <= to <= s.len(),
        forall|k: int| from <= k < to ==> (#[trigger] s[k]) != ':',
        to == s.len() || s[to] == ':',
    ensures
        field_end(s, from) == to,
    decreases to - from,
{
    if from < to {
        lemma_field_end_at(s, from + 1, to);
    }
}

/// Three words written with one space between them are read as written,
/// and hold no carriage return.
pub proof fn lemma_three_words(a: Seq<char>, b: Seq<char>, c: Seq<char>)
    requires
        a.len() > 0 && is_spaceless(a),
        b.len() > 0 && is_spaceless(b),
        c.len() > 0 && is_spaceless(c),
    ensures
        words(a + seq![' '] + b + seq![' '] + c) == seq![a, b, c],
        forall|k: int|
            0 <= k < (a + seq![' '] + b + seq![' '] + c).len() ==> (#[trigger] (a + seq![' '] + b
                + seq![' '] + c)[k]) != '\r',
{
    let s = a + seq![' '] + b + seq![' '] + c;
    let la = a.len() as int;
    let lb = b.len() as int;
    let n = s.len() as int;
    assert(n == la + lb + c.len() + 2);
    assert forall|k: int| 0 <= k < la implies !is_space(#[trigger] s[k]) by {
        assert(s[k] == a[k]);
    }
    assert(s[la] == ' ');
    assert forall|k: int| la + 1 <= k < la + 1 + lb implies !is_space(#[trigger] s[k]) by {
        assert(s[k] == b[k - la - 1]);
    }
    assert(s[la + 1 + lb] == ' ');
    assert forall|k: int| la + lb + 2 <= k < n implies !is_space(#[trigger] s[k]) by {
        assert(s[k] == c[k - la - lb - 2]);
    }
    lemma_word_start_at(s, 0, 0);
    lemma_word_end_at(s, 0, la);
    lemma_word_start_at(s, la, la + 1);
    lemma_word_end_at(s, la + 1, la + 1 + lb);
    lemma_word_start_at(s, la + 1 + lb, la + lb + 2);
    lemma_word_end_at(s, la + lb + 2, n);
    lemma_word_start_at(s, n, n);
    assert(s.subrange(0, la) =~= a);
    assert(s.subrange(la + 1, la + 1 + lb) =~= b);
    assert(s.subrange(la + lb + 2, n) =~= c);
    assert(words_from(s, n) =~= Seq::<Seq<char>>::empty());
    assert(words_from(s, la + 1 + lb) =~= seq![c]);
    assert(words_from(s, la) =~= seq![b, c]);
    assert(words_from(s, 0) =~= seq![a, b, c]);
}

/// A run without a carriage return, with CRLF behind it, is one line.
pub proof fn lemma_line_end_at(s: Seq<char>, from: int, to: int)
    requires
        0 <= from <= to,
        to + 2 <= s.len(),
        forall|k: int| from <= k < to ==> (#[trigger] s[k]) != '\r',
        s[to] == '\r' && s[to + 1] == '\n',
    ensures
        line_end(s, from) == to,
    decreases to - from,
{
    if from < to {
        lemma_line_end_at(s, from + 1, to);
    }
}

/// A line written with CRLF behind it is read as that line and an empty
/// one.
pub proof fn lemma_one_line(line: Seq<char>)
    requires
        forall|k: int| 0 <= k < line.len() ==> (#[trigger] line[k]) != '\r',
    ensures
        lines(line + seq!['\r', '\n']) == seq![line, Seq::<char>::empty()],
{
    let s = line + seq!['\r', '\n'];
    let n = line.len() as int;
    assert forall|k: int| 0 <= k < n implies (#[trigger] s[k]) != '\r' by {
        assert(s[k] == line[k]);
    }
    assert(s[n] == '\r' && s[n + 1] == '\n');
    lemma_line_end_at(s, 0, n);
    assert(s.subrange(0, n) =~= line);
    assert(line_end(s, n + 2) == s.len());
    assert(s.subrange(n + 2, s.len() as int) =~= Seq::<char>::empty());
    assert(lines_from(s, n + 2) =~= seq![Seq::<char>::empty()]);
    assert(lines_from(s, 0) =~= seq![line, Seq::<char>::empty()]);
}

/// An empty text holds no words.
pub proof fn lemma_no_words()
    ensures
        words(Seq::<char>::empty()).len() == 0,
{
}

/// A text without a colon is one field.
pub proof fn lemma_one_field(a: Seq<char>)
    requires
        is_colonless(a),
    ensures
        fields(a) == seq![a],
{
    lemma_field_end_at(a, 0, a.len() as int);
    assert(a.subrange(0, a.len() as int) =~= a);
    assert(fields_from(a, 0) =~= seq![a]);
}

/// Two fields written with a colon between them are read as written.
pub proof fn lemma_two_fields(a: Seq<char>, b: Seq<char>)
    requires
        is_colonless(a),
        is_colonless(b),
    ensures
        fields(a + seq![':'] + b) == seq![a, b],
{
    let s = a + seq![':'] + b;
    let la = a.len() as int;
    let n = s.len() as int;
    assert forall|k: int| 0 <= k < la implies (#[trigger] s[k]) != ':' by {
        assert(s[k] == a[k]);
    }
    assert(s[la] == ':');
    assert forall|k: int| la + 1 <= k < n implies (#[trigger] s[k]) != ':' by {
        assert(s[k] == b[k - la - 1]);
    }
    lemma_field_end_at(s, 0, la);
    lemma_field_end_at(s, la + 1, n);
    assert(s.subrange(0, la) =~= a);
    assert(s.subrange(la + 1, n) =~= b);
    assert(fields_from(s, la + 1) =~= seq![b]);
    assert(fields_from(s, 0) =~= seq![a, b]);
}

/// Three fields written with colons between them are read as written.
pub proof fn lemma_three_fields(a: Seq<char>, b: Seq<char>, c: Seq<char>)
    requires
        is_colonless(a),
        is_colonless(b),
        is_colonless(c),
    ensures
        fields(a + seq![':'] + b + seq![':'] + c) == seq![a, b, c],
{
    let s = a + seq![':'] + b + seq![':'] + c;
    let la = a.len() as int;
    let lb = b.len() as int;
    let n = s.len() as int;
    assert forall|k: int| 0 <= k < la implies (#[trigger] s[k]) != ':' by {
        assert(s[k] == a[k]);
    }
    assert(s[la] == ':');
    assert forall|k: int| la + 1 <= k < la + 1 + lb implies (#[trigger] s[k]) != ':' by {
        assert(s[k] == b[k - la - 1]);
    }
    assert(s[la + 1 + lb] == ':');
    assert forall|k: int| la + lb + 2 <= k < n implies (#[trigger] s[k]) != ':' by {
        assert(s[k] == c[k - la - lb - 2]);
    }
    lemma_field_end_at(s, 0, la);
    lemma_field_end_at(s, la + 1, la + 1 + lb);
    lemma_field_end_at(s, la + lb + 2, n);
    assert(s.subrange(0, la) =~= a);
    assert(s.subrange(la + 1, la + 1 + lb) =~= b);
    assert(s.subrange(la + lb + 2, n) =~= c);
    assert(fields_from(s, la + lb + 2) =~= seq![c]);
    assert(fields_from(s, la + 1) =~= seq![b, c]);
    assert(fields_from(s, 0) =~= seq![a, b, c]);
}

/// A number's decimal numeral is made of digits and is read back as the
/// number.
pub proof fn lemma_decimal_is_read_back(n: nat)
    ensures
        is_numeral(decimal(n)),
        numeral_value(decimal(n)) == n,
        is_spaceless(decimal(n)),
        is_colonless(decimal(n)),
        unsigned_body(decimal(n)) == decimal(n),
        forall|max: nat| n <= max ==> #[trigger] parse_unsigned(decimal(n), max) == Some(n),
    decreases n,
{
    if n < 10 {
        let d = decimal(n);
        assert(d.len() == 1 && is_digit(d[0]));
        assert(d.drop_last() =~= Seq::<char>::empty());
        assert(numeral_value(d.drop_last()) == 0);
        assert(digit_value(d[0]) == n);
    } else {
        lemma_decimal_is_read_back(n / 10);
        let head = decimal(n / 10);
        let d = decimal(n);
        assert(d == head.push(digit_char(n % 10)));
        assert(d.drop_last() =~= head);
        assert(is_digit(d.last()));
        assert(digit_value(d.last()) == n % 10);
        assert forall|i: int| 0 <= i < d.len() implies is_digit(#[trigger] d[i]) by {
            if i < head.len() {
                assert(d[i] == head[i]);
            }
        }
    }
    assert(is_digit(decimal(n)[0]));
}

/// The characters of `v` from `a` up to `b`.
pub fn copy_range(v: &Vec<char>, a: usize, b: usize) -> (r: Vec<char>)
    requires
        a <= b <= v.len(),
    ensures
        r@ == v@.subrange(a as int, b as int),
{
    let mut r: Vec<char> = Vec::new();
    let mut i: usize = a;
    while i < b
        invariant
            a <= i <= b <= v.len(),
            r@ == v@.subrange(a as int, i as int),
        decreases b - i,
    {
        r.push(v[i]);
        i += 1;
        proof {
            assert(r@ =~= v@.subrange(a as int, i as int));
        }
    }
    r
}

fn find_line_end(v: &Vec<char>, from: usize) -> (e: usize)
    requires
        from <= v.len(),
    ensures
        e == line_end(v@, from as int),
        from <= e <= v.len(),
        e < v.len() ==> e + 2 <= v.len(),
{
    let mut i: usize = from;
    while v.len() - i > 1
        invariant
            from <= i <= v.len(),
            line_end(v@, from as int) == line_end(v@, i as int),
        decreases v.len() - i,
    {
        if v[i] == '\r' && v[i + 1] == '\n' {
            return i;
        }
        i += 1;
    }
    v.len()
}

fn find_word_start(v: &Vec<char>, from: usize) -> (e: usize)
    requires
        from <= v.len(),
    ensures
        e == word_start(v@, from as int),
        from <= e <= v.len(),
{
    let mut i: usize = from;
    while i < v.len()
        invariant
            from <= i <= v.len(),
            word_start(v@, from as int) == word_start(v@, i as int),
        decreases v.len() - i,
    {
        let c = v[i];
        if !(c == ' ' || c == '\t' || c == '\n' || c == '\r' || c == '\x0c') {
            return i;
        }
        i += 1;
    }
    v.len()
}

fn find_word_end(v: &Vec<char>, from: usize) -> (e: usize)
    requires
        from <= v.len(),
    ensures
        e == word_end(v@, from as int),
        from <= e <= v.len(),
        from < v.len() && !is_space(v@[from as int]) ==> from < e,
{
    let mut i: usize = from;
    while i < v.len()
        invariant
            from <= i <= v.len(),
            word_end(v@, from as int) == word_end(v@, i as int),
            from < v.len() && !is_space(v@[from as int]) && i < v.len() ==> from < i || !is_space(
                v@[i as int],
            ),
        decreases v.len() - i,
    {
        let c = v[i];
        if c == ' ' || c == '\t' || c == '\n' || c == '\r' || c == '\x0c' {
            return i;
        }
        i += 1;
    }
    v.len()
}

fn find_field_end(v: &Vec<char>, from: usize) -> (e: usize)
    requires
        from <= v.len(),
    ensures
        e == field_end(v@, from as int),
        from <= e <= v.len(),
{
    let mut i: usize = from;
    while i < v.len()
        invariant
            from <= i <= v.len(),
            field_end(v@, from as int) == field_end(v@, i as int),
        decreases v.len() - i,
    {
        if v[i] == ':' {
            return i;
        }
        i += 1;
    }
    v.len()
}

/// Cuts a text into its lines.
pub fn split_lines(v: &Vec<char>) -> (out: Vec<Vec<char>>)
    ensures
        views(out@) == lines(v@),
{
    let mut out: Vec<Vec<char>> = Vec::new();
    let mut start: usize = 0;
    let mut done = false;
    while !done
        invariant
            start <= v.len(),
            done ==> views(out@) == lines(v@),
            !done ==> lines(v@) == views(out@) + lines_from(v@, start as int),
        decreases (if done { 0 } else { v.len() - start + 1 }),
    {
        let e = find_line_end(v, start);
        let piece = copy_range(v, start, e);
        let ghost before = out@;
        out.push(piece);
        proof {
            assert(views(out@) =~= views(before).push(piece@));
        }
        if e < v.len() {
            proof {
                assert(lines(v@) =~= views(out@) + lines_from(v@, e + 2));
            }
            start = e + 2;
        } else {
            proof {
                assert(lines(v@) =~= views(out@));
            }
            done = true;
        }
    }
    out
}

/// Cuts a text into its words.
pub fn split_words(v: &Vec<char>) -> (out: Vec<Vec<char>>)
    ensures
        views(out@) == words(v@),
{
    let mut out: Vec<Vec<char>> = Vec::new();
    let mut pos: usize = 0;
    let mut done = false;
    while !done
        invariant
            pos <= v.len(),
            done ==> views(out@) == words(v@),
            !done ==> words(v@) == views(out@) + words_from(v@, pos as int),
        decreases (if done { 0 } else { v.len() - pos + 1 }),
    {
        let a = find_word_start(v, pos);
        if a < v.len() {
            proof {
                assert(!is_space(v@[a as int])) by {
                    lemma_word_start_holds_no_space(v@, pos as int);
                }
            }
            let b = find_word_end(v, a);
            let piece = copy_range(v, a, b);
            let ghost before = out@;
            out.push(piece);
            proof {
                assert(views(out@) =~= views(before).push(piece@));
                assert(words(v@) =~= views(out@) + words_from(v@, b as int));
            }
            pos = b;
        } else {
            proof {
                assert(words(v@) =~= views(out@));
            }
            done = true;
        }
    }
    out
}

/// Where a word starts there is no whitespace.
pub proof fn lemma_word_start_holds_no_space(s: Seq<char>, from: int)
    requires
        0 <= from,
    ensures
        from <= word_start(s, from) <= s.len() || from > s.len(),
        word_start(s, from) < s.len() ==> !is_space(s[word_start(s, from)]),
    decreases s.len() - from,
{
    if from < s.len() && is_space(s[from]) {
        lemma_word_start_holds_no_space(s, from + 1);
    }
}

/// Cuts a key at its colons.
pub fn split_fields(v: &Vec<char>) -> (out: Vec<Vec<char>>)
    ensures
        views(out@) == fields(v@),
{
    let mut out: Vec<Vec<char>> = Vec::new();
    let mut start: usize = 0;
    let mut done = false;
    while !done
        invariant
            start <= v.len(),
            done ==> views(out@) == fields(v@),
            !done ==> fields(v@) == views(out@) + fields_from(v@, start as int),
        decreases (if done { 0 } else { v.len() - start + 1 }),
    {
        let e = find_field_end(v, start);
        let piece = copy_range(v, start, e);
        let ghost before = out@;
        out.push(piece);
        proof {
            assert(views(out@) =~= views(before).push(piece@));
        }
        if e < v.len() {
            proof {
                assert(fields(v@) =~= views(out@) + fields_from(v@, e + 1));
            }
            start = e + 1;
        } else {
            proof {
                assert(fields(v@) =~= views(out@));
            }
            done = true;
        }
    }
    out
}

/// Reads an unsigned integer of at most `max`.
pub fn read_unsigned(tok: &Vec<char>, max: u64) -> (r: Option<u64>)
    ensures
        match r {
            Some(n) => parse_unsigned(tok@, max as nat) == Some(n as nat),
            None => parse_unsigned(tok@, max as nat) is None,
        },
{
    let n = tok.len();
    let start: usize = if n > 0 && tok[0] == '+' {
        1
    } else {
        0
    };
    if start >= n {
        return None;
    }
    let ghost d = unsigned_body(tok@);
    proof {
        assert(d =~= tok@.subrange(start as int, n as int));
        assert(d.take(0) =~= Seq::<char>::empty());
    }
    let mut i: usize = start;
    let mut acc: u64 = 0;
    while i < n
        invariant
            start <= i <= n,
            n == tok.len(),
            d == unsigned_body(tok@),
            d == tok@.subrange(start as int, n as int),
            forall|k: int| 0 <= k < i - start ==> is_digit(#[trigger] d[k]),
            acc == numeral_value(d.take(i - start)),
            acc <= max,
        decreases n - i,
    {
        let c = tok[i];
        if !('0' <= c && c <= '9') {
            proof {
                assert(!is_digit(d[i - start]));
            }
            return None;
        }
        let dv: u64 = (c as u8 - 48) as u64;
        proof {
            assert(d.take(i - start + 1).drop_last() =~= d.take(i - start));
            assert(d.take(i - start + 1).last() == c);
            assert(dv == digit_value(c));
            lemma_prefix_value(d, i - start + 1);
        }
        if dv > max || acc > (max - dv) / 10 {
            return None;
        }
        acc = acc * 10 + dv;
        i += 1;
    }
    proof {
        assert(d.take(i - start) =~= d);
    }
    Some(acc)
}

} // verus!
