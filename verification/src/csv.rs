//! The CSV reader: delimiter auto-detection and the record grammar itself —
//! quoted fields with doubled-quote escapes, fields that may span lines,
//! `\n` / `\r\n` terminators, blank lines dropped, every field trimmed.

use vstd::prelude::*;

use crate::text::is_blank_seq;
use crate::text::is_space;
use crate::text::trim_chars;
use crate::text::trim_seq;
use crate::timestamp::seqs_of;
use crate::timestamp::split_on;

verus! {

/// The scanner state: finished rows, finished fields of the open row, the
/// open field, whether the open row has any content, and the quoting mode.
pub ghost struct CsvState {
    pub rows: Seq<Seq<Seq<char>>>,
    pub fields: Seq<Seq<char>>,
    pub cur: Seq<char>,
    pub started: bool,
    pub in_q: bool,
    pub after_close: bool,
}

pub open spec fn csv_init() -> CsvState {
    CsvState {
        rows: Seq::empty(),
        fields: Seq::empty(),
        cur: Seq::empty(),
        started: false,
        in_q: false,
        after_close: false,
    }
}

pub open spec fn csv_emit_row(st: CsvState) -> CsvState {
    CsvState {
        rows: st.rows.push(st.fields.push(st.cur)),
        fields: Seq::empty(),
        cur: Seq::empty(),
        started: false,
        in_q: false,
        after_close: false,
    }
}

/// One character of the record grammar.
pub open spec fn csv_step(st: CsvState, c: char, delim: char) -> CsvState {
    if st.in_q {
        if c == '"' {
            CsvState { in_q: false, after_close: true, ..st }
        } else {
            CsvState { cur: st.cur.push(c), ..st }
        }
    } else if st.after_close {
        if c == '"' {
            CsvState { cur: st.cur.push('"'), in_q: true, after_close: false, ..st }
        } else if c == delim {
            CsvState {
                fields: st.fields.push(st.cur),
                cur: Seq::empty(),
                after_close: false,
                started: true,
                ..st
            }
        } else if c == '\n' || c == '\r' {
            csv_emit_row(st)
        } else {
            CsvState { cur: st.cur.push(c), after_close: false, ..st }
        }
    } else {
        if c == '"' && st.cur.len() == 0 {
            CsvState { in_q: true, started: true, ..st }
        } else if c == delim {
            CsvState { fields: st.fields.push(st.cur), cur: Seq::empty(), started: true, ..st }
        } else if c == '\n' || c == '\r' {
            if st.started {
                csv_emit_row(st)
            } else {
                st
            }
        } else {
            CsvState { cur: st.cur.push(c), started: true, ..st }
        }
    }
}

pub open spec fn csv_scan(s: Seq<char>, delim: char) -> CsvState
    decreases s.len(),
{
    if s.len() == 0 {
        csv_init()
    } else {
        csv_step(csv_scan(s.drop_last(), delim), s.last(), delim)
    }
}

/// An open row at the end of input still counts.
pub open spec fn csv_finish(st: CsvState) -> Seq<Seq<Seq<char>>> {
    if st.started || st.in_q || st.after_close || st.cur.len() > 0 || st.fields.len() > 0 {
        st.rows.push(st.fields.push(st.cur))
    } else {
        st.rows
    }
}

pub open spec fn csv_raw_rows(s: Seq<char>, delim: char) -> Seq<Seq<Seq<char>>> {
    csv_finish(csv_scan(s, delim))
}

pub open spec fn trim_row(row: Seq<Seq<char>>) -> Seq<Seq<char>> {
    row.map_values(|f: Seq<char>| trim_seq(f))
}

pub open spec fn trim_rows(s: Seq<Seq<Seq<char>>>) -> Seq<Seq<Seq<char>>> {
    s.map_values(|r: Seq<Seq<char>>| trim_row(r))
}

/// The records of a document: the raw grammar with every field trimmed.
pub open spec fn csv_rows(s: Seq<char>, delim: char) -> Seq<Seq<Seq<char>>> {
    trim_rows(csv_raw_rows(s, delim))
}

proof fn lemma_seqs_of_push(vs: Seq<Vec<char>>, v: Vec<char>)
    ensures
        seqs_of(vs.push(v)) == seqs_of(vs).push(v@),
{
    assert(seqs_of(vs.push(v)) =~= seqs_of(vs).push(v@));
}

proof fn lemma_rows_of_push(vs: Seq<Vec<Vec<char>>>, v: Vec<Vec<char>>)
    ensures
        rows_of(vs.push(v)) == rows_of(vs).push(seqs_of(v@)),
{
    assert(rows_of(vs.push(v)) =~= rows_of(vs).push(seqs_of(v@)));
}

proof fn lemma_trim_row_take_push(s: Seq<Seq<char>>, j: int)
    requires
        0 <= j < s.len(),
    ensures
        trim_row(s.take(j + 1)) == trim_row(s.take(j)).push(trim_seq(s[j])),
{
    assert(trim_row(s.take(j + 1)) =~= trim_row(s.take(j)).push(trim_seq(s[j])));
}

proof fn lemma_trim_rows_take_push(s: Seq<Seq<Seq<char>>>, j: int)
    requires
        0 <= j < s.len(),
    ensures
        trim_rows(s.take(j + 1)) == trim_rows(s.take(j)).push(trim_row(s[j])),
{
    assert(trim_rows(s.take(j + 1)) =~= trim_rows(s.take(j)).push(trim_row(s[j])));
}

/// The views of a vector of rows of character vectors.
pub open spec fn rows_of(vs: Seq<Vec<Vec<char>>>) -> Seq<Seq<Seq<char>>> {
    vs.map_values(|r: Vec<Vec<char>>| seqs_of(r@))
}

/// Parses a whole document into its records, fields trimmed.
pub fn parse_csv_rows(content: &Vec<char>, delim: char) -> (r: Vec<Vec<Vec<char>>>)
    ensures
        rows_of(r@) == csv_rows(content@, delim),
{
    let mut rows: Vec<Vec<Vec<char>>> = Vec::new();
    let mut fields: Vec<Vec<char>> = Vec::new();
    let mut cur: Vec<char> = Vec::new();
    let mut started = false;
    let mut in_q = false;
    let mut after_close = false;
    let mut i: usize = 0;
    proof {
        assert(content@.take(0) =~= Seq::<char>::empty());
    }
    while i < content.len()
        invariant
            0 <= i <= content@.len(),
            rows_of(rows@) == csv_scan(content@.take(i as int), delim).rows,
            seqs_of(fields@) == csv_scan(content@.take(i as int), delim).fields,
            cur@ == csv_scan(content@.take(i as int), delim).cur,
            started == csv_scan(content@.take(i as int), delim).started,
            in_q == csv_scan(content@.take(i as int), delim).in_q,
            after_close == csv_scan(content@.take(i as int), delim).after_close,
        decreases content@.len() - i,
    {
        proof {
            assert(content@.take(i + 1).drop_last() =~= content@.take(i as int));
            assert(content@.take(i + 1).last() == content@[i as int]);
        }
        let ghost prev = csv_scan(content@.take(i as int), delim);
        let ghost next = csv_step(prev, content@[i as int], delim);
        let c = content[i];
        if in_q {
            if c == '"' {
                in_q = false;
                after_close = true;
            } else {
                cur.push(c);
            }
        } else if after_close {
            if c == '"' {
                cur.push('"');
                in_q = true;
                after_close = false;
            } else if c == delim {
                fields.push(cur);
                cur = Vec::new();
                after_close = false;
                started = true;
            } else if c == '\n' || c == '\r' {
                fields.push(cur);
                cur = Vec::new();
                rows.push(fields);
                fields = Vec::new();
                started = false;
                after_close = false;
            } else {
                cur.push(c);
                after_close = false;
            }
        } else {
            if c == '"' && cur.len() == 0 {
                in_q = true;
                started = true;
            } else if c == delim {
                fields.push(cur);
                cur = Vec::new();
                started = true;
            } else if c == '\n' || c == '\r' {
                if started {
                    fields.push(cur);
                    cur = Vec::new();
                    rows.push(fields);
                    fields = Vec::new();
                    started = false;
                }
            } else {
                cur.push(c);
                started = true;
            }
        }
        proof {
            assert(rows_of(rows@) =~~= next.rows);
            assert(seqs_of(fields@) =~~= next.fields);
            assert(cur@ =~= next.cur);
        }
        i = i + 1;
    }
    proof {
        assert(content@.take(content@.len() as int) =~= content@);
    }
    let ghost fin = csv_scan(content@, delim);
    if started || in_q || after_close || cur.len() > 0 || fields.len() > 0 {
        fields.push(cur);
        rows.push(fields);
        proof {
            assert(rows_of(rows@) =~~= csv_finish(fin));
        }
    } else {
        proof {
            assert(rows_of(rows@) =~~= csv_finish(fin));
        }
    }
    let mut out: Vec<Vec<Vec<char>>> = Vec::new();
    let mut k: usize = 0;
    let ghost raw = rows_of(rows@);
    proof {
        assert(rows_of(out@) =~= trim_rows(raw.take(0)));
    }
    while k < rows.len()
        invariant
            0 <= k <= rows@.len(),
            raw == rows_of(rows@),
            rows_of(out@) == trim_rows(raw.take(k as int)),
        decreases rows@.len() - k,
    {
        let row = &rows[k];
        let mut trow: Vec<Vec<char>> = Vec::new();
        let mut j: usize = 0;
        proof {
            assert(seqs_of(trow@) =~= trim_row(seqs_of(row@).take(0)));
        }
        while j < row.len()
            invariant
                0 <= j <= row@.len(),
                seqs_of(trow@) == trim_row(seqs_of(row@).take(j as int)),
            decreases row@.len() - j,
        {
            let ghost tprev = trow@;
            let tf = trim_chars(&row[j]);
            trow.push(tf);
            proof {
                lemma_seqs_of_push(tprev, tf);
                lemma_trim_row_take_push(seqs_of(row@), j as int);
                assert(seqs_of(row@)[j as int] == (row@[j as int])@);
            }
            j = j + 1;
        }
        proof {
            assert(seqs_of(row@).take(row@.len() as int) =~= seqs_of(row@));
            assert(raw[k as int] == seqs_of(row@));
        }
        let ghost oprev = out@;
        out.push(trow);
        proof {
            lemma_rows_of_push(oprev, trow);
            lemma_trim_rows_take_push(raw, k as int);
        }
        k = k + 1;
    }
    proof {
        assert(raw.take(raw.len() as int) =~= raw);
    }
    out
}

/// Characters equal to `c` in `s`.
pub open spec fn count_char(s: Seq<char>, c: char) -> int
    decreases s.len(),
{
    if s.len() == 0 {
        0int
    } else {
        count_char(s.drop_last(), c) + if s.last() == c {
            1int
        } else {
            0int
        }
    }
}

proof fn lemma_count_char_bound(s: Seq<char>, c: char)
    ensures
        0 <= count_char(s, c) <= s.len(),
    decreases s.len(),
{
    if s.len() > 0 {
        lemma_count_char_bound(s.drop_last(), c);
    }
}

/// A trailing carriage return removed.
pub open spec fn strip_cr(l: Seq<char>) -> Seq<char> {
    if l.len() > 0 && l.last() == '\r' {
        l.drop_last()
    } else {
        l
    }
}

pub open spec fn strip_crs(parts: Seq<Seq<char>>) -> Seq<Seq<char>> {
    parts.map_values(|l: Seq<char>| strip_cr(l))
}

proof fn lemma_strip_crs_take_push(s: Seq<Seq<char>>, j: int)
    requires
        0 <= j < s.len(),
    ensures
        strip_crs(s.take(j + 1)) == strip_crs(s.take(j)).push(strip_cr(s[j])),
{
    assert(strip_crs(s.take(j + 1)) =~= strip_crs(s.take(j)).push(strip_cr(s[j])));
}

/// The lines of a document: split at `\n`, a final empty piece dropped, and
/// each line's trailing `\r` removed.
pub open spec fn lines_of(s: Seq<char>) -> Seq<Seq<char>> {
    let parts = split_on(s, '\n');
    let kept = if parts.len() > 0 && parts.last().len() == 0 {
        parts.drop_last()
    } else {
        parts
    };
    strip_crs(kept)
}

/// Comma and semicolon counts over the first `budget` non-blank lines.
pub open spec fn delimiter_scores(lines: Seq<Seq<char>>, budget: int) -> (int, int)
    decreases lines.len(),
{
    if lines.len() == 0 || budget <= 0 {
        (0int, 0int)
    } else if is_blank_seq(lines.first()) {
        delimiter_scores(lines.drop_first(), budget)
    } else {
        let rest = delimiter_scores(lines.drop_first(), budget - 1);
        (count_char(lines.first(), ',') + rest.0, count_char(lines.first(), ';') + rest.1)
    }
}

/// The delimiter a document is read with: semicolon only when it strictly
/// beats comma over a sample of the first fifteen non-blank lines.
pub open spec fn delimiter_of(s: Seq<char>) -> char {
    let sc = delimiter_scores(lines_of(s), 15);
    if sc.1 > sc.0 {
        ';'
    } else {
        ','
    }
}

fn count_char_exec(l: &Vec<char>, c: char) -> (n: usize)
    ensures
        n == count_char(l@, c),
        n <= l@.len(),
{
    proof {
        lemma_count_char_bound(l@, c);
    }
    let mut n: usize = 0;
    let mut i: usize = 0;
    while i < l.len()
        invariant
            0 <= i <= l@.len(),
            n == count_char(l@.take(i as int), c),
            n <= i,
        decreases l@.len() - i,
    {
        proof {
            assert(l@.take(i + 1).drop_last() =~= l@.take(i as int));
            assert(l@.take(i + 1).last() == l@[i as int]);
        }
        if l[i] == c {
            n = n + 1;
        }
        i = i + 1;
    }
    proof {
        assert(l@.take(l@.len() as int) =~= l@);
    }
    n
}

fn is_blank_line(l: &Vec<char>) -> (b: bool)
    ensures
        b == is_blank_seq(l@),
{
    let mut i: usize = 0;
    while i < l.len()
        invariant
            0 <= i <= l@.len(),
            forall|j: int| 0 <= j < i ==> crate::text::is_space_char(l@[j]),
        decreases l@.len() - i,
    {
        if !is_space(l[i]) {
            return false;
        }
        i = i + 1;
    }
    true
}

/// Splits a document into its lines.
fn lines_exec(content: &Vec<char>) -> (r: Vec<Vec<char>>)
    ensures
        seqs_of(r@) == lines_of(content@),
{
    let mut parts = crate::timestamp::split_chars(content, '\n');
    let keep_last = match parts.last() {
        Some(l) => l.len() > 0,
        None => false,
    };
    if !keep_last {
        let _ = parts.pop();
        proof {
            assert(seqs_of(parts@) =~~= split_on(content@, '\n').drop_last());
        }
    }
    let mut out: Vec<Vec<char>> = Vec::new();
    let ghost kept = seqs_of(parts@);
    let mut i: usize = 0;
    proof {
        assert(seqs_of(out@) =~= strip_crs(kept.take(0)));
    }
    while i < parts.len()
        invariant
            0 <= i <= parts@.len(),
            kept == seqs_of(parts@),
            seqs_of(out@) == strip_crs(kept.take(i as int)),
        decreases parts@.len() - i,
    {
        let p = &parts[i];
        let n = p.len();
        let stripped: Vec<char> = if n > 0 && p[n - 1] == '\r' {
            crate::timestamp::subvec(p, 0, n - 1)
        } else {
            crate::timestamp::subvec(p, 0, n)
        };
        proof {
            assert(p@.subrange(0, p@.len() as int) =~= p@);
            if p@.len() > 0 && p@.last() == '\r' {
                assert(p@.subrange(0, p@.len() - 1) =~= p@.drop_last());
            }
            assert(stripped@ == strip_cr(kept[i as int]));
        }
        let ghost oprev = out@;
        out.push(stripped);
        proof {
            lemma_seqs_of_push(oprev, stripped);
            lemma_strip_crs_take_push(kept, i as int);
        }
        i = i + 1;
    }
    proof {
        assert(kept.take(kept.len() as int) =~= kept);
    }
    out
}

/// Picks the document delimiter by scoring a sample of its lines.
pub fn csv_delimiter(content: &str) -> (r: char)
    ensures
        r == delimiter_of(content@),
{
    let v = crate::text::chars_of(content);
    csv_delimiter_chars(&v)
}

/// The delimiter choice, on character vectors.
pub fn csv_delimiter_chars(content: &Vec<char>) -> (r: char)
    ensures
        r == delimiter_of(content@),
{
    let lines = lines_exec(content);
    let ghost lv = seqs_of(lines@);
    let mut commas: u128 = 0;
    let mut semis: u128 = 0;
    let mut budget: usize = 15;
    let mut i: usize = 0;
    proof {
        assert(lv.skip(0) =~= lv);
    }
    while i < lines.len() && budget > 0
        invariant
            0 <= i <= lines@.len(),
            0 <= budget <= 15,
            lv == seqs_of(lines@),
            commas <= (15 - budget) as int * 0xFFFF_FFFF_FFFF_FFFFu128,
            semis <= (15 - budget) as int * 0xFFFF_FFFF_FFFF_FFFFu128,
            delimiter_scores(lv, 15) == (
                commas + delimiter_scores(lv.skip(i as int), budget as int).0,
                semis + delimiter_scores(lv.skip(i as int), budget as int).1,
            ),
        decreases lines@.len() - i,
    {
        proof {
            assert(lv.skip(i as int).first() == lv[i as int]);
            assert(lv.skip(i as int).drop_first() =~= lv.skip(i + 1));
            lemma_count_char_bound(lv[i as int], ',');
            lemma_count_char_bound(lv[i as int], ';');
        }
        let line = &lines[i];
        if !is_blank_line(line) {
            let c = count_char_exec(line, ',');
            let s = count_char_exec(line, ';');
            assert(c <= usize::MAX && s <= usize::MAX);
            commas = commas + c as u128;
            semis = semis + s as u128;
            budget = budget - 1;
        }
        i = i + 1;
    }
    proof {
        if budget == 0 {
            assert(delimiter_scores(lv.skip(i as int), 0) == (0int, 0int));
        } else {
            assert(i == lines@.len());
            assert(lv.skip(i as int) =~= Seq::<Seq<char>>::empty());
        }
    }
    if semis > commas {
        ';'
    } else {
        ','
    }
}

} // verus!
