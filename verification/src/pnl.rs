//! Profit-and-loss summary of the PnL log (one CSV row per settled trade).
use vstd::prelude::*;
use crate::text::{decimal_scaled_i64, parse_decimal_scaled, str_chars, string_from_chars};

verus! {

/// Pieces of `s` between occurrences of `sep` (always at least one piece).
pub open spec fn split_on(s: Seq<char>, sep: char) -> Seq<Seq<char>>
    decreases s.len(),
{
    if s.len() == 0 {
        seq![Seq::empty()]
    } else {
        let init = split_on(s.drop_last(), sep);
        if s.last() == sep {
            init.push(Seq::empty())
        } else {
            init.update(init.len() - 1, init.last().push(s.last()))
        }
    }
}

proof fn lemma_split_nonempty(s: Seq<char>, sep: char)
    ensures
        split_on(s, sep).len() >= 1,
    decreases s.len(),
{
    if s.len() > 0 {
        lemma_split_nonempty(s.drop_last(), sep);
    }
}

/// A line without the `\r` of a `\r\n` ending.
pub open spec fn strip_cr(l: Seq<char>) -> Seq<char> {
    if l.len() > 0 && l.last() == '\r' { l.drop_last() } else { l }
}

/// The lines of a text as `str::lines` gives them: split at `\n`, a `\r`
/// before a `\n` dropped, no empty line after a final `\n`.
pub open spec fn lines_of(s: Seq<char>) -> Seq<Seq<char>> {
    let p = split_on(s, '\n');
    let done = p.drop_last().map_values(|l: Seq<char>| strip_cr(l));
    if p.last().len() == 0 { done } else { done.push(p.last()) }
}

/// Splits `s` at every `sep`.
pub fn split_chars(s: &Vec<char>, sep: char) -> (res: Vec<Vec<char>>)
    ensures
        res@.len() == split_on(s@, sep).len(),
        forall|i: int| 0 <= i < res@.len() ==> (#[trigger] res@[i])@ == split_on(s@, sep)[i],
{
    let mut done: Vec<Vec<char>> = Vec::new();
    let mut cur: Vec<char> = Vec::new();
    let mut i: usize = 0;
    while i < s.len()
        invariant
            i <= s@.len(),
            done@.len() + 1 == split_on(s@.take(i as int), sep).len(),
            forall|k: int| 0 <= k < done@.len() ==> (#[trigger] done@[k])@ == split_on(s@.take(i as int), sep)[k],
            cur@ == split_on(s@.take(i as int), sep).last(),
        decreases s@.len() - i,
    {
        let c = s[i];
        proof {
            assert(s@.take(i + 1).drop_last() =~= s@.take(i as int));
            lemma_split_nonempty(s@.take(i as int), sep);
        }
        if c == sep {
            let finished = cur;
            done.push(finished);
            cur = Vec::new();
            proof {
                let p = split_on(s@.take(i as int), sep);
                assert forall|k: int| 0 <= k < done@.len() implies (#[trigger] done@[k])@ == split_on(s@.take(i + 1), sep)[k] by {
                    if k < done@.len() - 1 {
                        assert(split_on(s@.take(i + 1), sep)[k] == p[k]);
                    }
                }
            }
        } else {
            cur.push(c);
        }
        i = i + 1;
    }
    assert(s@.take(i as int) =~= s@);
    done.push(cur);
    proof {
        lemma_split_nonempty(s@, sep);
    }
    done
}

/// The lines of a text (see `lines_of`).
pub fn text_lines(text: &str) -> (res: Vec<Vec<char>>)
    ensures
        res@.len() == lines_of(text@).len(),
        forall|i: int| 0 <= i < res@.len() ==> (#[trigger] res@[i])@ == lines_of(text@)[i],
{
    let cs = str_chars(text);
    let pieces = split_chars(&cs, '\n');
    let ghost p = split_on(text@, '\n');
    proof { lemma_split_nonempty(text@, '\n'); }
    let n = pieces.len();
    let mut out: Vec<Vec<char>> = Vec::new();
    let mut i: usize = 0;
    while i + 1 < n
        invariant
            n == pieces@.len(),
            n == p.len(),
            n >= 1,
            p == split_on(text@, '\n'),
            forall|k: int| 0 <= k < n ==> (#[trigger] pieces@[k])@ == p[k],
            i < n,
            out@.len() == i,
            forall|k: int| 0 <= k < i ==> (#[trigger] out@[k])@ == strip_cr(p[k]),
        decreases n - i,
    {
        let l = &pieces[i];
        let mut line: Vec<char> = Vec::new();
        let m = l.len();
        let keep: usize = if m > 0 && l[m - 1] == '\r' { m - 1 } else { m };
        let mut j: usize = 0;
        while j < keep
            invariant
                keep <= m,
                m == l@.len(),
                j <= keep,
                line@ == l@.take(j as int),
            decreases keep - j,
        {
            line.push(l[j]);
            assert(l@.take(j + 1) =~= l@.take(j as int).push(l@[j as int]));
            j = j + 1;
        }
        assert(line@ =~= strip_cr(l@));
        out.push(line);
        i = i + 1;
    }
    let last = &pieces[n - 1];
    if last.len() > 0 {
        let mut copy: Vec<char> = Vec::new();
        let mut j: usize = 0;
        while j < last.len()
            invariant
                j <= last@.len(),
                copy@ == last@.take(j as int),
            decreases last@.len() - j,
        {
            copy.push(last[j]);
            assert(last@.take(j + 1) =~= last@.take(j as int).push(last@[j as int]));
            j = j + 1;
        }
        assert(copy@ =~= last@);
        out.push(copy);
    }
    out
}

/// One row of the PnL summary.
#[derive(Clone, Debug)]
pub struct PnlRow {
    pub slug: String,
    /// `10^-8` USD.
    pub beat_price: i64,
    pub end_price: i64,
    pub winner: String,
    pub our_outcome: String,
    /// Millionths of USDC.
    pub usdc_spent: i64,
    pub pnl: i64,
}

/// Totals over all rows of the PnL log.
#[derive(Clone, Debug)]
pub struct PnlSummary {
    pub total_pnl: i128,
    pub total_spent: i128,
    pub wins: usize,
    pub losses: usize,
    pub rows: Vec<PnlRow>,
}

/// A number of the log, or 0 when it does not read as one.
pub open spec fn number_or_zero(field: Seq<char>, k: nat) -> int {
    match decimal_scaled_i64(field, k) {
        Some(v) => v,
        None => 0,
    }
}

/// A data line is a row when it has at least nine fields.
pub open spec fn is_row(line: Seq<char>) -> bool {
    split_on(line, ',').len() >= 9
}

/// The row a data line stands for.
pub open spec fn row_matches(r: PnlRow, line: Seq<char>) -> bool {
    let f = split_on(line, ',');
    &&& r.slug@ == f[0]
    &&& r.beat_price == number_or_zero(f[1], 8)
    &&& r.end_price == number_or_zero(f[2], 8)
    &&& r.winner@ == f[3]
    &&& r.our_outcome@ == f[4]
    &&& r.usdc_spent == number_or_zero(f[6], 6)
    &&& r.pnl == number_or_zero(f[8], 6)
}

/// The data lines (all lines after the header) that are rows, in order.
pub open spec fn row_lines(lines: Seq<Seq<char>>) -> Seq<Seq<char>> {
    if lines.len() == 0 {
        Seq::empty()
    } else {
        lines.skip(1).filter(|l: Seq<char>| is_row(l))
    }
}

pub open spec fn sum_pnl(rows: Seq<PnlRow>) -> int
    decreases rows.len(),
{
    if rows.len() == 0 { 0 } else { sum_pnl(rows.drop_last()) + rows.last().pnl }
}

pub open spec fn sum_spent(rows: Seq<PnlRow>) -> int
    decreases rows.len(),
{
    if rows.len() == 0 { 0 } else { sum_spent(rows.drop_last()) + rows.last().usdc_spent }
}

/// How many rows made a profit.
pub open spec fn count_wins(rows: Seq<PnlRow>) -> nat
    decreases rows.len(),
{
    if rows.len() == 0 { 0 } else { count_wins(rows.drop_last()) + if rows.last().pnl > 0 { 1nat } else { 0nat } }
}

fn field_text(f: &Vec<char>) -> (res: String)
    ensures
        res@ == f@,
{
    string_from_chars(f)
}

fn number_field(f: &Vec<char>, k: u32) -> (res: i64)
    requires
        k <= 18,
    ensures
        res == number_or_zero(f@, k as nat),
{
    let t = string_from_chars(f);
    match parse_decimal_scaled(t.as_str(), k) {
        Some(v) => v,
        None => 0,
    }
}

proof fn lemma_sums_bounded(rows: Seq<PnlRow>)
    ensures
        -(rows.len() as int) * 0x8000_0000_0000_0000 <= sum_pnl(rows) <= (rows.len() as int) * 0x8000_0000_0000_0000,
        -(rows.len() as int) * 0x8000_0000_0000_0000 <= sum_spent(rows) <= (rows.len() as int) * 0x8000_0000_0000_0000,
        count_wins(rows) <= rows.len(),
    decreases rows.len(),
{
    if rows.len() > 0 {
        lemma_sums_bounded(rows.drop_last());
    }
}

/// Sums up the PnL log: the first line is a header; every later line with at
/// least nine comma-separated fields is a row (slug, beat, end, winner, our
/// outcome, shares, USDC spent, fill price, PnL, ...); numbers that do not
/// read as numbers count as 0. A row with a positive PnL is a win, any other
/// a loss.
pub fn summarize_pnl_log(content: &str) -> (res: PnlSummary)
    ensures
        res.rows@.len() == row_lines(lines_of(content@)).len(),
        forall|i: int| 0 <= i < res.rows@.len() ==> row_matches(#[trigger] res.rows@[i], row_lines(lines_of(content@))[i]),
        res.total_pnl == sum_pnl(res.rows@),
        res.total_spent == sum_spent(res.rows@),
        res.wins == count_wins(res.rows@),
        res.wins + res.losses == res.rows@.len(),
{
    let lines = text_lines(content);
    let ghost ls = lines_of(content@);
    let mut rows: Vec<PnlRow> = Vec::new();
    let mut total_pnl: i128 = 0;
    let mut total_spent: i128 = 0;
    let mut wins: usize = 0;
    let mut losses: usize = 0;
    if lines.len() == 0 {
        return PnlSummary { total_pnl, total_spent, wins, losses, rows };
    }
    let mut i: usize = 1;
    while i < lines.len()
        invariant
            1 <= i <= lines@.len(),
            lines@.len() == ls.len(),
            ls == lines_of(content@),
            forall|k: int| 0 <= k < lines@.len() ==> (#[trigger] lines@[k])@ == ls[k],
            rows@.len() == ls.subrange(1, i as int).filter(|l: Seq<char>| is_row(l)).len(),
            forall|k: int| 0 <= k < rows@.len() ==> row_matches(#[trigger] rows@[k], ls.subrange(1, i as int).filter(|l: Seq<char>| is_row(l))[k]),
            total_pnl == sum_pnl(rows@),
            total_spent == sum_spent(rows@),
            wins == count_wins(rows@),
            wins + losses == rows@.len(),
            rows@.len() < i,
        decreases lines@.len() - i,
    {
        let fields = split_chars(&lines[i], ',');
        proof {
            let a = ls.subrange(1, i as int);
            let b = ls.subrange(1, i + 1);
            assert(b.drop_last() =~= a);
            reveal_with_fuel(Seq::filter, 1);
        }
        if fields.len() >= 9 {
            let row = PnlRow {
                slug: field_text(&fields[0]),
                beat_price: number_field(&fields[1], 8),
                end_price: number_field(&fields[2], 8),
                winner: field_text(&fields[3]),
                our_outcome: field_text(&fields[4]),
                usdc_spent: number_field(&fields[6], 6),
                pnl: number_field(&fields[8], 6),
            };
            proof {
                lemma_sums_bounded(rows@);
            }
            assert(-(rows@.len() as int) * 0x8000_0000_0000_0000 >= -0x1_0000_0000_0000_0000 * 0x8000_0000_0000_0000) by (nonlinear_arith)
                requires rows@.len() < 0x1_0000_0000_0000_0000int;
            assert((rows@.len() as int) * 0x8000_0000_0000_0000 <= 0x1_0000_0000_0000_0000 * 0x8000_0000_0000_0000) by (nonlinear_arith)
                requires rows@.len() < 0x1_0000_0000_0000_0000int;
            total_pnl = total_pnl + row.pnl as i128;
            total_spent = total_spent + row.usdc_spent as i128;
            if row.pnl > 0 {
                wins = wins + 1;
            } else {
                losses = losses + 1;
            }
            let ghost before = rows@;
            rows.push(row);
            proof {
                assert(rows@.drop_last() =~= before);
                let b = ls.subrange(1, i + 1);
                assert forall|k: int| 0 <= k < rows@.len() implies row_matches(#[trigger] rows@[k], b.filter(|l: Seq<char>| is_row(l))[k]) by {
                    if k < before.len() {
                        assert(rows@[k] == before[k]);
                    }
                }
            }
        } else {
            proof {
                let b = ls.subrange(1, i + 1);
                assert(!is_row(ls[i as int]));
            }
        }
        i = i + 1;
    }
    assert(ls.subrange(1, i as int) =~= ls.skip(1));
    PnlSummary { total_pnl, total_spent, wins, losses, rows }
}

} // verus!
