use vstd::prelude::*;

use crate::model::{Amplitude, DensityMatrix, Statistics, StateVector};
use crate::model::{entries_map, lemma_entries_map_absent, lemma_entries_map_replace};
use crate::numbers::{dec_of, dec_val, is_dec_token, is_float_token};
use crate::numbers::{float_token_ok, parse_usize_token, push_dec_usize};
use crate::text::{chars_of, drop_empty, lines_of, lines_vec, split_on, split_on_vec};
use crate::text::{string_of, views_of};

verus! {

/// The tokens of one line: the maximal space-free runs.
pub open spec fn tokens_of(line: Seq<char>) -> Seq<Seq<char>> {
    drop_empty(split_on(line, ' '))
}

/// Splits a line into its tokens.
pub fn tokens_vec(line: &Vec<char>) -> (ts: Vec<Vec<char>>)
    ensures
        views_of(ts@) == tokens_of(line@),
{
    let parts = split_on_vec(line, ' ');
    let mut ts: Vec<Vec<char>> = Vec::new();
    let mut i: usize = 0;
    while i < parts.len()
        invariant
            i <= parts@.len(),
            views_of(ts@) == drop_empty(views_of(parts@).take(i as int)),
        decreases parts@.len() - i,
    {
        let ghost pre = views_of(parts@).take(i as int);
        proof {
            assert(views_of(parts@).take(i + 1).drop_last() =~= pre);
            assert(views_of(parts@).take(i + 1).last() == parts@[i as int]@);
        }
        if parts[i].len() > 0 {
            let ghost old_ts = views_of(ts@);
            let p = parts[i].clone();
            proof {
                assert(p@ == views_of(parts@)[i as int]);
            }
            ts.push(p);
            proof {
                assert(views_of(ts@) =~~= old_ts.push(views_of(parts@).take(i + 1).last()));
            }
        }
        i = i + 1;
    }
    proof {
        assert(views_of(parts@).take(parts@.len() as int) =~= views_of(parts@));
    }
    ts
}

/// How a simulator output file failed to parse.
#[derive(Clone, Copy, Debug, PartialEq, Eq, Structural)]
pub enum ParseErrorKind {
    /// A state-vector line did not hold exactly two floating-point tokens.
    MalformedAmplitude,
    /// A density-matrix line did not hold a positive even number of
    /// floating-point tokens.
    MalformedRow,
    /// The rows parsed, but the matrix is not square.
    NotSquare,
    /// A statistics line did not hold at least two non-negative integers that
    /// fit the machine word.
    MalformedCounts,
}

/// A malformed output artifact, with the first offending line (counted from
/// one).
#[derive(Clone, Copy, Debug, PartialEq, Eq, Structural)]
pub struct ParseError {
    pub line: usize,
    pub kind: ParseErrorKind,
}

/// What a parse error says of its offending line.
pub open spec fn kind_phrase(kind: ParseErrorKind) -> Seq<char> {
    match kind {
        ParseErrorKind::MalformedAmplitude => "expected two numbers"@,
        ParseErrorKind::MalformedRow => "expected a positive even number of numbers"@,
        ParseErrorKind::NotSquare => "row width differs from the row count"@,
        ParseErrorKind::MalformedCounts => "expected at least two non-negative integers"@,
    }
}

/// How a parse error reads: the offending line and what was expected there.
pub open spec fn describe_text(e: ParseError) -> Seq<char> {
    "output line "@ + dec_of(e.line as nat) + ": "@ + kind_phrase(e.kind)
}

impl ParseError {
    /// Renders the error for a human: the offending line and what was
    /// expected there.
    pub fn describe(&self) -> (r: String)
        ensures
            r@ == describe_text(*self),
    {
        let mut r = String::from_str("output line ");
        push_dec_usize(&mut r, self.line);
        r.append(": ");
        let phrase: &str = match self.kind {
            ParseErrorKind::MalformedAmplitude => "expected two numbers",
            ParseErrorKind::MalformedRow => "expected a positive even number of numbers",
            ParseErrorKind::NotSquare => "row width differs from the row count",
            ParseErrorKind::MalformedCounts => "expected at least two non-negative integers",
        };
        r.append(phrase);
        proof {
            assert(r@ =~= "output line "@ + dec_of(self.line as nat) + ": "@ + kind_phrase(
                self.kind,
            ));
        }
        r
    }
}

/// A well-formed state-vector line: exactly two floating-point tokens.
pub open spec fn state_line_ok(line: Seq<char>) -> bool {
    let ts = tokens_of(line);
    ts.len() == 2 && is_float_token(ts[0]) && is_float_token(ts[1])
}

/// A well-formed density-matrix line: a positive even number of
/// floating-point tokens, each consecutive pair one complex entry.
pub open spec fn density_line_ok(line: Seq<char>) -> bool {
    let ts = tokens_of(line);
    ts.len() > 0 && ts.len() % 2 == 0 && forall|i: int|
        0 <= i < ts.len() ==> is_float_token(#[trigger] ts[i])
}

/// A well-formed statistics line: at least two non-negative integer tokens,
/// each of a value that fits the machine word.
pub open spec fn stats_line_ok(line: Seq<char>) -> bool {
    let ts = tokens_of(line);
    ts.len() >= 2 && forall|i: int|
        0 <= i < ts.len() ==> is_dec_token(#[trigger] ts[i]) && dec_val(ts[i]) <= usize::MAX
}

/// Every line of a state-vector artifact is well formed.
pub open spec fn state_text_ok(text: Seq<char>) -> bool {
    forall|i: int| 0 <= i < lines_of(text).len() ==> state_line_ok(#[trigger] lines_of(text)[i])
}

/// `sv` is what parsing the state-vector artifact `text` yields: one
/// amplitude per line, in line order, holding the line's two tokens.
pub open spec fn is_state_parse(text: Seq<char>, sv: StateVector) -> bool {
    let ls = lines_of(text);
    &&& state_text_ok(text)
    &&& sv.wf()
    &&& sv.bases@.len() == ls.len()
    &&& forall|i: int|
        0 <= i < ls.len() ==> (#[trigger] sv.bases@[i]).re@ == tokens_of(ls[i])[0]
            && sv.bases@[i].im@ == tokens_of(ls[i])[1]
}

/// `e` is the error that parsing the state-vector artifact `text` yields:
/// the first malformed line, counted from one.
pub open spec fn is_state_parse_error(text: Seq<char>, e: ParseError) -> bool {
    let ls = lines_of(text);
    &&& e.kind == ParseErrorKind::MalformedAmplitude
    &&& 1 <= e.line <= ls.len()
    &&& !state_line_ok(ls[e.line - 1])
    &&& forall|j: int| 0 <= j < e.line - 1 ==> state_line_ok(#[trigger] ls[j])
}

/// Reads a state-vector artifact: one line per basis index, in order, each
/// line two floating-point tokens (real then imaginary).  The first malformed
/// line is reported instead, counted from one.
#[verifier::loop_isolation(false)]
pub fn parse_state(text: &str) -> (r: Result<StateVector, ParseError>)
    ensures
        match r {
            Ok(sv) => is_state_parse(text@, sv),
            Err(e) => is_state_parse_error(text@, e),
        },
{
    let cs = chars_of(text);
    let lines = lines_vec(&cs);
    let ghost ls = lines_of(text@);
    let mut bases: Vec<Amplitude> = Vec::new();
    let mut i: usize = 0;
    while i < lines.len()
        invariant
            views_of(lines@) == ls,
            i <= lines@.len(),
            forall|j: int| 0 <= j < i ==> state_line_ok(#[trigger] ls[j]),
            bases@.len() == i,
            forall|j: int|
                0 <= j < i ==> (#[trigger] bases@[j]).re@ == tokens_of(ls[j])[0]
                    && bases@[j].im@ == tokens_of(ls[j])[1] && bases@[j].wf(),
        decreases lines@.len() - i,
    {
        proof {
            assert(lines@[i as int]@ == ls[i as int]);
        }
        let ts = tokens_vec(&lines[i]);
        if ts.len() != 2 {
            return Err(ParseError { line: i + 1, kind: ParseErrorKind::MalformedAmplitude });
        }
        if !float_token_ok(&ts[0]) || !float_token_ok(&ts[1]) {
            return Err(ParseError { line: i + 1, kind: ParseErrorKind::MalformedAmplitude });
        }
        let re = string_of(&ts[0]);
        let im = string_of(&ts[1]);
        bases.push(Amplitude { re, im });
        i = i + 1;
    }
    Ok(StateVector { bases })
}

/// Reads a density-matrix artifact: one line per row, in order, each line's
/// tokens grouped into consecutive (real, imaginary) pairs; the matrix must
/// come out square.  The first malformed line — or, once all lines parse, the
/// first row whose width differs from the row count — is reported instead,
/// Every line of a density-matrix artifact is well formed and the matrix
/// comes out square.
pub open spec fn density_text_ok(text: Seq<char>) -> bool {
    let ls = lines_of(text);
    &&& forall|i: int| 0 <= i < ls.len() ==> density_line_ok(#[trigger] ls[i])
    &&& forall|i: int| 0 <= i < ls.len() ==> tokens_of(#[trigger] ls[i]).len() / 2 == ls.len()
}

/// `dm` is what parsing the density-matrix artifact `text` yields: one row
/// per line, in line order, each pair of tokens one complex entry.
pub open spec fn is_density_parse(text: Seq<char>, dm: DensityMatrix) -> bool {
    let ls = lines_of(text);
    &&& density_text_ok(text)
    &&& dm.wf()
    &&& dm.bases@.len() == ls.len()
    &&& forall|i: int|
        0 <= i < ls.len() ==> (#[trigger] dm.bases@[i])@.len() == tokens_of(ls[i]).len() / 2
    &&& forall|i: int, j: int|
        0 <= i < ls.len() && 0 <= j < dm.bases@[i]@.len() ==> (#[trigger] dm.bases@[i]@[j]).re@
            == tokens_of(ls[i])[2 * j] && dm.bases@[i]@[j].im@ == tokens_of(ls[i])[2 * j + 1]
}

/// `e` is the error that parsing the density-matrix artifact `text` yields:
/// the first malformed line or, once every line parses, the first row of the
/// wrong width, counted from one.
pub open spec fn is_density_parse_error(text: Seq<char>, e: ParseError) -> bool {
    let ls = lines_of(text);
    &&& 1 <= e.line <= ls.len()
    &&& (e.kind == ParseErrorKind::MalformedRow || e.kind == ParseErrorKind::NotSquare)
    &&& e.kind == ParseErrorKind::MalformedRow ==> !density_line_ok(ls[e.line - 1]) && forall|
        j: int,
    | 0 <= j < e.line - 1 ==> density_line_ok(#[trigger] ls[j])
    &&& e.kind == ParseErrorKind::NotSquare ==> (forall|j: int|
        0 <= j < ls.len() ==> density_line_ok(#[trigger] ls[j])) && tokens_of(
        ls[e.line - 1],
    ).len() / 2 != ls.len() && forall|j: int|
        0 <= j < e.line - 1 ==> tokens_of(#[trigger] ls[j]).len() / 2 == ls.len()
}

/// counted from one.
#[verifier::loop_isolation(false)]
pub fn parse_density(text: &str) -> (r: Result<DensityMatrix, ParseError>)
    ensures
        match r {
            Ok(dm) => is_density_parse(text@, dm),
            Err(e) => is_density_parse_error(text@, e),
        },
{
    let cs = chars_of(text);
    let lines = lines_vec(&cs);
    let ghost ls = lines_of(text@);
    let mut bases: Vec<Vec<Amplitude>> = Vec::new();
    let mut i: usize = 0;
    while i < lines.len()
        invariant
            views_of(lines@) == ls,
            i <= lines@.len(),
            forall|j: int| 0 <= j < i ==> density_line_ok(#[trigger] ls[j]),
            bases@.len() == i,
            forall|j: int|
                0 <= j < i ==> (#[trigger] bases@[j])@.len() == tokens_of(ls[j]).len() / 2,
            forall|j: int, k: int|
                0 <= j < i && 0 <= k < bases@[j]@.len() ==> (#[trigger] bases@[j]@[k]).re@
                    == tokens_of(ls[j])[2 * k] && bases@[j]@[k].im@ == tokens_of(ls[j])[2 * k + 1]
                    && bases@[j]@[k].wf(),
        decreases lines@.len() - i,
    {
        proof {
            assert(lines@[i as int]@ == ls[i as int]);
        }
        let ts = tokens_vec(&lines[i]);
        if ts.len() == 0 || ts.len() % 2 != 0 {
            return Err(ParseError { line: i + 1, kind: ParseErrorKind::MalformedRow });
        }
        let mut row: Vec<Amplitude> = Vec::new();
        let mut k: usize = 0;
        let ghost tsv = tokens_of(ls[i as int]);
        while k < ts.len() / 2
            invariant
                views_of(ts@) == tsv,
                tsv.len() % 2 == 0,
                k <= tsv.len() / 2,
                ts@.len() == tsv.len(),
                row@.len() == k,
                forall|j: int| 0 <= j < 2 * k ==> is_float_token(#[trigger] tsv[j]),
                forall|j: int|
                    0 <= j < k ==> (#[trigger] row@[j]).re@ == tsv[2 * j] && row@[j].im@ == tsv[2
                        * j + 1] && row@[j].wf(),
            decreases tsv.len() / 2 - k,
        {
            if !float_token_ok(&ts[2 * k]) || !float_token_ok(&ts[2 * k + 1]) {
                proof {
                    assert(!is_float_token(tsv[2 * k as int]) || !is_float_token(
                        tsv[2 * k + 1],
                    ));
                    assert(!density_line_ok(ls[i as int]));
                }
                return Err(ParseError { line: i + 1, kind: ParseErrorKind::MalformedRow });
            }
            let re = string_of(&ts[2 * k]);
            let im = string_of(&ts[2 * k + 1]);
            row.push(Amplitude { re, im });
            k = k + 1;
        }
        bases.push(row);
        i = i + 1;
    }
    // Every line parsed; the matrix must be square.
    let n = bases.len();
    let mut i: usize = 0;
    while i < n
        invariant
            n == bases@.len(),
            n == ls.len(),
            i <= n,
            forall|j: int| 0 <= j < i ==> (#[trigger] bases@[j])@.len() == n,
            forall|j: int| 0 <= j < n ==> (#[trigger] bases@[j])@.len() == tokens_of(ls[j]).len()
                / 2,
            forall|j: int| 0 <= j < n ==> density_line_ok(#[trigger] ls[j]),
            forall|j: int, k: int|
                0 <= j < n && 0 <= k < bases@[j]@.len() ==> (#[trigger] bases@[j]@[k]).re@
                    == tokens_of(ls[j])[2 * k] && bases@[j]@[k].im@ == tokens_of(ls[j])[2 * k + 1]
                    && bases@[j]@[k].wf(),
        decreases n - i,
    {
        if bases[i].len() != n {
            proof {
                assert(bases@[i as int]@.len() == tokens_of(ls[i as int]).len() / 2);
                assert(tokens_of(ls[i as int]).len() / 2 != ls.len());
                assert forall|j: int| 0 <= j < i implies tokens_of(#[trigger] ls[j]).len() / 2
                    == ls.len() by {
                    assert(bases@[j]@.len() == n);
                }
            }
            return Err(ParseError { line: i + 1, kind: ParseErrorKind::NotSquare });
        }
        i = i + 1;
    }
    proof {
        assert forall|j: int| 0 <= j < ls.len() implies tokens_of(#[trigger] ls[j]).len() / 2
            == ls.len() by {
            assert(bases@[j]@.len() == n);
        }
    }
    Ok(DensityMatrix { bases })
}

/// The outcome key of a statistics line: the values of all the tokens,
/// rendered in decimal one after the other.
pub open spec fn concat_keys(ts: Seq<Seq<char>>) -> Seq<char>
    decreases ts.len(),
{
    if ts.len() == 0 {
        Seq::<char>::empty()
    } else {
        concat_keys(ts.drop_last()) + dec_of(dec_val(ts.last()))
    }
}

/// The key of a statistics line: every token but the last, rendered in
/// decimal and written one after the other.
pub open spec fn key_of(line: Seq<char>) -> Seq<char> {
    let ts = tokens_of(line);
    concat_keys(ts.take(ts.len() - 1))
}

/// The count of a statistics line: the value of its last token.
pub open spec fn count_of(line: Seq<char>) -> nat {
    dec_val(tokens_of(line).last())
}

/// The mapping a statistics artifact stands for: one entry per outcome key,
/// a later line with the same key overwriting an earlier one.
pub open spec fn stats_map(ls: Seq<Seq<char>>) -> Map<Seq<char>, nat>
    decreases ls.len(),
{
    if ls.len() == 0 {
        Map::<Seq<char>, nat>::empty()
    } else {
        stats_map(ls.drop_last()).insert(key_of(ls.last()), count_of(ls.last()))
    }
}

/// Reads a statistics artifact: each line at least two non-negative integers,
/// Every line of a statistics artifact is well formed.
pub open spec fn stats_text_ok(text: Seq<char>) -> bool {
    forall|i: int| 0 <= i < lines_of(text).len() ==> stats_line_ok(#[trigger] lines_of(text)[i])
}

/// `st` is what parsing the statistics artifact `text` yields: a table with
/// unique keys standing for the artifact's key-to-count mapping.
pub open spec fn is_stats_parse(text: Seq<char>, st: Statistics) -> bool {
    &&& stats_text_ok(text)
    &&& st.wf()
    &&& st.map_view() == stats_map(lines_of(text))
}

/// `e` is the error that parsing the statistics artifact `text` yields: the
/// first malformed line, counted from one.
pub open spec fn is_stats_parse_error(text: Seq<char>, e: ParseError) -> bool {
    let ls = lines_of(text);
    &&& e.kind == ParseErrorKind::MalformedCounts
    &&& 1 <= e.line <= ls.len()
    &&& !stats_line_ok(ls[e.line - 1])
    &&& forall|j: int| 0 <= j < e.line - 1 ==> stats_line_ok(#[trigger] ls[j])
}

/// all but the last forming the outcome key and the last the occurrence
/// count.  The first malformed line is reported instead, counted from one.
#[verifier::loop_isolation(false)]
pub fn parse_stats(text: &str) -> (r: Result<Statistics, ParseError>)
    ensures
        match r {
            Ok(st) => is_stats_parse(text@, st),
            Err(e) => is_stats_parse_error(text@, e),
        },
{
    let cs = chars_of(text);
    let lines = lines_vec(&cs);
    let ghost ls = lines_of(text@);
    let mut memory: Vec<(String, usize)> = Vec::new();
    let mut i: usize = 0;
    while i < lines.len()
        invariant
            views_of(lines@) == ls,
            i <= lines@.len(),
            forall|j: int| 0 <= j < i ==> stats_line_ok(#[trigger] ls[j]),
            entries_map(memory@) == stats_map(ls.take(i as int)),
            forall|p: int, q: int|
                0 <= p < q < memory@.len() ==> (#[trigger] memory@[p]).0@ != (
                #[trigger] memory@[q]).0@,
        decreases lines@.len() - i,
    {
        proof {
            assert(lines@[i as int]@ == ls[i as int]);
            assert(ls.take(i + 1).drop_last() =~= ls.take(i as int));
        }
        let ts = tokens_vec(&lines[i]);
        let ghost tsv = tokens_of(ls[i as int]);
        if ts.len() < 2 {
            return Err(ParseError { line: i + 1, kind: ParseErrorKind::MalformedCounts });
        }
        // Render the key and read every value, refusing any bad token.
        let mut key = String::new();
        let mut k: usize = 0;
        while k < ts.len() - 1
            invariant
                views_of(ts@) == tsv,
                ts@.len() == tsv.len(),
                tsv.len() >= 2,
                k <= tsv.len() - 1,
                forall|j: int|
                    0 <= j < k ==> is_dec_token(#[trigger] tsv[j]) && dec_val(tsv[j])
                        <= usize::MAX,
                key@ == concat_keys(tsv.take(k as int)),
            decreases tsv.len() - 1 - k,
        {
            let v = match parse_usize_token(&ts[k]) {
                Some(v) => v,
                None => {
                    proof {
                        assert(!(is_dec_token(tsv[k as int]) && dec_val(tsv[k as int])
                            <= usize::MAX));
                        assert(!stats_line_ok(ls[i as int]));
                    }
                    return Err(
                        ParseError { line: i + 1, kind: ParseErrorKind::MalformedCounts },
                    );
                },
            };
            push_dec_usize(&mut key, v);
            k = k + 1;
            proof {
                assert(tsv.take(k as int).drop_last() =~= tsv.take(k - 1));
            }
        }
        let count = match parse_usize_token(&ts[ts.len() - 1]) {
            Some(v) => v,
            None => {
                proof {
                    assert(!(is_dec_token(tsv[tsv.len() - 1]) && dec_val(tsv[tsv.len() - 1])
                        <= usize::MAX));
                    assert(!stats_line_ok(ls[i as int]));
                }
                return Err(ParseError { line: i + 1, kind: ParseErrorKind::MalformedCounts });
            },
        };
        proof {
            assert(key@ == key_of(ls[i as int]));
            assert(count as nat == count_of(ls[i as int]));
        }
        // Replace the entry that already carries this key, or add a new one.
        let ghost pre = memory@;
        match find_key(&memory, &key) {
            Some(p) => {
                let ghost e = (key, count);
                memory.remove(p);
                memory.push((key, count));
                proof {
                    lemma_entries_map_replace(pre, p as int, e);
                    assert(memory@ =~= pre.remove(p as int).push(e));
                    assert(entries_map(memory@) =~= stats_map(ls.take(i + 1)));
                }
            },
            None => {
                proof {
                    lemma_entries_map_absent(pre, key@);
                }
                memory.push((key, count));
                proof {
                    assert(memory@.drop_last() =~= pre);
                    assert(entries_map(memory@) =~= stats_map(ls.take(i + 1)));
                }
            },
        }
        i = i + 1;
    }
    proof {
        assert(ls.take(ls.len() as int) =~= ls);
    }
    Ok(Statistics { memory })
}

fn find_key(memory: &Vec<(String, usize)>, key: &String) -> (r: Option<usize>)
    ensures
        match r {
            Some(p) => p < memory@.len() && memory@[p as int].0@ == key@,
            None => forall|j: int| 0 <= j < memory@.len() ==> (#[trigger] memory@[j]).0@ != key@,
        },
{
    let mut w: usize = 0;
    while w < memory.len()
        invariant
            w <= memory@.len(),
            forall|j: int| 0 <= j < w ==> (#[trigger] memory@[j]).0@ != key@,
        decreases memory@.len() - w,
    {
        let entry = &memory[w];
        if entry.0 == *key {
            return Some(w);
        }
        w = w + 1;
    }
    None
}

} // verus!
