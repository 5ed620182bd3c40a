use vstd::prelude::*;

use crate::model::Statistics;
use crate::numbers::{dec_of, push_dec_usize};
use crate::text::chars_of;

verus! {

/// The character for one hexadecimal digit.
pub open spec fn hex_digit(d: nat) -> char {
    if d < 10 {
        crate::numbers::dec_digit(d)
    } else if d == 10 {
        'a'
    } else if d == 11 {
        'b'
    } else if d == 12 {
        'c'
    } else if d == 13 {
        'd'
    } else if d == 14 {
        'e'
    } else {
        'f'
    }
}

/// How one character is written inside a JSON string literal: quotes and
/// backslashes escaped, control characters written out by code, everything
/// else kept as it is.
pub open spec fn escape_char(c: char) -> Seq<char> {
    if c == '"' {
        seq!['\\', '"']
    } else if c == '\\' {
        seq!['\\', '\\']
    } else if c == '\n' {
        seq!['\\', 'n']
    } else if c == '\r' {
        seq!['\\', 'r']
    } else if c == '\t' {
        seq!['\\', 't']
    } else if (c as u32) < 32 {
        seq!['\\', 'u', '0', '0', hex_digit((c as u32 / 16) as nat), hex_digit(
            (c as u32 % 16) as nat,
        )]
    } else {
        seq![c]
    }
}

/// A text as it is written inside a JSON string literal.
pub open spec fn json_escaped(s: Seq<char>) -> Seq<char>
    decreases s.len(),
{
    if s.len() == 0 {
        Seq::<char>::empty()
    } else {
        json_escaped(s.drop_last()) + escape_char(s.last())
    }
}

fn hex_digit_char(d: u32) -> (c: char)
    requires
        d < 16,
    ensures
        c == hex_digit(d as nat),
{
    match d {
        0 => '0',
        1 => '1',
        2 => '2',
        3 => '3',
        4 => '4',
        5 => '5',
        6 => '6',
        7 => '7',
        8 => '8',
        9 => '9',
        10 => 'a',
        11 => 'b',
        12 => 'c',
        13 => 'd',
        14 => 'e',
        _ => 'f',
    }
}

/// Appends `s`, escaped for the inside of a JSON string literal, to `out`.
#[verifier::loop_isolation(false)]
pub fn push_escaped(out: &mut String, s: &str)
    ensures
        final(out)@ == old(out)@ + json_escaped(s@),
{
    let cs = chars_of(s);
    let mut i: usize = 0;
    while i < cs.len()
        invariant
            i <= cs@.len(),
            out@ == old(out)@ + json_escaped(cs@.take(i as int)),
        decreases cs@.len() - i,
    {
        let c = cs[i];
        proof {
            assert(cs@.take(i + 1).drop_last() =~= cs@.take(i as int));
        }
        if c == '"' {
            out.push('\\');
            out.push('"');
        } else if c == '\\' {
            out.push('\\');
            out.push('\\');
        } else if c == '\n' {
            out.push('\\');
            out.push('n');
        } else if c == '\r' {
            out.push('\\');
            out.push('r');
        } else if c == '\t' {
            out.push('\\');
            out.push('t');
        } else if (c as u32) < 32 {
            out.push('\\');
            out.push('u');
            out.push('0');
            out.push('0');
            out.push(hex_digit_char((c as u32) / 16));
            out.push(hex_digit_char((c as u32) % 16));
        } else {
            out.push(c);
        }
        i = i + 1;
        proof {
            assert(out@ =~= old(out)@ + json_escaped(cs@.take(i as int)));
        }
    }
    proof {
        assert(cs@.take(cs@.len() as int) =~= cs@);
    }
}

/// The error response body: an object with the message under `Error`.
pub open spec fn error_body_of(msg: Seq<char>) -> Seq<char> {
    "{\"Error\":\""@ + json_escaped(msg) + "\"}"@
}

/// Renders the error response body for a message.
pub fn error_body(msg: &str) -> (r: String)
    ensures
        r@ == error_body_of(msg@),
{
    let mut r = String::from_str("{\"Error\":\"");
    push_escaped(&mut r, msg);
    r.append("\"}");
    proof {
        assert(r@ =~= error_body_of(msg@));
    }
    r
}

/// One basis index of a state vector, rendered for the wire: the real and
/// imaginary parts and the derived probability, each already written with
/// six-digit decimal precision.
pub struct StateEntry {
    pub real: String,
    pub imaginary: String,
    pub probability: String,
}

/// One row of a density matrix, rendered for the wire: the row's text and
/// the derived probability written with six-digit decimal precision.
pub struct DensityEntry {
    pub row: String,
    pub probability: String,
}

/// One state-vector member of the wire object, keyed by its basis index.
pub open spec fn state_entry_json(idx: nat, e: StateEntry) -> Seq<char> {
    "\""@ + dec_of(idx) + "\":{\"Real\":\""@ + json_escaped(e.real@) + "\",\"Imaginary\":\""@
        + json_escaped(e.imaginary@) + "\",\"Probability\":\""@ + json_escaped(e.probability@)
        + "\"}"@
}

/// The members of the `State` object, in basis-index order, separated by
/// commas.
pub open spec fn state_entries_json(s: Seq<StateEntry>) -> Seq<char>
    decreases s.len(),
{
    if s.len() == 0 {
        Seq::<char>::empty()
    } else if s.len() == 1 {
        state_entry_json(0, s[0])
    } else {
        state_entries_json(s.drop_last()) + ","@ + state_entry_json(
            (s.len() - 1) as nat,
            s.last(),
        )
    }
}

/// The state-vector response body.
pub open spec fn state_body_of(s: Seq<StateEntry>) -> Seq<char> {
    "{\"State\":{"@ + state_entries_json(s) + "}}"@
}

/// Renders the state-vector response body: one member per basis index, in
/// order, keyed `0`, `1`, and so on.
#[verifier::loop_isolation(false)]
#[verifier::rlimit(60)]
pub fn state_json(entries: &Vec<StateEntry>) -> (r: String)
    ensures
        r@ == state_body_of(entries@),
{
    let mut r = String::from_str("{\"State\":{");
    let mut i: usize = 0;
    while i < entries.len()
        invariant
            i <= entries@.len(),
            r@ == "{\"State\":{"@ + state_entries_json(entries@.take(i as int)),
        decreases entries@.len() - i,
    {
        proof {
            assert(entries@.take(i + 1).drop_last() =~= entries@.take(i as int));
            assert(entries@.take(i + 1).last() == entries@[i as int]);
        }
        if i > 0 {
            r.append(",");
        }
        r.append("\"");
        push_dec_usize(&mut r, i);
        r.append("\":{\"Real\":\"");
        push_escaped(&mut r, entries[i].real.as_str());
        r.append("\",\"Imaginary\":\"");
        push_escaped(&mut r, entries[i].imaginary.as_str());
        r.append("\",\"Probability\":\"");
        push_escaped(&mut r, entries[i].probability.as_str());
        r.append("\"}");
        i = i + 1;
        proof {
            assert(r@ =~= "{\"State\":{"@ + state_entries_json(entries@.take(i as int)));
        }
    }
    proof {
        assert(entries@.take(entries@.len() as int) =~= entries@);
    }
    r.append("}}");
    proof {
        assert(r@ =~= state_body_of(entries@));
    }
    r
}

/// One density-matrix member of the wire object, keyed by its row index.
pub open spec fn density_entry_json(idx: nat, e: DensityEntry) -> Seq<char> {
    "\""@ + dec_of(idx) + "\":{\"Row\":\""@ + json_escaped(e.row@) + "\",\"Probability\":\""@
        + json_escaped(e.probability@) + "\"}"@
}

/// The members of the `DensityMatrix` object, in row order, separated by
/// commas.
pub open spec fn density_entries_json(s: Seq<DensityEntry>) -> Seq<char>
    decreases s.len(),
{
    if s.len() == 0 {
        Seq::<char>::empty()
    } else if s.len() == 1 {
        density_entry_json(0, s[0])
    } else {
        density_entries_json(s.drop_last()) + ","@ + density_entry_json(
            (s.len() - 1) as nat,
            s.last(),
        )
    }
}

/// The density-matrix response body.
pub open spec fn density_body_of(s: Seq<DensityEntry>) -> Seq<char> {
    "{\"DensityMatrix\":{"@ + density_entries_json(s) + "}}"@
}

/// Renders the density-matrix response body: one member per row, in order,
/// keyed `0`, `1`, and so on.
#[verifier::loop_isolation(false)]
pub fn density_json(entries: &Vec<DensityEntry>) -> (r: String)
    ensures
        r@ == density_body_of(entries@),
{
    let mut r = String::from_str("{\"DensityMatrix\":{");
    let mut i: usize = 0;
    while i < entries.len()
        invariant
            i <= entries@.len(),
            r@ == "{\"DensityMatrix\":{"@ + density_entries_json(entries@.take(i as int)),
        decreases entries@.len() - i,
    {
        proof {
            assert(entries@.take(i + 1).drop_last() =~= entries@.take(i as int));
            assert(entries@.take(i + 1).last() == entries@[i as int]);
        }
        if i > 0 {
            r.append(",");
        }
        r.append("\"");
        push_dec_usize(&mut r, i);
        r.append("\":{\"Row\":\"");
        push_escaped(&mut r, entries[i].row.as_str());
        r.append("\",\"Probability\":\"");
        push_escaped(&mut r, entries[i].probability.as_str());
        r.append("\"}");
        i = i + 1;
        proof {
            assert(r@ =~= "{\"DensityMatrix\":{"@ + density_entries_json(entries@.take(i as int)));
        }
    }
    proof {
        assert(entries@.take(entries@.len() as int) =~= entries@);
    }
    r.append("}}");
    proof {
        assert(r@ =~= density_body_of(entries@));
    }
    r
}

/// One `Memory` member: the outcome key as a JSON string, the count as a
/// JSON number.
pub open spec fn stats_entry_json(e: (String, usize)) -> Seq<char> {
    "\""@ + json_escaped(e.0@) + "\":"@ + dec_of(e.1 as nat)
}

/// The members of the `Memory` object, in table order, separated by commas.
pub open spec fn stats_entries_json(s: Seq<(String, usize)>) -> Seq<char>
    decreases s.len(),
{
    if s.len() == 0 {
        Seq::<char>::empty()
    } else if s.len() == 1 {
        stats_entry_json(s[0])
    } else {
        stats_entries_json(s.drop_last()) + ","@ + stats_entry_json(s.last())
    }
}

/// The statistics response body.
pub open spec fn stats_body_of(s: Seq<(String, usize)>) -> Seq<char> {
    "{\"Memory\":{"@ + stats_entries_json(s) + "}}"@
}

/// Renders the statistics response body: one member per outcome key, with
/// its occurrence count.
#[verifier::loop_isolation(false)]
pub fn stats_json(stats: &Statistics) -> (r: String)
    ensures
        r@ == stats_body_of(stats.memory@),
{
    let mut r = String::from_str("{\"Memory\":{");
    let mut i: usize = 0;
    while i < stats.memory.len()
        invariant
            i <= stats.memory@.len(),
            r@ == "{\"Memory\":{"@ + stats_entries_json(stats.memory@.take(i as int)),
        decreases stats.memory@.len() - i,
    {
        proof {
            assert(stats.memory@.take(i + 1).drop_last() =~= stats.memory@.take(i as int));
            assert(stats.memory@.take(i + 1).last() == stats.memory@[i as int]);
        }
        if i > 0 {
            r.append(",");
        }
        r.append("\"");
        let entry = &stats.memory[i];
        push_escaped(&mut r, entry.0.as_str());
        r.append("\":");
        push_dec_usize(&mut r, entry.1);
        i = i + 1;
        proof {
            assert(r@ =~= "{\"Memory\":{"@ + stats_entries_json(stats.memory@.take(i as int)));
        }
    }
    proof {
        assert(stats.memory@.take(stats.memory@.len() as int) =~= stats.memory@);
    }
    r.append("}}");
    proof {
        assert(r@ =~= stats_body_of(stats.memory@));
    }
    r
}

} // verus!
