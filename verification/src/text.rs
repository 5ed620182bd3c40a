use vstd::prelude::*;

verus! {

/// Appending a single character is the primitive from which every string this
/// library produces is built.
///
/// Relies on std's `String::push`: appends the given `char` to the end of the
/// `String`.
pub assume_specification[ String::push ](s: &mut String, c: char)
    ensures
        final(s)@ == old(s)@.push(c),
;

/// The characters of a string, as an indexable vector.
pub fn chars_of(s: &str) -> (r: Vec<char>)
    ensures
        r@ == s@,
{
    let n: usize = s.unicode_len();
    let mut r: Vec<char> = Vec::new();
    let mut i: usize = 0;
    while i < n
        invariant
            n == s@.len(),
            i <= n,
            r@ == s@.take(i as int),
        decreases n - i,
    {
        r.push(s.get_char(i));
        i = i + 1;
        proof {
            assert(r@ =~= s@.take(i as int));
        }
    }
    proof {
        assert(r@ =~= s@);
    }
    r
}

/// Appends every character of `cs` to `out`.
pub fn push_chars(out: &mut String, cs: &Vec<char>)
    ensures
        final(out)@ == old(out)@ + cs@,
{
    let mut i: usize = 0;
    while i < cs.len()
        invariant
            i <= cs@.len(),
            out@ == old(out)@ + cs@.take(i as int),
        decreases cs@.len() - i,
    {
        out.push(cs[i]);
        i = i + 1;
        proof {
            assert(old(out)@ + cs@.take(i as int) =~= (old(out)@ + cs@.take(i - 1)).push(
                cs@[i - 1],
            ));
        }
    }
    proof {
        assert(cs@.take(cs@.len() as int) =~= cs@);
    }
}

/// The characters of `cs`, as a string.
pub fn string_of(cs: &Vec<char>) -> (r: String)
    ensures
        r@ == cs@,
{
    let mut r = String::new();
    push_chars(&mut r, cs);
    proof {
        assert(Seq::<char>::empty() + cs@ =~= cs@);
    }
    r
}

/// The views of a sequence of character vectors.
pub open spec fn views_of(parts: Seq<Vec<char>>) -> Seq<Seq<char>> {
    parts.map_values(|p: Vec<char>| p@)
}

/// Splitting a text on a delimiter: one part per maximal delimiter-free run,
/// with empty parts kept (splitting the empty text gives one empty part).
pub open spec fn split_on(s: Seq<char>, d: char) -> Seq<Seq<char>>
    decreases s.len(),
{
    if s.len() == 0 {
        seq![Seq::<char>::empty()]
    } else if s.last() == d {
        split_on(s.drop_last(), d).push(Seq::<char>::empty())
    } else {
        let parts = split_on(s.drop_last(), d);
        parts.update(parts.len() - 1, parts.last().push(s.last()))
    }
}

proof fn lemma_split_on_nonempty(s: Seq<char>, d: char)
    ensures
        split_on(s, d).len() >= 1,
    decreases s.len(),
{
    if s.len() > 0 {
        lemma_split_on_nonempty(s.drop_last(), d);
    }
}

/// Splits `s` on the delimiter `d`, keeping empty parts.
pub fn split_on_vec(s: &Vec<char>, d: char) -> (parts: Vec<Vec<char>>)
    ensures
        views_of(parts@) == split_on(s@, d),
{
    let mut parts: Vec<Vec<char>> = Vec::new();
    let mut cur: Vec<char> = Vec::new();
    let mut i: usize = 0;
    while i < s.len()
        invariant
            i <= s@.len(),
            split_on(s@.take(i as int), d) == views_of(parts@).push(cur@),
        decreases s@.len() - i,
    {
        let ghost prev = s@.take(i as int);
        let c = s[i];
        i = i + 1;
        proof {
            assert(s@.take(i as int).drop_last() =~= prev);
            assert(s@.take(i as int).last() == c);
        }
        if c == d {
            parts.push(cur);
            cur = Vec::new();
            proof {
                assert(views_of(parts@).push(cur@) =~~= split_on(prev, d).push(
                    Seq::<char>::empty(),
                ));
            }
        } else {
            cur.push(c);
            proof {
                let old_parts = split_on(prev, d);
                lemma_split_on_nonempty(prev, d);
                assert(views_of(parts@).push(cur@) =~~= old_parts.update(
                    old_parts.len() - 1,
                    old_parts.last().push(c),
                ));
            }
        }
    }
    proof {
        assert(s@.take(s@.len() as int) =~= s@);
    }
    parts.push(cur);
    proof {
        assert(views_of(parts@) =~~= views_of(parts@.drop_last()).push(cur@));
    }
    parts
}

/// Drops the empty parts of a split, keeping the order of the rest.
pub open spec fn drop_empty(ts: Seq<Seq<char>>) -> Seq<Seq<char>>
    decreases ts.len(),
{
    if ts.len() == 0 {
        Seq::<Seq<char>>::empty()
    } else if ts.last().len() == 0 {
        drop_empty(ts.drop_last())
    } else {
        drop_empty(ts.drop_last()).push(ts.last())
    }
}

/// A line with a trailing carriage return loses it.
pub open spec fn strip_cr(line: Seq<char>) -> Seq<char> {
    if line.len() > 0 && line.last() == '\r' {
        line.drop_last()
    } else {
        line
    }
}

/// The lines of a text: split on newlines, one trailing newline producing no
/// final empty line, and each line stripped of one trailing carriage return.
pub open spec fn lines_of(s: Seq<char>) -> Seq<Seq<char>> {
    if s.len() == 0 {
        Seq::<Seq<char>>::empty()
    } else {
        let body = if s.last() == '\n' {
            s.drop_last()
        } else {
            s
        };
        split_on(body, '\n').map_values(|line: Seq<char>| strip_cr(line))
    }
}

/// The lines of a text, as vectors of characters.
pub fn lines_vec(s: &Vec<char>) -> (lines: Vec<Vec<char>>)
    ensures
        views_of(lines@) == lines_of(s@),
{
    if s.len() == 0 {
        let lines: Vec<Vec<char>> = Vec::new();
        proof {
            assert(views_of(lines@) =~~= lines_of(s@));
        }
        return lines;
    }
    let mut body: Vec<char> = s.clone();
    if body[body.len() - 1] == '\n' {
        body.pop();
        proof {
            assert(body@ =~= s@.drop_last());
        }
    }
    let raw = split_on_vec(&body, '\n');
    let mut lines: Vec<Vec<char>> = Vec::new();
    let mut i: usize = 0;
    while i < raw.len()
        invariant
            i <= raw@.len(),
            views_of(lines@) == views_of(raw@).take(i as int).map_values(
                |line: Seq<char>| strip_cr(line),
            ),
        decreases raw@.len() - i,
    {
        let mut line = raw[i].clone();
        proof {
            assert(line@ == views_of(raw@)[i as int]);
        }
        if line.len() > 0 && line[line.len() - 1] == '\r' {
            line.pop();
            proof {
                assert(line@ =~= strip_cr(views_of(raw@)[i as int]));
            }
        } else {
            proof {
                assert(line@ == strip_cr(views_of(raw@)[i as int]));
            }
        }
        let ghost pre_views = views_of(lines@);
        lines.push(line);
        i = i + 1;
        proof {
            let f = |line: Seq<char>| strip_cr(line);
            assert(views_of(lines@) =~~= pre_views.push(line@));
            assert(views_of(raw@).take(i as int).map_values(f) =~~= views_of(raw@).take(
                i - 1,
            ).map_values(f).push(f(views_of(raw@)[i - 1])));
        }
    }
    proof {
        assert(views_of(raw@).take(raw@.len() as int) =~= views_of(raw@));
        assert(views_of(lines@) =~~= lines_of(s@));
    }
    lines
}

/// Whether two strings hold the same characters.
pub fn str_eq(a: &str, b: &str) -> (r: bool)
    ensures
        r == (a@ == b@),
{
    let x = String::from_str(a);
    let y = String::from_str(b);
    x == y
}

/// Whether `needle` occurs as a contiguous run inside `hay`.
pub open spec fn contains_seq(hay: Seq<char>, needle: Seq<char>) -> bool {
    exists|i: int|
        0 <= i && i + needle.len() <= hay.len() && #[trigger] hay.subrange(i, i + needle.len() as int)
            == needle
}

/// A text contains everything it was built around.
pub proof fn lemma_concat_contains(a: Seq<char>, b: Seq<char>, c: Seq<char>)
    ensures
        contains_seq(a + b + c, b),
{
    let hay = a + b + c;
    assert(hay.subrange(a.len() as int, a.len() + b.len() as int) =~= b);
}

} // verus!
