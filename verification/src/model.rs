use vstd::prelude::*;

use crate::numbers::is_float_token;

verus! {

/// Which output format the external simulator is asked to produce:
/// a state vector (`sv`) or a density matrix (`dm`).
#[derive(Clone, Copy, Debug, PartialEq, Eq, Structural)]
pub enum Backend {
    SV,
    DM,
}

impl Backend {
    /// The tag that names this backend on the simulator's command line.
    pub fn tag(&self) -> (r: &'static str)
        ensures
            *self == Backend::SV ==> r@ == "sv"@,
            *self == Backend::DM ==> r@ == "dm"@,
    {
        match self {
            Backend::SV => "sv",
            Backend::DM => "dm",
        }
    }
}

/// One submitted job: the circuit program text, how many measurement shots to
/// sample (zero asks for the analytic mode), and which backend to run.
pub struct QppMessage {
    pub qasm: String,
    pub shots: u32,
    pub backend: Backend,
}

/// A complex amplitude as the simulator wrote it: the two numeric tokens,
/// kept as text.  Reading them as machine floating-point values is numeric
/// work left to the caller; the library guarantees that both tokens have the
/// shape of a decimal floating-point number, so that reading cannot fail.
#[derive(Debug)]
pub struct Amplitude {
    pub re: String,
    pub im: String,
}

impl Amplitude {
    /// Both components hold a well-formed floating-point token.
    pub open spec fn wf(&self) -> bool {
        is_float_token(self.re@) && is_float_token(self.im@)
    }
}

/// An ordered sequence of complex amplitudes, one per basis index.
#[derive(Debug)]
pub struct StateVector {
    pub bases: Vec<Amplitude>,
}

impl StateVector {
    pub open spec fn wf(&self) -> bool {
        forall|i: int| 0 <= i < self.bases@.len() ==> (#[trigger] self.bases@[i]).wf()
    }

    /// The amplitudes, in basis-index order.
    pub fn as_complex_bases(&self) -> (r: &Vec<Amplitude>)
        ensures
            r == &self.bases,
    {
        &self.bases
    }
}

/// An ordered sequence of matrix rows, each an ordered sequence of complex
/// amplitudes.  A parsed matrix is square: the row count equals each row's
/// length, so every diagonal entry exists.
#[derive(Debug)]
pub struct DensityMatrix {
    pub bases: Vec<Vec<Amplitude>>,
}

impl DensityMatrix {
    pub open spec fn wf(&self) -> bool {
        &&& forall|i: int, j: int|
            0 <= i < self.bases@.len() && 0 <= j < self.bases@[i]@.len() ==> (
            #[trigger] self.bases@[i]@[j]).wf()
        &&& forall|i: int|
            0 <= i < self.bases@.len() ==> (#[trigger] self.bases@[i])@.len()
                == self.bases@.len()
    }

    /// The rows, in row order.
    pub fn as_complex_bases(&self) -> (r: &Vec<Vec<Amplitude>>)
        ensures
            r == &self.bases,
    {
        &self.bases
    }
}

/// The mapping that a sequence of key/count entries stands for, later entries
/// overwriting earlier ones.
pub open spec fn entries_map(s: Seq<(String, usize)>) -> Map<Seq<char>, nat>
    decreases s.len(),
{
    if s.len() == 0 {
        Map::<Seq<char>, nat>::empty()
    } else {
        entries_map(s.drop_last()).insert(s.last().0@, s.last().1 as nat)
    }
}

/// A key that no entry carries is not in the mapping.
pub proof fn lemma_entries_map_absent(s: Seq<(String, usize)>, k: Seq<char>)
    requires
        forall|j: int| 0 <= j < s.len() ==> (#[trigger] s[j]).0@ != k,
    ensures
        !entries_map(s).contains_key(k),
    decreases s.len(),
{
    if s.len() > 0 {
        lemma_entries_map_absent(s.drop_last(), k);
    }
}

/// Removing the one entry that carries a key takes exactly that key out of
/// the mapping.
pub proof fn lemma_entries_map_remove(s: Seq<(String, usize)>, p: int, k: Seq<char>)
    requires
        0 <= p < s.len(),
        s[p].0@ == k,
        forall|j: int| 0 <= j < s.len() && j != p ==> (#[trigger] s[j]).0@ != k,
    ensures
        forall|key: Seq<char>|
            key != k ==> (entries_map(s.remove(p)).contains_key(key) <==> entries_map(
                s,
            ).contains_key(key)),
        forall|key: Seq<char>|
            key != k && entries_map(s).contains_key(key) ==> entries_map(s.remove(p))[key]
                == entries_map(s)[key],
        !entries_map(s.remove(p)).contains_key(k),
    decreases s.len(),
{
    if p == s.len() - 1 {
        assert(s.remove(p) =~= s.drop_last());
        lemma_entries_map_absent(s.drop_last(), k);
        assert(entries_map(s) == entries_map(s.drop_last()).insert(s.last().0@, s.last().1 as nat));
    } else {
        let t = s.drop_last();
        assert(forall|j: int| 0 <= j < t.len() && j != p ==> (#[trigger] t[j]).0@ != k);
        lemma_entries_map_remove(t, p, k);
        assert(s.remove(p).drop_last() =~= t.remove(p));
        assert(s.remove(p).last() == s.last());
        assert(entries_map(s.remove(p)) == entries_map(t.remove(p)).insert(
            s.last().0@,
            s.last().1 as nat,
        ));
        assert(entries_map(s) == entries_map(t).insert(s.last().0@, s.last().1 as nat));
        assert(s.last().0@ != k);
        assert forall|key: Seq<char>| key != k implies (entries_map(
            s.remove(p),
        ).contains_key(key) <==> entries_map(s).contains_key(key)) by {
            if key != s.last().0@ {
                assert(entries_map(s.remove(p)).contains_key(key) <==> entries_map(
                    t.remove(p),
                ).contains_key(key));
                assert(entries_map(s).contains_key(key) <==> entries_map(t).contains_key(key));
            }
        }
        assert forall|key: Seq<char>|
            key != k && entries_map(s).contains_key(key) implies entries_map(s.remove(p))[key]
            == entries_map(s)[key] by {
            if key != s.last().0@ {
                assert(entries_map(s.remove(p))[key] == entries_map(t.remove(p))[key]);
                assert(entries_map(s)[key] == entries_map(t)[key]);
            }
        }
    }
}

/// A table with unique keys holds exactly one entry per key of its mapping:
/// the mapping's domain is as large as the table.
pub proof fn lemma_entries_map_count(s: Seq<(String, usize)>)
    requires
        forall|i: int, j: int| 0 <= i < j < s.len() ==> (#[trigger] s[i]).0@ != (#[trigger] s[j]).0@,
    ensures
        entries_map(s).dom().finite(),
        entries_map(s).dom().len() == s.len(),
    decreases s.len(),
{
    broadcast use vstd::set::axiom_set_insert_len;

    if s.len() > 0 {
        lemma_entries_map_count(s.drop_last());
        lemma_entries_map_absent(s.drop_last(), s.last().0@);
        assert(entries_map(s).dom() =~= entries_map(s.drop_last()).dom().insert(s.last().0@));
    }
}

/// Replacing the one entry that carries a key acts on the mapping as a plain
/// insertion of the new entry, and keeps the keys unique.
pub proof fn lemma_entries_map_replace(s: Seq<(String, usize)>, p: int, e: (String, usize))
    requires
        0 <= p < s.len(),
        e.0@ == s[p].0@,
        forall|i: int, j: int| 0 <= i < j < s.len() ==> (#[trigger] s[i]).0@ != (#[trigger] s[j]).0@,
    ensures
        entries_map(s.remove(p).push(e)) =~= entries_map(s).insert(e.0@, e.1 as nat),
        forall|i: int, j: int|
            0 <= i < j < s.remove(p).push(e).len() ==> (#[trigger] s.remove(p).push(e)[i]).0@ != (
            #[trigger] s.remove(p).push(e)[j]).0@,
{
    let k = e.0@;
    assert(forall|j: int| 0 <= j < s.len() && j != p ==> (#[trigger] s[j]).0@ != k);
    lemma_entries_map_remove(s, p, k);
    let r = s.remove(p).push(e);
    assert(r.drop_last() =~= s.remove(p));
    assert(r.last() == e);
    assert(entries_map(r) == entries_map(s.remove(p)).insert(k, e.1 as nat));
    assert forall|key: Seq<char>|
        #![auto]
        entries_map(r).contains_key(key) <==> entries_map(s).insert(
            k,
            e.1 as nat,
        ).contains_key(key) by {
        if key != k {
            assert(entries_map(r).contains_key(key) <==> entries_map(s.remove(p)).contains_key(
                key,
            ));
        }
    }
    assert(forall|j: int|
        0 <= j < s.remove(p).len() ==> #[trigger] s.remove(p)[j] == if j < p {
            s[j]
        } else {
            s[j + 1]
        });
    assert(forall|j: int| 0 <= j < s.remove(p).len() ==> (#[trigger] s.remove(p)[j]).0@ != k);
}

/// Aggregate shot statistics: a mapping from an outcome key (the measured
/// integer outcomes written one after the other in decimal) to how often that
/// outcome was observed.
#[derive(Debug)]
pub struct Statistics {
    pub memory: Vec<(String, usize)>,
}

impl Statistics {
    /// Keys are unique; the order of the entries carries no meaning.
    pub open spec fn wf(&self) -> bool {
        forall|i: int, j: int|
            0 <= i < j < self.memory@.len() ==> (#[trigger] self.memory@[i]).0@ != (
            #[trigger] self.memory@[j]).0@
    }

    /// The mapping this table stands for.
    pub open spec fn map_view(&self) -> Map<Seq<char>, nat> {
        entries_map(self.memory@)
    }
}

} // verus!
