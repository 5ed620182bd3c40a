use vstd::prelude::*;

verus! {

/// The shared directory under which every job's transient files live.
pub open spec fn base_of(id: Seq<char>) -> Seq<char> {
    "/tmp/"@ + id
}

/// The path of the circuit input artifact for a job.
pub open spec fn circuit_path_of(id: Seq<char>) -> Seq<char> {
    base_of(id) + ".qasm"@
}

/// The path of the analytic (state or density) output artifact for a job.
pub open spec fn state_path_of(id: Seq<char>) -> Seq<char> {
    base_of(id) + ".state"@
}

/// The path of the sampled-statistics output artifact for a job.
pub open spec fn stats_path_of(id: Seq<char>) -> Seq<char> {
    base_of(id) + ".stats"@
}

/// The deterministic set of file paths belonging to one job: the circuit
/// input, the two possible output files, and the base path handed to the
/// simulator.
pub struct ArtifactSet {
    pub circuit_path: String,
    pub state_path: String,
    pub stats_path: String,
    pub output_base: String,
}

impl ArtifactSet {
    /// The set belongs to the job with this identifier.
    pub open spec fn is_for(&self, id: Seq<char>) -> bool {
        &&& self.circuit_path@ == circuit_path_of(id)
        &&& self.state_path@ == state_path_of(id)
        &&& self.stats_path@ == stats_path_of(id)
        &&& self.output_base@ == base_of(id)
    }
}

/// Derives the artifact paths of a job from its identifier: a pure function
/// with no failure mode.
pub fn paths_for(id: &str) -> (r: ArtifactSet)
    ensures
        r.is_for(id@),
{
    let mut base = String::from_str("/tmp/");
    base.append(id);
    let mut circuit_path = base.clone();
    circuit_path.append(".qasm");
    let mut state_path = base.clone();
    state_path.append(".state");
    let mut stats_path = base.clone();
    stats_path.append(".stats");
    ArtifactSet { circuit_path, state_path, stats_path, output_base: base }
}

/// A fresh 128-bit random identifier, written in the 36-character hyphenated
/// form.
///
/// Relies on uuid's `Uuid::new_v4` (a version-4 random identifier) and its
/// `Display` rendering, documented as the lower-case hyphenated form of
/// 36 characters.
#[verifier::external_body]
fn fresh_uuid() -> (r: String)
    ensures
        r@.len() == 36,
{
    uuid::Uuid::new_v4().to_string()
}

/// Generates the identifier for a new job.  The identifier is drawn at
/// random from 2^122 possibilities, which is what keeps concurrent jobs on
/// distinct artifact paths.
pub fn new_job_id() -> (r: String)
    ensures
        r@.len() == 36,
{
    fresh_uuid()
}

/// Concatenation with a fixed prefix and suffix is injective.
proof fn lemma_affix_injective(p: Seq<char>, s: Seq<char>, a: Seq<char>, b: Seq<char>)
    requires
        p + a + s == p + b + s,
    ensures
        a == b,
{
    let x = p + a + s;
    let y = p + b + s;
    assert(x.len() == y.len());
    assert(x.len() == (p + a).len() + s.len());
    assert(y.len() == (p + b).len() + s.len());
    assert(a.len() == b.len());
    assert forall|i: int| 0 <= i < a.len() implies a[i] == b[i] by {
        assert(x[p.len() + i] == a[i]);
        assert(y[p.len() + i] == b[i]);
    }
    assert(a =~= b);
}

/// The last character of a path names its artifact kind.
proof fn lemma_last_char(p: Seq<char>, s: Seq<char>)
    requires
        s.len() > 0,
    ensures
        (p + s).last() == s.last(),
        (p + s).len() == p.len() + s.len(),
{
}

/// Distinct job identifiers give disjoint artifact sets, and within one job
/// the three files are distinct: no two jobs, and no two artifact kinds,
/// ever share a path.
pub proof fn lemma_artifact_paths_disjoint(a: Seq<char>, b: Seq<char>)
    requires
        a != b,
    ensures
        circuit_path_of(a) != circuit_path_of(b),
        state_path_of(a) != state_path_of(b),
        stats_path_of(a) != stats_path_of(b),
        circuit_path_of(a) != state_path_of(b),
        circuit_path_of(a) != stats_path_of(b),
        state_path_of(a) != stats_path_of(b),
        state_path_of(a) != circuit_path_of(b),
        stats_path_of(a) != circuit_path_of(b),
        stats_path_of(a) != state_path_of(b),
{
    lemma_artifact_kinds_distinct(a, b);
    if circuit_path_of(a) == circuit_path_of(b) {
        assert("/tmp/"@ + a + ".qasm"@ =~= circuit_path_of(a));
        assert("/tmp/"@ + b + ".qasm"@ =~= circuit_path_of(b));
        lemma_affix_injective("/tmp/"@, ".qasm"@, a, b);
    }
    if state_path_of(a) == state_path_of(b) {
        assert("/tmp/"@ + a + ".state"@ =~= state_path_of(a));
        assert("/tmp/"@ + b + ".state"@ =~= state_path_of(b));
        lemma_affix_injective("/tmp/"@, ".state"@, a, b);
    }
    if stats_path_of(a) == stats_path_of(b) {
        assert("/tmp/"@ + a + ".stats"@ =~= stats_path_of(a));
        assert("/tmp/"@ + b + ".stats"@ =~= stats_path_of(b));
        lemma_affix_injective("/tmp/"@, ".stats"@, a, b);
    }
}

/// The three artifact kinds never share a path, whatever the identifiers:
/// each suffix ends in its own character.
pub proof fn lemma_artifact_kinds_distinct(a: Seq<char>, b: Seq<char>)
    ensures
        circuit_path_of(a) != state_path_of(b),
        circuit_path_of(a) != stats_path_of(b),
        state_path_of(a) != stats_path_of(b),
        state_path_of(a) != circuit_path_of(b),
        stats_path_of(a) != circuit_path_of(b),
        stats_path_of(a) != state_path_of(b),
{
    reveal_strlit(".qasm");
    reveal_strlit(".state");
    reveal_strlit(".stats");
    lemma_last_char(base_of(a), ".qasm"@);
    lemma_last_char(base_of(a), ".state"@);
    lemma_last_char(base_of(a), ".stats"@);
    lemma_last_char(base_of(b), ".qasm"@);
    lemma_last_char(base_of(b), ".state"@);
    lemma_last_char(base_of(b), ".stats"@);
    assert(circuit_path_of(a).last() == 'm');
    assert(state_path_of(a).last() == 'e');
    assert(stats_path_of(a).last() == 's');
    assert(circuit_path_of(b).last() == 'm');
    assert(state_path_of(b).last() == 'e');
    assert(stats_path_of(b).last() == 's');
}

} // verus!
