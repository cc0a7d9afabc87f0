//! The comparator: matches the samples of a baseline and a candidate store
//! by normalized benchmark name, computes speedups, annotates each row, and
//! summarises the rows that could be compared.
//!
//! Values are elapsed times in nanoseconds; a speedup is the exact ratio
//! candidate / baseline, so a speedup above one means a slower candidate.
use crate::store::{ResultStore, TimingSample};
use crate::text::{
    lemma_lex_irreflexive,
    lemma_lex_total,
    lemma_lex_transitive,
    lex_less,
    lex_lt,
    normalize,
    normalize_name,
};
use vstd::prelude::*;

verus! {

/// The non-negative rational `num / den`.
#[derive(Debug, Clone, Copy, PartialEq, Eq, Structural)]
pub struct Ratio {
    pub num: u64,
    pub den: u64,
}

/// `a < b` as rationals (both with a positive denominator).
pub open spec fn ratio_lt(a: Ratio, b: Ratio) -> bool {
    (a.num as int) * (b.den as int) < (b.num as int) * (a.den as int)
}

/// `a >= t` as rationals.
pub open spec fn ratio_at_least(a: Ratio, t: Ratio) -> bool {
    (a.num as int) * (t.den as int) >= (t.num as int) * (a.den as int)
}

fn ratio_less(a: Ratio, b: Ratio) -> (r: bool)
    ensures
        r == ratio_lt(a, b),
{
    proof {
        lemma_product_fits(a.num, b.den);
        lemma_product_fits(b.num, a.den);
    }
    (a.num as u128) * (b.den as u128) < (b.num as u128) * (a.den as u128)
}

fn ratio_not_below(a: Ratio, t: Ratio) -> (r: bool)
    ensures
        r == ratio_at_least(a, t),
{
    proof {
        lemma_product_fits(a.num, t.den);
        lemma_product_fits(t.num, a.den);
    }
    (a.num as u128) * (t.den as u128) >= (t.num as u128) * (a.den as u128)
}

proof fn lemma_product_fits(x: u64, y: u64)
    ensures
        (x as int) * (y as int) <= u128::MAX,
{
    assert((x as int) * (y as int) <= u128::MAX) by (nonlinear_arith)
        requires
            x <= u64::MAX,
            y <= u64::MAX,
    ;
}

/// `z < y <= x` gives `z < x`.
proof fn lemma_ratio_below_le(x: Ratio, y: Ratio, z: Ratio)
    requires
        x.den > 0,
        y.den > 0,
        z.den > 0,
        !ratio_lt(x, y),
        ratio_lt(z, y),
    ensures
        ratio_lt(z, x),
{
    let (xn, xd, yn, yd, zn, zd) = (
        x.num as int,
        x.den as int,
        y.num as int,
        y.den as int,
        z.num as int,
        z.den as int,
    );
    assert(zn * xd < xn * zd) by (nonlinear_arith)
        requires
            xn * yd >= yn * xd,
            zn * yd < yn * zd,
            xd > 0,
            yd > 0,
            zd > 0,
            xn >= 0,
            yn >= 0,
            zn >= 0,
    ;
}

/// `x <= y < z` gives `x < z`.
proof fn lemma_ratio_le_below(x: Ratio, y: Ratio, z: Ratio)
    requires
        x.den > 0,
        y.den > 0,
        z.den > 0,
        !ratio_lt(y, x),
        ratio_lt(y, z),
    ensures
        ratio_lt(x, z),
{
    let (xn, xd, yn, yd, zn, zd) = (
        x.num as int,
        x.den as int,
        y.num as int,
        y.den as int,
        z.num as int,
        z.den as int,
    );
    assert(xn * zd < zn * xd) by (nonlinear_arith)
        requires
            yn * xd >= xn * yd,
            yn * zd < zn * yd,
            xd > 0,
            yd > 0,
            zd > 0,
            xn >= 0,
            yn >= 0,
            zn >= 0,
    ;
}

/// The bands outside which a speedup is annotated.
#[derive(Debug, Clone, Copy, PartialEq, Eq, Structural)]
pub struct CompareConfig {
    /// A speedup at or above this marks the candidate significantly slower.
    pub slower_at: Ratio,
    /// A speedup strictly below this marks the candidate significantly faster.
    pub faster_at: Ratio,
}

impl CompareConfig {
    /// Both bounds have a positive denominator.
    pub open spec fn wf(&self) -> bool {
        self.slower_at.den > 0 && self.faster_at.den > 0
    }

    /// The bands of a regression threshold `num / den`: slower at or above
    /// `num / den`, faster strictly below its inverse `den / num`.
    pub fn with_threshold(num: u64, den: u64) -> (r: CompareConfig)
        requires
            num > 0,
            den > 0,
        ensures
            r.wf(),
            r == (CompareConfig {
                slower_at: Ratio { num, den },
                faster_at: Ratio { num: den, den: num },
            }),
    {
        CompareConfig { slower_at: Ratio { num, den }, faster_at: Ratio { num: den, den: num } }
    }
}

impl Default for CompareConfig {
    /// Slower at 1.2 or more, faster below 0.8.
    fn default() -> (r: CompareConfig)
        ensures
            r.wf(),
            r == (CompareConfig {
                slower_at: Ratio { num: 6, den: 5 },
                faster_at: Ratio { num: 4, den: 5 },
            }),
    {
        CompareConfig { slower_at: Ratio { num: 6, den: 5 }, faster_at: Ratio { num: 4, den: 5 } }
    }
}

/// An annotation of a comparison row.
#[derive(Debug, Clone, Copy, PartialEq, Eq, Structural)]
pub enum Note {
    /// No successful baseline sample has this name.
    MissingBaseline,
    /// No successful candidate sample has this name.
    MissingCandidate,
    /// The baseline took no time, so no speedup is defined.
    ZeroBaseline,
    /// The speedup is at or above the slower band.
    CandidateSlower,
    /// The speedup is below the faster band.
    CandidateFaster,
}

/// The words that a report prints for a note.
pub open spec fn note_text(n: Note) -> Seq<char> {
    match n {
        Note::MissingBaseline => "missing baseline result"@,
        Note::MissingCandidate => "missing candidate result"@,
        Note::ZeroBaseline => "baseline value is zero"@,
        Note::CandidateSlower => "candidate significantly slower"@,
        Note::CandidateFaster => "candidate significantly faster"@,
    }
}

impl Note {
    /// The words that a report prints for the note.
    pub fn text(&self) -> (r: String)
        ensures
            r@ == note_text(*self),
    {
        match self {
            Note::MissingBaseline => String::from_str("missing baseline result"),
            Note::MissingCandidate => String::from_str("missing candidate result"),
            Note::ZeroBaseline => String::from_str("baseline value is zero"),
            Note::CandidateSlower => String::from_str("candidate significantly slower"),
            Note::CandidateFaster => String::from_str("candidate significantly faster"),
        }
    }
}

/// One benchmark of the union of both stores.
pub struct ComparisonRow {
    /// The normalized benchmark name.
    pub benchmark: String,
    /// The baseline's elapsed nanoseconds, if it has a successful sample.
    pub baseline_value: Option<u64>,
    /// The candidate's elapsed nanoseconds, if it has a successful sample.
    pub candidate_value: Option<u64>,
    /// candidate / baseline, where both are present and the baseline is nonzero.
    pub speedup: Option<Ratio>,
    /// The annotations; none means the row is within the bands.
    pub notes: Vec<Note>,
}

/// The rows that could be compared, and the extremes among them.
pub struct Summary {
    /// The indices of the rows with a speedup, in increasing order.
    pub compared: Vec<usize>,
    /// The first row with the smallest speedup.
    pub fastest: usize,
    /// The first row with the largest speedup.
    pub slowest: usize,
}

/// The outcome of a comparison.
pub struct Report {
    /// One row per normalized name, sorted by name.
    pub rows: Vec<ComparisonRow>,
    /// Absent where no row has a speedup.
    pub summary: Option<Summary>,
}

/// Some sample of `samples` has the normalized name `n`.
pub open spec fn name_in(samples: Seq<TimingSample>, n: Seq<char>) -> bool {
    exists|i: int| 0 <= i < samples.len() && normalize(#[trigger] samples[i].name@) == n
}

/// The elapsed time of the first successful sample at or after `i` whose
/// normalized name is `key`.
pub open spec fn lookup_from(samples: Seq<TimingSample>, key: Seq<char>, i: int) -> Option<u64>
    decreases samples.len() - i,
{
    if i < 0 || i >= samples.len() {
        None
    } else if samples[i].failure is None && normalize(samples[i].name@) == key {
        Some(samples[i].elapsed_nanos)
    } else {
        lookup_from(samples, key, i + 1)
    }
}

/// The elapsed time of the first successful sample named `key`.
pub open spec fn lookup(samples: Seq<TimingSample>, key: Seq<char>) -> Option<u64> {
    lookup_from(samples, key, 0)
}

/// candidate / baseline, where both are present and the baseline is nonzero.
pub open spec fn speedup_of(baseline: Option<u64>, candidate: Option<u64>) -> Option<Ratio> {
    match (baseline, candidate) {
        (Some(b), Some(c)) => if b > 0 {
            Some(Ratio { num: c, den: b })
        } else {
            None
        },
        _ => None,
    }
}

/// The annotations of a row: each missing side, then a zero baseline or the
/// band that the speedup falls in (the slower band first).
pub open spec fn notes_for(baseline: Option<u64>, candidate: Option<u64>, cfg: CompareConfig) -> Seq<
    Note,
> {
    (if baseline is None {
        seq![Note::MissingBaseline]
    } else {
        Seq::empty()
    }) + (if candidate is None {
        seq![Note::MissingCandidate]
    } else {
        Seq::empty()
    }) + match (baseline, candidate) {
        (Some(b), Some(c)) => if b == 0 {
            seq![Note::ZeroBaseline]
        } else if ratio_at_least(Ratio { num: c, den: b }, cfg.slower_at) {
            seq![Note::CandidateSlower]
        } else if ratio_lt(Ratio { num: c, den: b }, cfg.faster_at) {
            seq![Note::CandidateFaster]
        } else {
            Seq::empty()
        },
        _ => Seq::empty(),
    }
}

/// A row holds what both stores say of its name.
pub open spec fn row_matches(
    row: ComparisonRow,
    baseline: Seq<TimingSample>,
    candidate: Seq<TimingSample>,
    cfg: CompareConfig,
) -> bool {
    &&& row.baseline_value == lookup(baseline, row.benchmark@)
    &&& row.candidate_value == lookup(candidate, row.benchmark@)
    &&& row.speedup == speedup_of(row.baseline_value, row.candidate_value)
    &&& row.notes@ == notes_for(row.baseline_value, row.candidate_value, cfg)
}

/// The names of the rows.
pub open spec fn row_names(rows: Seq<ComparisonRow>) -> Seq<Seq<char>> {
    Seq::new(rows.len(), |k: int| rows[k].benchmark@)
}

/// Each name comes strictly before the next.
pub open spec fn strictly_sorted(names: Seq<Seq<char>>) -> bool {
    forall|i: int, j: int| 0 <= i < j < names.len() ==> lex_lt(#[trigger] names[i], #[trigger] names[j])
}

/// Among the first `k` rows, row `f` has the smallest speedup, and no
/// earlier row has the same.
pub open spec fn fastest_among(rows: Seq<ComparisonRow>, f: int, k: int) -> bool {
    &&& 0 <= f < k <= rows.len()
    &&& rows[f].speedup is Some
    &&& forall|j: int|
        0 <= j < k && (#[trigger] rows[j].speedup) is Some ==> !ratio_lt(
            rows[j].speedup.unwrap(),
            rows[f].speedup.unwrap(),
        )
    &&& forall|j: int|
        0 <= j < f && (#[trigger] rows[j].speedup) is Some ==> ratio_lt(
            rows[f].speedup.unwrap(),
            rows[j].speedup.unwrap(),
        )
}

/// Among the first `k` rows, row `s` has the largest speedup, and no
/// earlier row has the same.
pub open spec fn slowest_among(rows: Seq<ComparisonRow>, s: int, k: int) -> bool {
    &&& 0 <= s < k <= rows.len()
    &&& rows[s].speedup is Some
    &&& forall|j: int|
        0 <= j < k && (#[trigger] rows[j].speedup) is Some ==> !ratio_lt(
            rows[s].speedup.unwrap(),
            rows[j].speedup.unwrap(),
        )
    &&& forall|j: int|
        0 <= j < s && (#[trigger] rows[j].speedup) is Some ==> ratio_lt(
            rows[j].speedup.unwrap(),
            rows[s].speedup.unwrap(),
        )
}

/// The summary lists exactly the rows with a speedup, in order, and names
/// the extremes among them; there is none where no row has a speedup.
pub open spec fn summary_matches(rows: Seq<ComparisonRow>, summary: Option<Summary>) -> bool {
    match summary {
        None => forall|k: int| 0 <= k < rows.len() ==> (#[trigger] rows[k].speedup) is None,
        Some(s) => {
            &&& forall|i: int| 0 <= i < s.compared@.len() ==> #[trigger] s.compared@[i] < rows.len()
            &&& forall|i: int, j: int|
                0 <= i < j < s.compared@.len() ==> #[trigger] s.compared@[i]
                    < #[trigger] s.compared@[j]
            &&& forall|k: int|
                0 <= k < rows.len() ==> ((#[trigger] rows[k].speedup) is Some <==> s.compared@.contains(
                    k as usize,
                ))
            &&& fastest_among(rows, s.fastest as int, rows.len() as int)
            &&& slowest_among(rows, s.slowest as int, rows.len() as int)
        },
    }
}

/// The strings of `v`, as names.
pub open spec fn views(v: Seq<String>) -> Seq<Seq<char>> {
    Seq::new(v.len(), |i: int| v[i]@)
}

/// Some string of `v` is `n`.
pub open spec fn lists(v: Seq<String>, n: Seq<char>) -> bool {
    exists|i: int| 0 <= i < v.len() && (#[trigger] v[i])@ == n
}

fn normalized_keys(samples: &Vec<TimingSample>) -> (r: Vec<String>)
    ensures
        r@.len() == samples@.len(),
        forall|i: int| 0 <= i < r@.len() ==> (#[trigger] r@[i])@ == normalize(samples@[i].name@),
{
    let mut keys: Vec<String> = Vec::new();
    let mut i: usize = 0;
    while i < samples.len()
        invariant
            i <= samples@.len(),
            keys@.len() == i,
            forall|j: int| 0 <= j < i ==> (#[trigger] keys@[j])@ == normalize(samples@[j].name@),
        decreases samples@.len() - i,
    {
        keys.push(normalize_name(samples[i].name.as_str()));
        i = i + 1;
    }
    keys
}

fn lookup_value(samples: &Vec<TimingSample>, keys: &Vec<String>, name: &String) -> (r: Option<u64>)
    requires
        keys@.len() == samples@.len(),
        forall|i: int| 0 <= i < keys@.len() ==> (#[trigger] keys@[i])@ == normalize(samples@[i].name@),
    ensures
        r == lookup(samples@, name@),
{
    let mut i: usize = 0;
    while i < samples.len()
        invariant
            i <= samples@.len(),
            keys@.len() == samples@.len(),
            forall|j: int| 0 <= j < keys@.len() ==> (#[trigger] keys@[j])@ == normalize(samples@[j].name@),
            lookup(samples@, name@) == lookup_from(samples@, name@, i as int),
        decreases samples@.len() - i,
    {
        if samples[i].failure.is_none() && keys[i] == *name {
            return Some(samples[i].elapsed_nanos);
        }
        i = i + 1;
    }
    None
}

/// Inserts `name` into a strictly sorted list of names, unless it is there.
fn insert_name(names: &mut Vec<String>, name: &String)
    requires
        strictly_sorted(views(old(names)@)),
    ensures
        strictly_sorted(views(final(names)@)),
        forall|n: Seq<char>| lists(final(names)@, n) <==> (lists(old(names)@, n) || n == name@),
{
    let ghost v = names@;
    let mut p: usize = 0;
    loop
        invariant
            names@ == v,
            p <= v.len(),
            forall|j: int| 0 <= j < p ==> lex_lt((#[trigger] v[j])@, name@),
        ensures
            names@ == v,
            p <= v.len(),
            forall|j: int| 0 <= j < p ==> lex_lt((#[trigger] v[j])@, name@),
            p < v.len() ==> !lex_lt(v[p as int]@, name@),
        decreases v.len() - p,
    {
        if p == names.len() {
            break;
        }
        if !lex_less(names[p].as_str(), name.as_str()) {
            break;
        }
        p = p + 1;
    }
    if p < names.len() && names[p] == *name {
        assert(v[p as int]@ == name@);
        return;
    }
    names.insert(p, name.clone());
    proof {
        let w = names@;
        let x = name@;
        assert(w[p as int] == *name);
        if p < v.len() {
            assert(!lex_lt(v[p as int]@, x));
            lemma_lex_total(v[p as int]@, x);
        }
        assert forall|i: int, j: int| 0 <= i < j < w.len() implies lex_lt(
            #[trigger] views(w)[i],
            #[trigger] views(w)[j],
        ) by {
            assert(views(w)[i] == w[i]@);
            assert(views(w)[j] == w[j]@);
            if j < p {
                assert(views(v)[i] == v[i]@ && views(v)[j] == v[j]@);
            } else if j == p {
                assert(w[i] == v[i]);
            } else if i < p {
                assert(w[i] == v[i] && w[j] == v[j - 1]);
                assert(lex_lt(v[i]@, x));
                if j - 1 == p {
                    assert(lex_lt(x, v[p as int]@));
                } else {
                    assert(views(v)[p as int] == v[p as int]@ && views(v)[j - 1] == v[j - 1]@);
                    assert(lex_lt(v[p as int]@, v[j - 1]@));
                    lemma_lex_transitive(x, v[p as int]@, v[j - 1]@);
                }
                lemma_lex_transitive(v[i]@, x, v[j - 1]@);
            } else if i == p {
                assert(w[j] == v[j - 1]);
                if j - 1 > p {
                    assert(views(v)[p as int] == v[p as int]@ && views(v)[j - 1] == v[j - 1]@);
                    lemma_lex_transitive(x, v[p as int]@, v[j - 1]@);
                }
            } else {
                assert(w[i] == v[i - 1] && w[j] == v[j - 1]);
                assert(views(v)[i - 1] == v[i - 1]@ && views(v)[j - 1] == v[j - 1]@);
            }
        }
        assert forall|n: Seq<char>| lists(w, n) <==> (lists(v, n) || n == x) by {
            if lists(w, n) {
                let i = choose|i: int| 0 <= i < w.len() && (#[trigger] w[i])@ == n;
                if i < p {
                    assert(w[i] == v[i]);
                } else if i > p {
                    assert(w[i] == v[i - 1]);
                }
            }
            if lists(v, n) {
                let i = choose|i: int| 0 <= i < v.len() && (#[trigger] v[i])@ == n;
                if i < p {
                    assert(w[i] == v[i]);
                } else {
                    assert(w[i + 1] == v[i]);
                }
            }
            if n == x {
                assert(w[p as int]@ == n);
            }
        }
    }
}

/// Some row is named `n`.
pub open spec fn has_row(rows: Seq<ComparisonRow>, n: Seq<char>) -> bool {
    exists|k: int| 0 <= k < rows.len() && (#[trigger] rows[k]).benchmark@ == n
}

proof fn lemma_keys_name_in(samples: Seq<TimingSample>, keys: Seq<String>)
    requires
        keys.len() == samples.len(),
        forall|i: int| 0 <= i < keys.len() ==> (#[trigger] keys[i])@ == normalize(samples[i].name@),
    ensures
        forall|n: Seq<char>| lists(keys, n) <==> name_in(samples, n),
{
    assert forall|n: Seq<char>| lists(keys, n) <==> name_in(samples, n) by {
        if lists(keys, n) {
            let i = choose|i: int| 0 <= i < keys.len() && (#[trigger] keys[i])@ == n;
            assert(normalize(samples[i].name@) == n);
        }
        if name_in(samples, n) {
            let i = choose|i: int| 0 <= i < samples.len() && normalize(#[trigger] samples[i].name@) == n;
            assert(keys[i]@ == n);
        }
    }
}

fn collect_names(names: &mut Vec<String>, keys: &Vec<String>)
    requires
        strictly_sorted(views(old(names)@)),
    ensures
        strictly_sorted(views(final(names)@)),
        forall|n: Seq<char>|
            #![trigger lists(final(names)@, n)]
            lists(final(names)@, n) <==> (lists(old(names)@, n) || lists(keys@, n)),
{
    let ghost v0 = names@;
    let mut i: usize = 0;
    while i < keys.len()
        invariant
            i <= keys@.len(),
            strictly_sorted(views(names@)),
            forall|n: Seq<char>|
                lists(names@, n) <==> (lists(v0, n) || lists(keys@.subrange(0, i as int), n)),
        decreases keys@.len() - i,
    {
        let ghost before = names@;
        assert(forall|n: Seq<char>|
            #![trigger lists(before, n)]
            lists(before, n) <==> (lists(v0, n) || lists(keys@.subrange(0, i as int), n)));
        insert_name(names, &keys[i]);
        proof {
            let pre = keys@.subrange(0, i as int);
            let post = keys@.subrange(0, i + 1);
            assert forall|n: Seq<char>| lists(post, n) <==> (lists(pre, n) || n == keys@[i as int]@) by {
                if lists(post, n) {
                    let j = choose|j: int| 0 <= j < post.len() && (#[trigger] post[j])@ == n;
                    if j < i {
                        assert(pre[j] == post[j]);
                    }
                }
                if lists(pre, n) {
                    let j = choose|j: int| 0 <= j < pre.len() && (#[trigger] pre[j])@ == n;
                    assert(post[j] == pre[j]);
                }
                if n == keys@[i as int]@ {
                    assert(post[i as int] == keys@[i as int]);
                }
            }
            assert forall|n: Seq<char>| lists(names@, n) <==> (lists(v0, n) || lists(post, n)) by {
                assert(lists(names@, n) <==> (lists(before, n) || n == keys@[i as int]@));
                assert(lists(before, n) <==> (lists(v0, n) || lists(pre, n)));
                assert(lists(post, n) <==> (lists(pre, n) || n == keys@[i as int]@));
            }
        }
        i = i + 1;
    }
    assert(keys@.subrange(0, keys@.len() as int) == keys@);
}

/// A strictly sorted list of names holds each name once: the rows of a
/// report are one per normalized benchmark name.
pub proof fn sorted_names_are_distinct(names: Seq<Seq<char>>)
    requires
        strictly_sorted(names),
    ensures
        forall|i: int, j: int|
            0 <= i < names.len() && 0 <= j < names.len() && i != j ==> #[trigger] names[i]
                != #[trigger] names[j],
{
    assert forall|i: int, j: int|
        0 <= i < names.len() && 0 <= j < names.len() && i != j implies #[trigger] names[i]
            != #[trigger] names[j] by {
        lemma_lex_irreflexive(names[i]);
        if i < j {
            assert(lex_lt(names[i], names[j]));
        } else {
            assert(lex_lt(names[j], names[i]));
        }
    }
}

/// Where each store holds one successful sample and both carry the same
/// normalized name, the comparison has exactly one row, for that name; its
/// speedup is the candidate's time over the baseline's, and it is the one
/// compared row, fastest and slowest at once.
pub proof fn one_shared_benchmark_gives_one_row(
    baseline: Seq<TimingSample>,
    candidate: Seq<TimingSample>,
    config: CompareConfig,
    rows: Seq<ComparisonRow>,
    summary: Option<Summary>,
)
    requires
        baseline.len() == 1,
        candidate.len() == 1,
        baseline[0].failure is None,
        candidate[0].failure is None,
        normalize(baseline[0].name@) == normalize(candidate[0].name@),
        baseline[0].elapsed_nanos > 0,
        strictly_sorted(row_names(rows)),
        forall|n: Seq<char>| has_row(rows, n) <==> (name_in(baseline, n) || name_in(candidate, n)),
        forall|k: int| 0 <= k < rows.len() ==> row_matches(#[trigger] rows[k], baseline, candidate, config),
        summary_matches(rows, summary),
    ensures
        rows.len() == 1,
        rows[0].benchmark@ == normalize(baseline[0].name@),
        rows[0].speedup == Some(
            Ratio { num: candidate[0].elapsed_nanos, den: baseline[0].elapsed_nanos },
        ),
        summary matches Some(s) && s.compared@ == seq![0usize] && s.fastest == 0 && s.slowest
            == 0,
{
    let n = normalize(baseline[0].name@);
    assert(name_in(baseline, n)) by {
        assert(normalize(baseline[0].name@) == n);
    }
    assert(has_row(rows, n));
    assert forall|k: int| 0 <= k < rows.len() implies (#[trigger] rows[k]).benchmark@ == n by {
        let m = rows[k].benchmark@;
        assert(has_row(rows, m));
        if name_in(baseline, m) {
            let i = choose|i: int| 0 <= i < baseline.len() && normalize(#[trigger] baseline[i].name@) == m;
            assert(i == 0);
        } else {
            let i = choose|i: int| 0 <= i < candidate.len() && normalize(#[trigger] candidate[i].name@) == m;
            assert(i == 0);
        }
    }
    if rows.len() > 1 {
        assert(row_names(rows)[0] == rows[0].benchmark@);
        assert(row_names(rows)[1] == rows[1].benchmark@);
        assert(lex_lt(row_names(rows)[0], row_names(rows)[1]));
        lemma_lex_irreflexive(n);
    }
    assert(rows.len() == 1);
    assert(row_matches(rows[0], baseline, candidate, config));
    assert(lookup(baseline, n) == Some(baseline[0].elapsed_nanos));
    assert(lookup(candidate, n) == Some(candidate[0].elapsed_nanos));
    let s = summary.unwrap();
    assert(s.compared@.contains(0usize));
    if s.compared@.len() > 1 {
        assert(s.compared@[0] < s.compared@[1]);
        assert(s.compared@[1] < 1);
    }
    assert(s.compared@[0] < 1);
    assert(s.compared@ =~= seq![0usize]);
}

proof fn lemma_lookup_from(samples: Seq<TimingSample>, key: Seq<char>, i: int)
    requires
        0 <= i <= samples.len(),
    ensures
        lookup_from(samples, key, i) is Some <==> exists|j: int|
            i <= j < samples.len() && (#[trigger] samples[j]).failure is None && normalize(
                samples[j].name@,
            ) == key,
    decreases samples.len() - i,
{
    if i < samples.len() {
        lemma_lookup_from(samples, key, i + 1);
        if samples[i].failure is None && normalize(samples[i].name@) == key {
        } else {
            assert forall|j: int|
                i <= j < samples.len() && (#[trigger] samples[j]).failure is None && normalize(
                    samples[j].name@,
                ) == key implies i + 1 <= j by {}
        }
    }
}

/// Where no normalized name occurs in both stores and every sample
/// succeeded, every row of the comparison has exactly one of its two values,
/// a note that names the missing side, and no speedup; so no row is
/// compared and the report has no summary.
pub proof fn disjoint_stores_compare_nothing(
    baseline: Seq<TimingSample>,
    candidate: Seq<TimingSample>,
    config: CompareConfig,
    rows: Seq<ComparisonRow>,
    summary: Option<Summary>,
)
    requires
        forall|n: Seq<char>| !(name_in(baseline, n) && name_in(candidate, n)),
        forall|i: int| 0 <= i < baseline.len() ==> (#[trigger] baseline[i]).failure is None,
        forall|i: int| 0 <= i < candidate.len() ==> (#[trigger] candidate[i]).failure is None,
        forall|n: Seq<char>| has_row(rows, n) <==> (name_in(baseline, n) || name_in(candidate, n)),
        forall|k: int| 0 <= k < rows.len() ==> row_matches(#[trigger] rows[k], baseline, candidate, config),
        summary_matches(rows, summary),
    ensures
        forall|k: int|
            0 <= k < rows.len() ==> ((#[trigger] rows[k]).baseline_value is Some) != (
            rows[k].candidate_value is Some),
        forall|k: int|
            0 <= k < rows.len() ==> ((#[trigger] rows[k]).baseline_value is None ==> rows[k].notes@
                == seq![Note::MissingBaseline]),
        forall|k: int|
            0 <= k < rows.len() ==> ((#[trigger] rows[k]).candidate_value is None ==> rows[k].notes@
                == seq![Note::MissingCandidate]),
        forall|k: int| 0 <= k < rows.len() ==> (#[trigger] rows[k]).speedup is None,
        summary is None,
{
    assert forall|k: int| 0 <= k < rows.len() implies ((#[trigger] rows[k]).baseline_value is Some) != (
    rows[k].candidate_value is Some) && rows[k].speedup is None && (rows[k].baseline_value is None
        ==> rows[k].notes@ == seq![Note::MissingBaseline]) && (rows[k].candidate_value is None
        ==> rows[k].notes@ == seq![Note::MissingCandidate]) by {
        let n = rows[k].benchmark@;
        assert(has_row(rows, n));
        lemma_lookup_from(baseline, n, 0);
        lemma_lookup_from(candidate, n, 0);
        if name_in(baseline, n) {
            let i = choose|i: int| 0 <= i < baseline.len() && normalize(#[trigger] baseline[i].name@) == n;
            assert(baseline[i].failure is None);
        }
        if name_in(candidate, n) {
            let i = choose|i: int| 0 <= i < candidate.len() && normalize(#[trigger] candidate[i].name@) == n;
            assert(candidate[i].failure is None);
        }
        if lookup(baseline, n) is Some {
            let j = choose|j: int|
                0 <= j < baseline.len() && (#[trigger] baseline[j]).failure is None && normalize(
                    baseline[j].name@,
                ) == n;
            assert(name_in(baseline, n));
        }
        if lookup(candidate, n) is Some {
            let j = choose|j: int|
                0 <= j < candidate.len() && (#[trigger] candidate[j]).failure is None && normalize(
                    candidate[j].name@,
                ) == n;
            assert(name_in(candidate, n));
        }
        assert(row_matches(rows[k], baseline, candidate, config));
        assert(notes_for(None, rows[k].candidate_value, config) =~= seq![Note::MissingBaseline]
            || rows[k].candidate_value is None);
        assert(notes_for(rows[k].baseline_value, None, config) =~= seq![Note::MissingCandidate]
            || rows[k].baseline_value is None);
    }
    if summary is Some {
        let s = summary.unwrap();
        assert(rows[s.fastest as int].speedup is Some);
    }
}

fn build_row(
    baseline: &Vec<TimingSample>,
    baseline_keys: &Vec<String>,
    candidate: &Vec<TimingSample>,
    candidate_keys: &Vec<String>,
    name: &String,
    config: &CompareConfig,
) -> (r: ComparisonRow)
    requires
        baseline_keys@.len() == baseline@.len(),
        forall|i: int|
            0 <= i < baseline_keys@.len() ==> (#[trigger] baseline_keys@[i])@ == normalize(
                baseline@[i].name@,
            ),
        candidate_keys@.len() == candidate@.len(),
        forall|i: int|
            0 <= i < candidate_keys@.len() ==> (#[trigger] candidate_keys@[i])@ == normalize(
                candidate@[i].name@,
            ),
    ensures
        r.benchmark@ == name@,
        row_matches(r, baseline@, candidate@, *config),
{
    let b = lookup_value(baseline, baseline_keys, name);
    let c = lookup_value(candidate, candidate_keys, name);
    let mut notes: Vec<Note> = Vec::new();
    if b.is_none() {
        notes.push(Note::MissingBaseline);
    }
    if c.is_none() {
        notes.push(Note::MissingCandidate);
    }
    let mut speedup: Option<Ratio> = None;
    match (b, c) {
        (Some(x), Some(y)) => {
            if x == 0 {
                notes.push(Note::ZeroBaseline);
            } else {
                let q = Ratio { num: y, den: x };
                speedup = Some(q);
                if ratio_not_below(q, config.slower_at) {
                    notes.push(Note::CandidateSlower);
                } else if ratio_less(q, config.faster_at) {
                    notes.push(Note::CandidateFaster);
                }
            }
        },
        _ => {},
    }
    assert(notes@ =~= notes_for(b, c, *config));
    ComparisonRow {
        benchmark: name.clone(),
        baseline_value: b,
        candidate_value: c,
        speedup,
        notes,
    }
}

/// Compares a candidate store with a baseline store: one row per normalized
/// name found in either store, sorted by name; each row holds the first
/// successful sample of that name on each side, their speedup and its
/// annotations; the summary covers the rows with a speedup.
pub fn compare(baseline: &ResultStore, candidate: &ResultStore, config: &CompareConfig) -> (r:
    Report)
    requires
        config.wf(),
    ensures
        strictly_sorted(row_names(r.rows@)),
        forall|n: Seq<char>|
            has_row(r.rows@, n) <==> (name_in(baseline@, n) || name_in(candidate@, n)),
        forall|k: int|
            0 <= k < r.rows@.len() ==> row_matches(#[trigger] r.rows@[k], baseline@, candidate@, *config),
        summary_matches(r.rows@, r.summary),
{
    let b = baseline.samples();
    let c = candidate.samples();
    let bkeys = normalized_keys(b);
    let ckeys = normalized_keys(c);
    let mut names: Vec<String> = Vec::new();
    let ghost empty = names@;
    collect_names(&mut names, &bkeys);
    let ghost mid = names@;
    collect_names(&mut names, &ckeys);
    proof {
        lemma_keys_name_in(b@, bkeys@);
        lemma_keys_name_in(c@, ckeys@);
        assert forall|n: Seq<char>| lists(names@, n) <==> (name_in(baseline@, n) || name_in(candidate@, n)) by {
            assert(!lists(empty, n));
            assert(lists(mid, n) <==> (lists(empty, n) || lists(bkeys@, n)));
            assert(lists(names@, n) <==> (lists(mid, n) || lists(ckeys@, n)));
        }
    }
    let mut rows: Vec<ComparisonRow> = Vec::new();
    let mut k: usize = 0;
    while k < names.len()
        invariant
            k <= names@.len(),
            rows@.len() == k,
            b@ == baseline@,
            c@ == candidate@,
            bkeys@.len() == b@.len(),
            forall|i: int| 0 <= i < bkeys@.len() ==> (#[trigger] bkeys@[i])@ == normalize(b@[i].name@),
            ckeys@.len() == c@.len(),
            forall|i: int| 0 <= i < ckeys@.len() ==> (#[trigger] ckeys@[i])@ == normalize(c@[i].name@),
            forall|j: int|
                0 <= j < k ==> (#[trigger] rows@[j]).benchmark@ == names@[j]@ && row_matches(
                    rows@[j],
                    baseline@,
                    candidate@,
                    *config,
                ),
        decreases names@.len() - k,
    {
        let row = build_row(b, &bkeys, c, &ckeys, &names[k], config);
        rows.push(row);
        k = k + 1;
    }
    proof {
        assert(row_names(rows@) =~= views(names@));
        assert forall|n: Seq<char>| has_row(rows@, n) <==> lists(names@, n) by {
            if has_row(rows@, n) {
                let j = choose|j: int| 0 <= j < rows@.len() && (#[trigger] rows@[j]).benchmark@ == n;
                assert(names@[j]@ == n);
            }
            if lists(names@, n) {
                let j = choose|j: int| 0 <= j < names@.len() && (#[trigger] names@[j])@ == n;
                assert(rows@[j].benchmark@ == n);
            }
        }
        assert forall|j: int| 0 <= j < rows@.len() implies ((#[trigger] rows@[j].speedup) matches Some(q) ==> q.den > 0) by {
            assert(row_matches(rows@[j], baseline@, candidate@, *config));
        }
    }
    let summary = summarize(&rows);
    Report { rows, summary }
}

fn summarize(rows: &Vec<ComparisonRow>) -> (r: Option<Summary>)
    requires
        forall|k: int|
            0 <= k < rows@.len() ==> ((#[trigger] rows@[k].speedup) matches Some(q) ==> q.den > 0),
    ensures
        summary_matches(rows@, r),
{
    let ghost rs = rows@;
    let mut compared: Vec<usize> = Vec::new();
    let mut fastest: usize = 0;
    let mut slowest: usize = 0;
    let mut k: usize = 0;
    while k < rows.len()
        invariant
            rs == rows@,
            k <= rs.len(),
            forall|j: int| 0 <= j < rs.len() ==> ((#[trigger] rs[j].speedup) matches Some(q) ==> q.den > 0),
            forall|i: int| 0 <= i < compared@.len() ==> #[trigger] compared@[i] < k,
            forall|i: int, j: int|
                0 <= i < j < compared@.len() ==> #[trigger] compared@[i] < #[trigger] compared@[j],
            forall|j: int| 0 <= j < k ==> ((#[trigger] rs[j].speedup) is Some <==> compared@.contains(j as usize)),
            compared@.len() > 0 ==> fastest_among(rs, fastest as int, k as int) && slowest_among(
                rs,
                slowest as int,
                k as int,
            ),
        decreases rs.len() - k,
    {
        let ghost old_compared = compared@;
        match rows[k].speedup {
            Some(q) => {
                if compared.len() == 0 {
                    fastest = k;
                    slowest = k;
                    proof {
                        assert forall|j: int| 0 <= j < k implies (#[trigger] rs[j].speedup) is None by {
                            if rs[j].speedup is Some {
                                assert(old_compared.contains(j as usize));
                            }
                        }
                    }
                } else {
                    let f = rows[fastest].speedup.unwrap();
                    let sl = rows[slowest].speedup.unwrap();
                    if ratio_less(q, f) {
                        proof {
                            assert forall|j: int| 0 <= j < k + 1 && (#[trigger] rs[j].speedup) is Some implies ratio_lt(q, rs[j].speedup.unwrap()) || j == k by {
                                if j < k {
                                    lemma_ratio_below_le(rs[j].speedup.unwrap(), f, q);
                                }
                            }
                        }
                        fastest = k;
                    }
                    if ratio_less(sl, q) {
                        proof {
                            assert forall|j: int| 0 <= j < k + 1 && (#[trigger] rs[j].speedup) is Some implies ratio_lt(rs[j].speedup.unwrap(), q) || j == k by {
                                if j < k {
                                    lemma_ratio_le_below(rs[j].speedup.unwrap(), sl, q);
                                }
                            }
                        }
                        slowest = k;
                    }
                }
                compared.push(k);
                proof {
                    assert forall|j: int| 0 <= j < k + 1 implies ((#[trigger] rs[j].speedup) is Some <==> compared@.contains(j as usize)) by {
                        if j < k {
                            if old_compared.contains(j as usize) {
                                let i = choose|i: int| 0 <= i < old_compared.len() && old_compared[i] == j as usize;
                                assert(compared@[i] == j as usize);
                            }
                            if compared@.contains(j as usize) {
                                let i = choose|i: int| 0 <= i < compared@.len() && compared@[i] == j as usize;
                                assert(i < old_compared.len());
                                assert(old_compared[i] == j as usize);
                            }
                        } else {
                            assert(compared@[old_compared.len() as int] == k);
                        }
                    }
                }
            },
            None => {
                proof {
                    assert forall|j: int| 0 <= j < k + 1 implies ((#[trigger] rs[j].speedup) is Some <==> compared@.contains(j as usize)) by {
                        if j == k && compared@.contains(j as usize) {
                            let i = choose|i: int| 0 <= i < compared@.len() && compared@[i] == j as usize;
                            assert(compared@[i] < k);
                        }
                    }
                }
            },
        }
        k = k + 1;
    }
    if compared.len() == 0 {
        proof {
            assert forall|j: int| 0 <= j < rs.len() implies (#[trigger] rs[j].speedup) is None by {
                if rs[j].speedup is Some {
                    assert(compared@.contains(j as usize));
                }
            }
        }
        None
    } else {
        Some(Summary { compared, fastest, slowest })
    }
}

} // verus!
