use vstd::arithmetic::div_mod::{lemma_div_is_strictly_smaller, lemma_div_nonincreasing};
use vstd::prelude::*;

verus! {

/// The record kept for one admitted candidate: its address, its measured
/// rate in hundredths of a megabyte per second, and its location code where
/// enrichment resolved one. Never changed once created.
pub struct Outcome {
    pub addr: Vec<u8>,
    pub speed_centi: u64,
    pub location: Option<Vec<u8>>,
}

/// The mathematical shape of an [`Outcome`].
pub struct OutcomeModel {
    pub addr: Seq<u8>,
    pub speed_centi: u64,
    pub location: Option<Seq<u8>>,
}

impl DeepView for Outcome {
    type V = OutcomeModel;

    open spec fn deep_view(&self) -> OutcomeModel {
        OutcomeModel {
            addr: self.addr.deep_view(),
            speed_centi: self.speed_centi,
            location: self.location.deep_view(),
        }
    }
}

/// The shared accumulation of outcomes over one run. The coordinator keeps
/// it under mutual exclusion while the fan-out is live; after fan-in it is
/// handed to the ranking pass and never written again.
pub struct ResultSet {
    pub items: Vec<Outcome>,
}

impl ResultSet {
    pub fn new() -> (r: ResultSet)
        ensures
            r.items@ == Seq::<Outcome>::empty(),
    {
        ResultSet { items: Vec::new() }
    }

    /// Appends the outcome of one admitted candidate. Every record already
    /// accumulated stays where it is, so each candidate's outcome enters at
    /// most once however completions interleave.
    pub fn record(&mut self, o: Outcome)
        ensures
            final(self).items@ == old(self).items@.push(o),
    {
        self.items.push(o);
    }

    pub fn count(&self) -> (n: usize)
        ensures
            n == self.items@.len(),
    {
        self.items.len()
    }
}

/// Ranked output order: measured rates never increase along the sequence.
pub open spec fn sorted_desc(s: Seq<Outcome>) -> bool {
    forall|i: int, j: int| 0 <= i < j < s.len() ==> s[i].speed_centi >= s[j].speed_centi
}

/// Sorts outcomes by measured rate, highest first, by repeatedly moving the
/// earliest fastest record over: exactly the accumulated outcomes remain,
/// and records of equal rate keep their accumulation order.
pub fn rank_descending(v: Vec<Outcome>) -> (r: Vec<Outcome>)
    ensures
        r@.to_multiset() == v@.to_multiset(),
        r@.len() == v@.len(),
        sorted_desc(r@),
{
    broadcast use vstd::seq_lib::group_to_multiset_ensures;

    let mut rest = v;
    let mut out: Vec<Outcome> = Vec::new();
    proof {
        assert(out@.to_multiset().add(rest@.to_multiset()) =~= v@.to_multiset());
    }
    while rest.len() > 0
        invariant
            out@.to_multiset().add(rest@.to_multiset()) == v@.to_multiset(),
            out@.len() + rest@.len() == v@.len(),
            sorted_desc(out@),
            forall|a: int, b: int|
                0 <= a < out@.len() && 0 <= b < rest@.len() ==> out@[a].speed_centi
                    >= rest@[b].speed_centi,
        decreases rest.len(),
    {
        let mut mi: usize = 0;
        let mut k: usize = 1;
        while k < rest.len()
            invariant
                mi < k <= rest@.len(),
                forall|t: int| 0 <= t < k ==> rest@[mi as int].speed_centi >= rest@[t].speed_centi,
            decreases rest@.len() - k,
        {
            if rest[k].speed_centi > rest[mi].speed_centi {
                mi = k;
            }
            k = k + 1;
        }
        let ghost rest0 = rest@;
        let ghost out0 = out@;
        let x = rest.remove(mi);
        out.push(x);
        proof {
            broadcast use vstd::seq_lib::group_to_multiset_ensures;

            assert(rest0.contains(x));
            assert(rest@.to_multiset() == rest0.to_multiset().remove(x));
            assert(out@.to_multiset() == out0.to_multiset().insert(x));
            assert(out@.to_multiset().add(rest@.to_multiset()) =~= out0.to_multiset().add(
                rest0.to_multiset(),
            ));
            assert(forall|a: int|
                0 <= a < out0.len() ==> out0[a].speed_centi >= x.speed_centi) by {
                assert(rest0[mi as int] == x);
            }
            assert(forall|b: int|
                0 <= b < rest@.len() ==> x.speed_centi >= rest@[b].speed_centi) by {
                assert(forall|t: int|
                    0 <= t < rest0.len() ==> x.speed_centi >= rest0[t].speed_centi);
            }
        }
    }
    proof {
        assert(rest@ =~= Seq::<Outcome>::empty());
        assert(out@.to_multiset().add(rest@.to_multiset()) =~= out@.to_multiset());
    }
    out
}

/// Keeps only the leading records where a truncation limit is configured
/// (0 = unbounded).
pub fn apply_truncation(v: &mut Vec<Outcome>, limit: usize)
    ensures
        limit == 0 ==> final(v)@ == old(v)@,
        limit > 0 ==> final(v)@ == old(v)@.subrange(
            0,
            if limit <= old(v)@.len() {
                limit as int
            } else {
                old(v)@.len() as int
            },
        ),
        limit > 0 ==> final(v)@.len() <= limit,
{
    if limit > 0 {
        v.truncate(limit);
        proof {
            if limit > old(v)@.len() {
                assert(old(v)@.subrange(0, old(v)@.len() as int) =~= old(v)@);
            }
        }
    }
}

/// Decimal digits of a nonnegative number, most significant first.
pub open spec fn spec_decimal(n: int) -> Seq<u8>
    recommends
        n >= 0,
    decreases n,
{
    if n < 10 {
        seq![(48 + n) as u8]
    } else {
        spec_decimal(n / 10).push((48 + n % 10) as u8)
    }
}

/// The rate rounded to whole megabytes per second for display, halves
/// rounding up.
pub open spec fn spec_whole_mb(speed_centi: u64) -> int {
    speed_centi / 100 + if speed_centi % 100 >= 50 {
        1int
    } else {
        0int
    }
}

pub fn whole_mb(speed_centi: u64) -> (r: u64)
    ensures
        r == spec_whole_mb(speed_centi),
{
    let base = speed_centi / 100;
    if speed_centi % 100 >= 50 {
        proof {
            lemma_div_nonincreasing(speed_centi as int, 100);
            lemma_div_is_strictly_smaller(speed_centi as int, 100);
        }
        base + 1
    } else {
        base
    }
}

/// Appends the decimal digits of `n` to the line being built.
fn push_decimal(out: &mut Vec<u8>, n: u64)
    ensures
        final(out)@ == old(out)@ + spec_decimal(n as int),
    decreases n,
{
    if n < 10 {
        out.push((48 + n) as u8);
        proof {
            assert(final(out)@ =~= old(out)@ + spec_decimal(n as int));
        }
    } else {
        push_decimal(out, n / 10);
        out.push((48 + n % 10) as u8);
        proof {
            assert(final(out)@ =~= old(out)@ + spec_decimal(n as int));
        }
    }
}

/// The fixed literal tag written as enrichment when the run does not
/// resolve locations.
pub open spec fn spec_tag() -> Seq<u8> {
    seq![66u8, 67u8, 70u8, 71u8, 76u8]
}

/// The enrichment written after the `#` of a record: the location code
/// where enrichment is on (empty where none was resolved), the fixed
/// literal tag where it is off.
pub open spec fn spec_enrichment(enrich: bool, location: Option<Seq<u8>>) -> Seq<u8> {
    if enrich {
        match location {
            Some(code) => code,
            None => Seq::<u8>::empty(),
        }
    } else {
        spec_tag()
    }
}

/// One output record: `address#<enrichment><whole rate>`.
pub open spec fn spec_line(o: OutcomeModel, enrich: bool) -> Seq<u8> {
    o.addr + seq![35u8] + spec_enrichment(enrich, o.location) + spec_decimal(
        spec_whole_mb(o.speed_centi),
    )
}

/// Formats one admitted record into its output line.
pub fn format_line(o: &Outcome, enrich: bool) -> (r: Vec<u8>)
    ensures
        r@ == spec_line(o.deep_view(), enrich),
{
    let mut out: Vec<u8> = Vec::new();
    out.extend_from_slice(o.addr.as_slice());
    out.push(35);
    if enrich {
        match &o.location {
            Some(code) => {
                out.extend_from_slice(code.as_slice());
            },
            None => {},
        }
    } else {
        out.push(66);
        out.push(67);
        out.push(70);
        out.push(71);
        out.push(76);
    }
    let w = whole_mb(o.speed_centi);
    push_decimal(&mut out, w);
    proof {
        assert(out@ =~= spec_line(o.deep_view(), enrich));
    }
    out
}

/// The rendered artifact: the records' lines joined by single line feeds,
/// with no trailing terminator.
pub open spec fn spec_render(s: Seq<OutcomeModel>, enrich: bool) -> Seq<u8>
    decreases s.len(),
{
    if s.len() == 0 {
        Seq::<u8>::empty()
    } else if s.len() == 1 {
        spec_line(s[0], enrich)
    } else {
        spec_line(s[0], enrich) + seq![10u8] + spec_render(s.drop_first(), enrich)
    }
}

proof fn lemma_render_push(s: Seq<OutcomeModel>, m: OutcomeModel, enrich: bool)
    ensures
        spec_render(s.push(m), enrich) == if s.len() == 0 {
            spec_line(m, enrich)
        } else {
            spec_render(s, enrich) + seq![10u8] + spec_line(m, enrich)
        },
    decreases s.len(),
{
    let t = s.push(m);
    if s.len() == 0 {
        assert(t.len() == 1);
        assert(t[0] == m);
    } else {
        assert(t[0] == s[0]);
        assert(t.drop_first() =~= s.drop_first().push(m));
        lemma_render_push(s.drop_first(), m, enrich);
        assert(spec_render(t, enrich) =~= spec_render(s, enrich) + seq![10u8] + spec_line(
            m,
            enrich,
        ));
    }
}

/// Renders the ranked records into the bytes of the output artifact.
pub fn render(outcomes: &Vec<Outcome>, enrich: bool) -> (r: Vec<u8>)
    ensures
        r@ == spec_render(outcomes.deep_view(), enrich),
{
    let mut out: Vec<u8> = Vec::new();
    let n = outcomes.len();
    let mut i: usize = 0;
    proof {
        assert(outcomes.deep_view().subrange(0, 0) =~= Seq::<OutcomeModel>::empty());
    }
    while i < n
        invariant
            i <= n,
            n == outcomes@.len(),
            outcomes.deep_view().len() == n,
            out@ == spec_render(outcomes.deep_view().subrange(0, i as int), enrich),
        decreases n - i,
    {
        if i > 0 {
            out.push(10);
        }
        let line = format_line(&outcomes[i], enrich);
        out.extend_from_slice(line.as_slice());
        proof {
            let dv = outcomes.deep_view();
            assert(outcomes@[i as int].deep_view() == dv[i as int]);
            assert(dv.subrange(0, i as int).push(dv[i as int]) =~= dv.subrange(0, i + 1));
            lemma_render_push(dv.subrange(0, i as int), dv[i as int], enrich);
            assert(out@ =~= spec_render(dv.subrange(0, i + 1), enrich));
        }
        i = i + 1;
    }
    proof {
        assert(outcomes.deep_view().subrange(0, n as int) =~= outcomes.deep_view());
    }
    out
}

/// What a finished run hands back: a distinct empty-result state when no
/// candidate was admitted, else the ranked survivors with the rendered
/// artifact to write.
pub enum RunReport {
    NoneAdmitted,
    Ranked { outcomes: Vec<Outcome>, rendered: Vec<u8> },
}

/// How many records a truncation limit keeps out of the available ones
/// (0 = unbounded).
pub open spec fn spec_kept(limit: usize, available: nat) -> int {
    if limit == 0 || limit > available {
        available as int
    } else {
        limit as int
    }
}

/// Ranks the accumulated outcomes by rate, truncates them to the configured
/// limit and renders the artifact; a run with nothing admitted reports that
/// state explicitly instead of producing a misleading artifact.
pub fn finalize_run(results: ResultSet, limit: usize, enrich: bool) -> (r: RunReport)
    ensures
        (r matches RunReport::NoneAdmitted) <==> results.items@.len() == 0,
        r matches RunReport::Ranked { outcomes, rendered } ==> sorted_desc(outcomes@),
        r matches RunReport::Ranked { outcomes, rendered } ==> (limit > 0 ==> outcomes@.len()
            <= limit),
        r matches RunReport::Ranked { outcomes, rendered } ==> exists|full: Seq<Outcome>|
            full.to_multiset() == results.items@.to_multiset() && sorted_desc(full) && outcomes@
                == full.subrange(0, spec_kept(limit, full.len())),
        r matches RunReport::Ranked { outcomes, rendered } ==> rendered@ == spec_render(
            outcomes.deep_view(),
            enrich,
        ),
{
    if results.items.len() == 0 {
        return RunReport::NoneAdmitted;
    }
    let ghost before = results.items@;
    let mut ranked = rank_descending(results.items);
    let ghost full = ranked@;
    apply_truncation(&mut ranked, limit);
    let rendered = render(&ranked, enrich);
    proof {
        if limit == 0 {
            assert(full.subrange(0, spec_kept(limit, full.len())) =~= full);
        }
        assert(ranked@ == full.subrange(0, spec_kept(limit, full.len())));
        assert(full.to_multiset() == before.to_multiset() && sorted_desc(full) && ranked@
            == full.subrange(0, spec_kept(limit, full.len())));
    }
    RunReport::Ranked { outcomes: ranked, rendered }
}

} // verus!
