use vstd::prelude::*;

verus! {

/// Raised when every lookup service of the fallback chain failed. The
/// candidate then goes unenriched; the run continues.
#[derive(PartialEq, Eq, Structural, Debug)]
pub enum GeoError {
    LocationUnavailable,
}

/// The first well-formed response along the ordered chain of lookup
/// services, if any service produced one.
pub open spec fn spec_first_hit(responses: Seq<Option<Seq<u8>>>) -> Option<Seq<u8>>
    decreases responses.len(),
{
    if responses.len() == 0 {
        None
    } else if responses[0] is Some {
        responses[0]
    } else {
        spec_first_hit(responses.drop_first())
    }
}

/// Resolves a candidate's location from the responses of the ordered
/// lookup services: the first well-formed response wins, and only a chain
/// with no response at all fails.
#[verifier::loop_isolation(false)]
pub fn first_location(responses: Vec<Option<Vec<u8>>>) -> (r: Result<Vec<u8>, GeoError>)
    ensures
        r matches Ok(code) ==> spec_first_hit(responses.deep_view()) == Some(code@),
        r matches Err(e) ==> e == GeoError::LocationUnavailable && spec_first_hit(
            responses.deep_view(),
        ) is None,
{
    let ghost all = responses.deep_view();
    let mut rest = responses;
    while rest.len() > 0
        invariant
            spec_first_hit(all) == spec_first_hit(rest.deep_view()),
        decreases rest.len(),
    {
        let ghost dv0 = rest.deep_view();
        let head = rest.remove(0);
        proof {
            assert(rest.deep_view() =~~= dv0.drop_first());
        }
        if head.is_some() {
            let code = head.unwrap();
            proof {
                assert(dv0[0] == Some(code.deep_view()));
                assert(code.deep_view() =~= code@);
                assert(spec_first_hit(dv0) == Some(code@));
            }
            return Ok(code);
        }
        proof {
            assert(dv0[0] is None);
        }
    }
    Err(GeoError::LocationUnavailable)
}

/// Why the chain may short-circuit: once some service has answered, the
/// responses that later services would have given cannot change the
/// resolved location. Two chains that agree up to and including the first
/// answer resolve alike, whatever stands after it.
pub proof fn lemma_first_hit_short_circuits(
    a: Seq<Option<Seq<u8>>>,
    b: Seq<Option<Seq<u8>>>,
    i: int,
)
    requires
        0 <= i < a.len(),
        i < b.len(),
        forall|k: int| 0 <= k <= i ==> a[k] == b[k],
        a[i] is Some,
    ensures
        spec_first_hit(a) == spec_first_hit(b),
    decreases i,
{
    if i == 0 {
        assert(a[0] == b[0]);
    } else {
        if a[0] is Some {
            assert(a[0] == b[0]);
        } else {
            assert(forall|k: int|
                0 <= k <= i - 1 ==> a.drop_first()[k] == a[k + 1] && b.drop_first()[k] == b[k + 1]);
            lemma_first_hit_short_circuits(a.drop_first(), b.drop_first(), i - 1);
        }
    }
}

} // verus!
