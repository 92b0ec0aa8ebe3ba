use proxy_bench::dispatch::Dispatcher;
use proxy_bench::geo::{first_location, GeoError};
use proxy_bench::results::{
    apply_truncation, finalize_run, format_line, rank_descending, render, whole_mb, Outcome,
    ResultSet, RunReport,
};

fn outcome(addr: &[u8], speed_centi: u64) -> Outcome {
    Outcome {
        addr: addr.to_vec(),
        speed_centi,
        location: None,
    }
}

#[test]
fn ranking_is_descending() {
    let v = vec![
        outcome(b"a", 1000),
        outcome(b"b", 3000),
        outcome(b"c", 2000),
    ];
    let r = rank_descending(v);
    let speeds: Vec<u64> = r.iter().map(|o| o.speed_centi).collect();
    assert_eq!(speeds, vec![3000, 2000, 1000]);
}

#[test]
fn ranking_keeps_accumulation_order_on_ties() {
    let v = vec![
        outcome(b"late", 500),
        outcome(b"first", 700),
        outcome(b"second", 700),
    ];
    let r = rank_descending(v);
    assert_eq!(r[0].addr, b"first".to_vec());
    assert_eq!(r[1].addr, b"second".to_vec());
    assert_eq!(r[2].addr, b"late".to_vec());
}

#[test]
fn truncation_keeps_only_the_leading_records() {
    let mut v = vec![outcome(b"a", 3), outcome(b"b", 2), outcome(b"c", 1)];
    apply_truncation(&mut v, 2);
    assert_eq!(v.len(), 2);
    assert_eq!(v[0].addr, b"a".to_vec());
    assert_eq!(v[1].addr, b"b".to_vec());

    let mut unbounded = vec![outcome(b"a", 3), outcome(b"b", 2)];
    apply_truncation(&mut unbounded, 0);
    assert_eq!(unbounded.len(), 2);
}

#[test]
fn result_set_never_exceeds_the_limit() {
    let mut rs = ResultSet::new();
    for i in 0..25u64 {
        rs.record(outcome(b"x", i));
    }
    match finalize_run(rs, 20, false) {
        RunReport::Ranked { outcomes, .. } => assert_eq!(outcomes.len(), 20),
        RunReport::NoneAdmitted => panic!("25 records were accumulated"),
    }
}

#[test]
fn zero_admitted_is_an_explicit_state() {
    let rs = ResultSet::new();
    assert!(matches!(
        finalize_run(rs, 20, false),
        RunReport::NoneAdmitted
    ));
}

#[test]
fn whole_megabytes_round_halves_up() {
    assert_eq!(whole_mb(6000), 60);
    assert_eq!(whole_mb(5950), 60);
    assert_eq!(whole_mb(5949), 59);
    assert_eq!(whole_mb(0), 0);
}

#[test]
fn line_uses_the_fixed_tag_without_enrichment() {
    let o = outcome(b"1.1.1.1", 6000);
    assert_eq!(format_line(&o, false), b"1.1.1.1#BCFGL60".to_vec());
}

#[test]
fn line_uses_the_location_code_with_enrichment() {
    let o = Outcome {
        addr: b"1.1.1.1".to_vec(),
        speed_centi: 6000,
        location: Some(b"US".to_vec()),
    };
    assert_eq!(format_line(&o, true), b"1.1.1.1#US60".to_vec());
}

#[test]
fn rendering_joins_lines_without_a_trailing_break() {
    let v = vec![outcome(b"1.1.1.1", 6000), outcome(b"2.2.2.2", 5949)];
    assert_eq!(
        render(&v, false),
        b"1.1.1.1#BCFGL60\n2.2.2.2#BCFGL59".to_vec()
    );
    let empty: Vec<Outcome> = Vec::new();
    assert_eq!(render(&empty, false), Vec::<u8>::new());
}

#[test]
fn finalize_ranks_truncates_and_renders() {
    let mut rs = ResultSet::new();
    rs.record(outcome(b"slow", 1000));
    rs.record(outcome(b"fast", 70000));
    rs.record(outcome(b"mid", 6000));
    match finalize_run(rs, 2, false) {
        RunReport::Ranked { outcomes, rendered } => {
            assert_eq!(outcomes.len(), 2);
            assert_eq!(rendered, b"fast#BCFGL700\nmid#BCFGL60".to_vec());
        },
        RunReport::NoneAdmitted => panic!("three records were accumulated"),
    }
}

#[test]
fn first_location_takes_the_earliest_response() {
    let responses = vec![None, Some(b"US".to_vec()), Some(b"DE".to_vec())];
    assert_eq!(first_location(responses).unwrap(), b"US".to_vec());
}

#[test]
fn all_services_failing_still_writes_the_record() {
    let responses: Vec<Option<Vec<u8>>> = vec![None, None, None];
    assert_eq!(
        first_location(responses).unwrap_err(),
        GeoError::LocationUnavailable
    );
    // The admitted candidate stays in the run, with empty enrichment.
    let o = outcome(b"1.1.1.1", 6000);
    assert_eq!(format_line(&o, true), b"1.1.1.1#60".to_vec());
    let mut rs = ResultSet::new();
    rs.record(o);
    match finalize_run(rs, 0, true) {
        RunReport::Ranked { outcomes, rendered } => {
            assert_eq!(outcomes.len(), 1);
            assert_eq!(rendered, b"1.1.1.1#60".to_vec());
        },
        RunReport::NoneAdmitted => panic!("the record was accumulated"),
    }
}

#[test]
fn dispatcher_grants_at_most_the_cap() {
    let mut d = Dispatcher::new(2);
    assert!(d.try_acquire());
    assert!(d.try_acquire());
    assert!(!d.try_acquire());
    d.release();
    assert!(d.try_acquire());
    assert!(!d.try_acquire());
}
