use chithi::chance::start_delay;
use chithi::walker::{preflight, Refusal};

#[test]
fn the_delay_stays_below_its_limit() {
    assert_eq!(start_delay(0), 0);
    assert_eq!(start_delay(1), 0);
    let mut seen = [false; 4];
    for _ in 0..400 {
        let d = start_delay(4);
        assert!(d < 4);
        seen[d as usize] = true;
    }
    // a delay that handed its limit back, or a constant, would not get here
    assert!(seen.iter().filter(|s| **s).count() > 1);
}

#[test]
fn a_recursive_run_is_refused_for_the_first_reason() {
    assert_eq!(preflight(0, true, true, true, false), Some(Refusal::NoDatasets));
    assert_eq!(preflight(0, false, false, false, true), Some(Refusal::NoDatasets));
    assert_eq!(preflight(3, true, true, true, false), Some(Refusal::Busy));
    assert_eq!(preflight(3, true, false, true, false), Some(Refusal::ParentMissing));
    assert_eq!(preflight(3, false, true, true, false), Some(Refusal::ParentMissing));
    assert_eq!(preflight(3, false, true, false, false), None);
    assert_eq!(preflight(1, true, false, true, true), None);
    assert_eq!(preflight(1, true, false, false, false), None);
}

#[test]
fn the_messages_of_a_refusal() {
    assert_eq!(Refusal::NoDatasets.to_str(), "no source datasets found");
    assert_eq!(Refusal::Busy.to_str(), "one of the child datasets are in recv");
    assert_eq!(
        Refusal::ParentMissing.to_str(),
        "--skip-parent is set, but the target parent dataset does not exist"
    );
}
