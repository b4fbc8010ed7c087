use wavry_core::selection::{
    filter_by_geography, region_distance, relay_is_assignable, GeoInfo, RelayState,
};

const SEC: u64 = 1_000_000_000;

fn geo(region: &str, asn: u32) -> GeoInfo {
    GeoInfo {
        region: Some(region.to_string()),
        asn: Some(asn),
    }
}

#[test]
fn test_geo_filtering() {
    let candidates = vec![geo("us-east-1", 100), geo("eu-west-1", 200)];
    let ids = ["us", "eu"];

    let filtered = filter_by_geography(&candidates, Some("us-west-2"), None, 10);
    assert_eq!(ids[filtered[0]], "us");

    let filtered = filter_by_geography(&candidates, Some("eu-central-1"), None, 10);
    assert_eq!(ids[filtered[0]], "eu");
}

#[test]
fn relay_assignable_checks_state_and_freshness() {
    let now = 1_000 * SEC;
    assert!(relay_is_assignable(RelayState::Active, now, now));
    assert!(!relay_is_assignable(RelayState::Draining, now, now));
    assert!(!relay_is_assignable(RelayState::Active, now - 180 * SEC, now));
}

#[test]
fn region_distances() {
    assert_eq!(region_distance("us-east-1", "us-east-1"), 0);
    assert_eq!(region_distance("us-east-1", "us-west-2"), 1);
    assert_eq!(region_distance("us-east-1", "eu-west-1"), 5);
    assert_eq!(region_distance("apac", "apac-south"), 1);
}

#[test]
fn geo_filter_limits_per_asn_and_total() {
    let candidates = vec![
        geo("us-east-1", 1),
        geo("us-east-1", 1),
        geo("us-east-1", 1),
        geo("eu-west-1", 2),
        GeoInfo { region: None, asn: None },
    ];
    let r = filter_by_geography(&candidates, Some("us-east-1"), Some("us-east-1"), 10);
    assert_eq!(r, vec![0, 1, 3, 4]);
    let r = filter_by_geography(&candidates, Some("us-east-1"), None, 1);
    assert_eq!(r, vec![0]);
    let r = filter_by_geography(&candidates, None, None, 1);
    assert_eq!(r, vec![0]);
    let r = filter_by_geography(&candidates, None, None, 10);
    assert_eq!(r, vec![0, 1, 3, 4]);
}
