use growth::Key;
use growth::badge_metadata_name;
use growth::create_organization;
use growth::funding_shortfall;
use growth::grow_record;
use growth::grown_size;
use growth::levels_uri;
use growth::org_metadata_name;
use growth::org_uri;
use growth::organization_space_to_add;
use growth::register_space_to_add;
use growth::u8_to_dec;

fn key(n: u64) -> Key {
    Key { w0: n, w1: 0, w2: 0, w3: 0 }
}

#[test]
fn funding_shortfall_is_exact() {
    assert_eq!(funding_shortfall(100, 40), 60);
    assert_eq!(funding_shortfall(100, 100), 0);
    assert_eq!(funding_shortfall(100, 150), 0);
    assert_eq!(funding_shortfall(0, 0), 0);
}

#[test]
fn grown_size_adds_exactly() {
    assert_eq!(grown_size(80, 24), 104);
    assert_eq!(grown_size(0, 0), 0);
}

#[test]
fn grow_preserves_bytes_and_zero_fills() {
    let mut data = vec![1u8, 2, 3];
    grow_record(&mut data, 4);
    assert_eq!(data, vec![1, 2, 3, 0, 0, 0, 0]);
}

#[test]
fn grow_by_nothing_changes_nothing() {
    let mut data = vec![9u8, 8];
    grow_record(&mut data, 0);
    assert_eq!(data, vec![9, 8]);
}

#[test]
fn decimal_rendering() {
    assert_eq!(u8_to_dec(0), "0");
    assert_eq!(u8_to_dec(7), "7");
    assert_eq!(u8_to_dec(25), "25");
    assert_eq!(u8_to_dec(100), "100");
    assert_eq!(u8_to_dec(255), "255");
}

#[test]
fn badge_uri_joins_levels_with_hyphens() {
    assert_eq!(levels_uri("https://badges.example", &vec![1, 0, 2]), "https://badges.example/1-0-2.json");
    assert_eq!(levels_uri("https://badges.example", &vec![12]), "https://badges.example/12.json");
    assert_eq!(levels_uri("https://badges.example", &vec![]), "https://badges.example/.json");
}

#[test]
fn organization_uri_and_names() {
    assert_eq!(org_uri("https://badges.example"), "https://badges.example/org.json");
    assert_eq!(org_metadata_name("acme"), "acme Organization");
    assert_eq!(badge_metadata_name("acme", "alice"), "acme - alice");
}

#[test]
fn organization_record_sizing() {
    let org = create_organization(
        vec![1, 1, 1, 1],
        vec![2],
        vec![vec![1, 2], vec![1, 3, 5]],
        String::from("acme"),
        1,
        String::from("https://badges.example"),
        60,
        key(1),
        key(2),
        7,
    )
    .expect("configuration should be valid");
    assert_eq!(organization_space_to_add(&org), 5 * 4 + 2 + 100);
}

#[test]
fn score_record_sizing() {
    let org = create_organization(
        vec![1, 1, 1, 1],
        vec![2],
        vec![vec![1, 2], vec![1, 3, 5]],
        String::from("acme"),
        1,
        String::from("https://badges.example"),
        60,
        key(1),
        key(2),
        7,
    )
    .expect("configuration should be valid");
    assert_eq!(register_space_to_add(&org, "alice"), 4 * 2 + 6 * 4 + 2 + 4 * 5);
}
