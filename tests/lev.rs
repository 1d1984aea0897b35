use xtap_core::lev_distance::{closest, closest_msg, lev_distance};

#[test]
fn lev_distance_known_values() {
    assert_eq!(lev_distance("kitten", "sitting"), 3);
    assert_eq!(lev_distance("", "abc"), 3);
    assert_eq!(lev_distance("abc", ""), 3);
    assert_eq!(lev_distance("same", "same"), 0);
    assert_eq!(lev_distance("flaw", "lawn"), 2);
    assert_eq!(lev_distance("ñandú", "nandu"), 2);
}

#[test]
fn closest_picks_first_nearest_within_three() {
    let cands = vec!["list".to_string(), "lost".to_string(), "merge".to_string()];
    assert_eq!(closest("lest", &cands), Some(&"list".to_string()));
    assert_eq!(closest("merg", &cands), Some(&"merge".to_string()));
    assert_eq!(closest("completely-different", &cands), None);
    assert_eq!(closest("x", &Vec::new()), None);
}

#[test]
fn closest_msg_names_suggestion() {
    let cands = vec!["list".to_string(), "merge".to_string()];
    assert_eq!(closest_msg("lst", &cands), "\n\n\tDid you mean `list`?");
    assert_eq!(closest_msg("zzzzzzzz", &cands), "");
}
