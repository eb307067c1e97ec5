use psysonic::mood_groups::{
    expand_mood_groups, is_known_mood_tag, is_oximedia_mood_tag, is_valid_mood_group,
    lookup_mood_group, mood_display_cluster, mood_groups, normalize_mood_groups,
    normalize_mood_tags, oximedia_mood_tag_ids, pick_distinct_mood_tags,
    top_oximedia_mood_tags_from_ranked,
};

fn strings(v: &[&str]) -> Vec<String> {
    v.iter().map(|s| s.to_string()).collect()
}

#[test]
fn joy_expands_to_happy_and_excited() {
    assert_eq!(
        expand_mood_groups(&["joy".into()]).unwrap(),
        vec!["happy", "excited"]
    );
}

#[test]
fn groups_overlap_by_design() {
    let joy = expand_mood_groups(&["joy".into()]).unwrap();
    let dance = expand_mood_groups(&["dance".into()]).unwrap();
    assert!(joy.iter().any(|t| dance.contains(t)));
    let work = expand_mood_groups(&["work".into()]).unwrap();
    let romance = expand_mood_groups(&["romance".into()]).unwrap();
    assert!(work.iter().any(|t| romance.contains(t)));
}

#[test]
fn all_oximedia_tags_appear_in_at_least_one_group() {
    let groups = mood_groups();
    for tag in oximedia_mood_tag_ids() {
        assert!(
            groups.iter().any(|g| g.tags.contains(&tag)),
            "oximedia tag `{tag}` must appear in a virtual group"
        );
    }
}

#[test]
fn anger_expands_to_q3_tags() {
    assert_eq!(
        expand_mood_groups(&["anger".into()]).unwrap(),
        vec!["angry", "tense"]
    );
}

#[test]
fn unknown_group_errors() {
    assert!(expand_mood_groups(&["nope".into()]).is_err());
}

#[test]
fn expanding_several_groups_keeps_first_occurrence_only() {
    let tags = expand_mood_groups(&strings(&["joy", "dance"])).unwrap();
    let mut seen = std::collections::HashSet::new();
    for t in &tags {
        assert!(seen.insert(t.clone()), "duplicate tag {t}");
    }
    assert_eq!(&tags[..2], &["happy".to_string(), "excited".to_string()]);
}

#[test]
fn empty_group_list_errors_with_message() {
    assert_eq!(
        expand_mood_groups(&[]).unwrap_err(),
        "expected at least one mood group"
    );
    assert_eq!(
        normalize_mood_groups(&[]).unwrap_err(),
        "expected at least one mood group"
    );
    assert_eq!(normalize_mood_tags(&[]).unwrap_err(), "expected at least one mood tag");
}

#[test]
fn unknown_ids_are_quoted_in_errors() {
    assert_eq!(
        expand_mood_groups(&strings(&["joy", "nope"])).unwrap_err(),
        "unknown mood group `nope`"
    );
    assert_eq!(
        normalize_mood_tags(&strings(&["happy", "zzz"])).unwrap_err(),
        "unknown mood tag `zzz`"
    );
}

#[test]
fn normalize_deduplicates_in_order() {
    assert_eq!(
        normalize_mood_groups(&strings(&["joy", "anger", "joy"])).unwrap(),
        strings(&["joy", "anger"])
    );
    assert_eq!(
        normalize_mood_tags(&strings(&["calm", "happy", "calm"])).unwrap(),
        strings(&["calm", "happy"])
    );
}

#[test]
fn catalog_predicates() {
    assert!(is_oximedia_mood_tag("happy"));
    assert!(!is_oximedia_mood_tag("joy"));
    assert!(is_valid_mood_group("joy"));
    assert!(!is_valid_mood_group("happy"));
    assert!(is_known_mood_tag("calm"));
    assert!(!is_known_mood_tag("nope"));
    let joy = lookup_mood_group("joy").unwrap();
    assert_eq!(joy.id, "joy");
    assert_eq!(joy.tags, vec!["happy", "excited"]);
    assert!(lookup_mood_group("nope").is_none());
}

#[test]
fn display_clusters_pair_close_tags() {
    assert_eq!(mood_display_cluster("calm"), mood_display_cluster("peaceful"));
    assert_eq!(mood_display_cluster("angry"), mood_display_cluster("tense"));
    assert_ne!(mood_display_cluster("calm"), mood_display_cluster("angry"));
    assert_eq!(mood_display_cluster("nope"), None);
}

#[test]
fn ranked_tags_keep_oximedia_ids_before_the_limit() {
    let ranked = strings(&["weird", "happy", "joy", "calm", "sad"]);
    assert_eq!(
        top_oximedia_mood_tags_from_ranked(&ranked, 2),
        strings(&["happy", "calm"])
    );
}

#[test]
fn distinct_pick_skips_same_cluster_and_ineligible() {
    let cands = vec![
        ("calm".to_string(), true),
        ("peaceful".to_string(), true),
        ("happy".to_string(), false),
        ("angry".to_string(), true),
    ];
    let picked = pick_distinct_mood_tags(&cands, 3);
    assert!(picked.contains(&"calm".to_string()));
    assert!(!picked.contains(&"peaceful".to_string()));
    assert!(!picked.contains(&"happy".to_string()));
    assert!(picked.len() <= 3);
}
