use activitymemes::audience::{
    collect_resolved, dedup_merged, is_public_uri, limit_to_and_cc, merge_and_limit_mentions,
    public_uri_bytes, split_public_uris, ToCcUuid, MAX_NON_PUBLIC_CC_AND_TO,
};

const PUBLIC: &str = "https://www.w3.org/ns/activitystreams#Public";

fn uri(name: &str) -> Vec<u8> {
    format!("https://example.org/users/{}", name).into_bytes()
}

#[test]
fn public_sentinel_is_recognized() {
    assert!(is_public_uri(PUBLIC.as_bytes()));
    assert!(!is_public_uri(b"https://example.org/users/alice"));
    assert_eq!(public_uri_bytes(), PUBLIC.as_bytes().to_vec());
}

#[test]
fn cap_keeps_at_most_five_entries_without_public() {
    let input: Vec<Vec<u8>> = (0..8).map(|i| uri(&format!("u{}", i))).collect();
    let capped = limit_to_and_cc(&input);
    assert_eq!(capped.len(), MAX_NON_PUBLIC_CC_AND_TO);
    assert_eq!(capped, input[..5].to_vec());
}

#[test]
fn cap_leaves_short_lists_alone() {
    let input: Vec<Vec<u8>> = vec![uri("a"), uri("b")];
    assert_eq!(limit_to_and_cc(&input), input);
}

#[test]
fn public_survives_truncation() {
    // Public stands last, beyond the cap window; it must be re-appended.
    let mut input: Vec<Vec<u8>> = (0..6).map(|i| uri(&format!("u{}", i))).collect();
    input.push(PUBLIC.as_bytes().to_vec());
    let capped = limit_to_and_cc(&input);
    assert_eq!(capped.len(), 6);
    assert_eq!(capped[5], PUBLIC.as_bytes().to_vec());
    assert_eq!(capped[..5].to_vec(), input[..5].to_vec());
}

#[test]
fn public_inside_window_is_not_duplicated() {
    let input: Vec<Vec<u8>> = vec![PUBLIC.as_bytes().to_vec(), uri("a")];
    let capped = limit_to_and_cc(&input);
    assert_eq!(capped, input);
}

#[test]
fn dedup_keeps_first_occurrences_in_order() {
    let a = vec![uri("a"), uri("b"), uri("a")];
    let b = vec![uri("c"), uri("b")];
    let merged = dedup_merged(&a, &b);
    assert_eq!(merged, vec![uri("a"), uri("b"), uri("c")]);
}

#[test]
fn build_on_duplicated_input_equals_build_on_single_input() {
    let to: Vec<Vec<u8>> = vec![uri("a"), uri("b"), PUBLIC.as_bytes().to_vec()];
    let cc: Vec<Vec<u8>> = vec![uri("c")];
    let empty: Vec<Vec<u8>> = Vec::new();
    let single = merge_and_limit_mentions(&to, &cc, &empty, &empty);
    let doubled = merge_and_limit_mentions(&to, &cc, &to, &cc);
    assert_eq!(single.0, doubled.0);
    assert_eq!(single.1, doubled.1);
}

#[test]
fn split_public_filters_the_sentinel_and_raises_the_flag() {
    let input: Vec<Vec<u8>> = vec![uri("a"), PUBLIC.as_bytes().to_vec(), uri("b")];
    let (rest, has_public) = split_public_uris(&input);
    assert!(has_public);
    assert_eq!(rest, vec![uri("a"), uri("b")]);

    let plain: Vec<Vec<u8>> = vec![uri("a")];
    let (rest2, has_public2) = split_public_uris(&plain);
    assert!(!has_public2);
    assert_eq!(rest2, plain);
}

#[test]
fn collect_resolved_routes_mentions_and_followers() {
    let resolved = vec![
        ToCcUuid::DirectMention(1),
        ToCcUuid::MentionOfFollowersOf(2),
        ToCcUuid::DirectMention(3),
    ];
    let out = collect_resolved(&resolved, true);
    assert_eq!(out.mentions, vec![1, 3]);
    assert_eq!(out.followers_of, vec![2]);
    assert!(out.has_public_uri);
}

#[test]
fn resolved_audience_without_public_never_exceeds_five() {
    // Eight raw URIs, no public sentinel: the capped list carries five,
    // and resolving each one yields five entries combined.
    let input: Vec<Vec<u8>> = (0..8).map(|i| uri(&format!("u{}", i))).collect();
    let empty: Vec<Vec<u8>> = Vec::new();
    let (capped, _) = merge_and_limit_mentions(&input, &empty, &empty, &empty);
    let resolved: Vec<ToCcUuid> =
        (0..capped.len() as u128).map(ToCcUuid::DirectMention).collect();
    let out = collect_resolved(&resolved, false);
    assert!(out.mentions.len() + out.followers_of.len() <= 5);
}
