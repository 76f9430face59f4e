use sigma2splunk::query::{build_query, join_tags};

#[test]
fn query_matches_the_documented_form() {
    let tags = vec!["a".to_string(), "b".to_string()];
    let q = build_query("main", "1y", "sourcetype=x", "T1", &tags);
    assert_eq!(
        q,
        "search index=main earliest=-1y sourcetype=x | eval rule_name=\"T1\", tags=\"a,b\" | collect index=alertes output_format=hec"
    );
}

#[test]
fn query_with_no_tags_has_an_empty_tag_list() {
    let q = build_query("sec", "30d", "EventID=4625", "Failed logon", &Vec::new());
    assert_eq!(
        q,
        "search index=sec earliest=-30d EventID=4625 | eval rule_name=\"Failed logon\", tags=\"\" | collect index=alertes output_format=hec"
    );
}

#[test]
fn tags_are_joined_in_order() {
    let tags = vec!["attack.t1059".to_string(), "attack.execution".to_string(), "x".to_string()];
    assert_eq!(join_tags(&tags), "attack.t1059,attack.execution,x");
    assert_eq!(join_tags(&vec!["only".to_string()]), "only");
    assert_eq!(join_tags(&Vec::new()), "");
}
