use relay_st_jude::query::{build_graph_ql_query, query_template};

/// The payload is a JSON object with exactly the three top-level keys, the
/// fixed operation name, the two variables verbatim, and the fixed query
/// text.  Parsing it back with a real JSON parser checks the escaping.
#[test]
fn query_body_shape() {
    let body = build_graph_ql_query("@relay-fm", "relay-st-jude-21");
    let v: serde_json::Value = serde_json::from_str(&body).unwrap();
    let obj = v.as_object().unwrap();
    assert_eq!(obj.len(), 3);
    assert_eq!(
        obj["operationName"].as_str().unwrap(),
        "get_campaign_by_vanity_and_slug"
    );
    let vars = obj["variables"].as_object().unwrap();
    assert_eq!(vars.len(), 2);
    assert_eq!(vars["vanity"].as_str().unwrap(), "@relay-fm");
    assert_eq!(vars["slug"].as_str().unwrap(), "relay-st-jude-21");
    assert_eq!(obj["query"].as_str().unwrap(), query_template());
}

/// The query text is the fixed template, newlines and all.
#[test]
fn template_text() {
    let t = query_template();
    assert!(t.starts_with(
        "query get_campaign_by_vanity_and_slug($vanity: String, $slug: String) {"
    ));
    assert!(t.contains("campaign(vanity: $vanity, slug: $slug)"));
    assert!(t.contains("milestones { name amount { currency value } }"));
    assert!(t.ends_with("}"));
}

/// Inputs pass through verbatim: quotes, backslashes and control characters
/// in a variable survive a round trip through the payload.
#[test]
fn escaping_round_trip() {
    let vanity = "a\"b\\c\nd\te";
    let slug = "plain";
    let body = build_graph_ql_query(vanity, slug);
    let v: serde_json::Value = serde_json::from_str(&body).unwrap();
    assert_eq!(v["variables"]["vanity"].as_str().unwrap(), vanity);
    assert_eq!(v["variables"]["slug"].as_str().unwrap(), slug);
}
