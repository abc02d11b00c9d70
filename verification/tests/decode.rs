use relay_st_jude::currency::Usd;
use relay_st_jude::decode::decode_response;
use relay_st_jude::errors::DecodeError;
use relay_st_jude::json::Json;
use relay_st_jude::model::{ApiError, Campaign, Location, Milestone};

const DESCRIPTION: &str = "Every September, the Relay FM community of podcasters and listeners rallies together to support the lifesaving mission of St. Jude Children’s Research Hospital during Childhood Cancer Awareness Month. Throughout the month, Relay FM will introduce ways to support St. Jude through entertaining donation challenges and other mini-fundraising events that will culminate in the second annual Relay for St. Jude Podcastathon on September 17th beginning at 12pm Eastern at twitch.tv/relayfm.";

fn example_response_body() -> String {
    let mut body = String::new();
    body.push_str(r#"{"data":{"campaign":{"id":8881,"name":"Relay FM for St. Jude 2021","slug":"relay-st-jude-21","status":"published","description":""#);
    body.push_str(DESCRIPTION);
    body.push_str(r#"","totalAmountRaised":{"currency":"USD","value":"22663.40"},"goal":{"currency":"USD","value":"333333.33"},"originalGoal":{"currency":"USD","value":"75000.00"},"team":{"name":"Relay FM"},"avatar":{"alt":"Relay FM","height":200,"width":200,"src":"https://example.invalid/avatar.png"},"milestones":[{"id":1,"name":"Stephen & Myke go to space via KSP","amount":{"currency":"USD","value":"75000.00"}},{"id":2,"name":"Stephen dissembles his NeXTCube on stream","amount":{"currency":"USD","value":"55000.00"}},{"id":3,"name":"Myke and Stephen attempt Flight Simulator again","amount":{"currency":"USD","value":"20000.00"}},{"id":4,"name":"$1 million raised in 3 years!","amount":{"currency":"USD","value":"196060.44"}}]}}}"#);
    body
}

fn expected_campaign() -> Campaign {
    Campaign {
        name: "Relay FM for St. Jude 2021".to_string(),
        description: DESCRIPTION.to_string(),
        goal: Usd::new(33_333_333),
        total_amount_raised: Usd::new(2_266_340),
        milestones: vec![
            Milestone {
                amount: Usd::new(7_500_000),
                description: "Stephen & Myke go to space via KSP".to_string(),
            },
            Milestone {
                amount: Usd::new(5_500_000),
                description: "Stephen dissembles his NeXTCube on stream".to_string(),
            },
            Milestone {
                amount: Usd::new(2_000_000),
                description: "Myke and Stephen attempt Flight Simulator again".to_string(),
            },
            Milestone {
                amount: Usd::new(19_606_044),
                description: "$1 million raised in 3 years!".to_string(),
            },
        ],
    }
}

/// The saved example response decodes to the expected model.
#[test]
fn lib_example_response() {
    let body = example_response_body();
    assert_eq!(decode_response(&body), Ok(expected_campaign()));
}

/// The example response carries `slug`, `status`, `id`, `team`, `avatar` and
/// `originalGoal` beside the modeled fields; all are tolerated and ignored.
#[test]
fn campaign_example_response() {
    let body = example_response_body();
    let campaign = decode_response(&body).unwrap();
    assert_eq!(campaign, expected_campaign());
    assert_eq!(campaign.milestones.len(), 4);
    assert_eq!(campaign.goal.usd(), 33_333_333);
    assert_eq!(campaign.total_amount_raised.usd(), 2_266_340);
}

/// A reply with remote errors surfaces the composed report, first location
/// included.
#[test]
fn remote_error_report() {
    let body = r#"{"data": null, "errors": [{"message":"bad slug","locations":[{"line":2,"column":5}]}]}"#;
    let err = decode_response(body).unwrap_err();
    assert_eq!(
        err,
        DecodeError::RemoteError("Campaign Query failed:\n~:2:5 bad slug".to_string())
    );
}

/// Several remote errors are reported in received order, one per line.
#[test]
fn errors_in_received_order() {
    let body = r#"{"errors": [{"message":"first"},{"message":"second","locations":[{"line":1,"column":2},{"line":9,"column":9}]}]}"#;
    let err = decode_response(body).unwrap_err();
    assert_eq!(
        err,
        DecodeError::RemoteError("Campaign Query failed:\n~ first\n~:1:2 second".to_string())
    );
}

/// An empty envelope — no data, no errors — is an empty response.
#[test]
fn empty_envelope() {
    assert_eq!(decode_response("{}"), Err(DecodeError::EmptyResponse));
    assert_eq!(
        decode_response(r#"{"data": null, "errors": []}"#),
        Err(DecodeError::EmptyResponse)
    );
}

/// A goal whose value string does not parse fails as a malformed amount.
#[test]
fn malformed_amount() {
    let body = r#"{"data":{"campaign":{"name":"c","description":"d","totalAmountRaised":{"currency":"USD","value":"22663.40"},"goal":{"currency":"USD","value":"not-a-number"}}}}"#;
    assert_eq!(decode_response(body), Err(DecodeError::MalformedAmount));
}

/// Bodies that are not valid JSON, or not envelope-shaped, are malformed.
#[test]
fn malformed_response() {
    assert_eq!(
        decode_response("not json at all"),
        Err(DecodeError::MalformedResponse)
    );
    assert_eq!(decode_response("[1, 2]"), Err(DecodeError::MalformedResponse));
    let missing_name = r#"{"data":{"campaign":{"description":"d","totalAmountRaised":{"value":"1.00"},"goal":{"value":"2.00"}}}}"#;
    assert_eq!(
        decode_response(missing_name),
        Err(DecodeError::MalformedResponse)
    );
}

/// A campaign payload without `milestones` decodes to an empty sequence.
#[test]
fn default_milestones() {
    let body = r#"{"data":{"campaign":{"name":"c","description":"d","totalAmountRaised":{"currency":"USD","value":"1.00"},"goal":{"currency":"USD","value":"2.00"}}}}"#;
    let campaign = decode_response(body).unwrap();
    assert_eq!(campaign.milestones.len(), 0);
    assert_eq!(campaign.total_amount_raised, Usd::new(100));
    assert_eq!(campaign.goal, Usd::new(200));
}

/// Payloads with and without extra fields decode to the same campaign.
#[test]
fn extra_fields_ignored() {
    let bare = r#"{"data":{"campaign":{"name":"c","description":"d","totalAmountRaised":{"value":"1.00"},"goal":{"value":"2.00"}}}}"#;
    let extra = r#"{"data":{"campaign":{"slug":"s","status":"published","id":7,"avatar":{"src":"x"},"name":"c","description":"d","totalAmountRaised":{"value":"1.00"},"goal":{"value":"2.00"},"region":null}}}"#;
    assert_eq!(decode_response(bare).unwrap(), decode_response(extra).unwrap());
}

/// When campaign data is present, an errors slot beside it is ignored.
#[test]
fn data_wins_over_errors() {
    let body = r#"{"data":{"campaign":{"name":"c","description":"d","totalAmountRaised":{"value":"1.00"},"goal":{"value":"2.00"}}},"errors":[{"message":"stale"}]}"#;
    let campaign = decode_response(body).unwrap();
    assert_eq!(campaign.name, "c".to_string());
}

/// The remote error formatting rule: no locations gives `~ message`, one or
/// more locations uses the first as `~:line:column message`.
#[test]
fn api_error_formatting() {
    let bare = ApiError {
        message: "broken".to_string(),
        locations: vec![],
    };
    assert_eq!(bare.format_line(), "~ broken".to_string());
    let located = ApiError {
        message: "broken".to_string(),
        locations: vec![
            Location { line: 3, column: 7 },
            Location { line: 8, column: 1 },
        ],
    };
    assert_eq!(located.format_line(), "~:3:7 broken".to_string());
}

/// Decoding a currency object reads the `value` string and ignores the
/// `currency` sibling; a non-numeric string is a malformed amount.
#[test]
fn currency_decode() {
    let obj = Json::Obj(vec![
        ("currency".to_string(), Json::Str("USD".to_string())),
        ("value".to_string(), Json::Str("41.99".to_string())),
    ]);
    assert_eq!(Usd::decode(&obj), Ok(Usd::new(4199)));
    let bad = Json::Obj(vec![
        ("currency".to_string(), Json::Str("USD".to_string())),
        ("value".to_string(), Json::Str("forty-two".to_string())),
    ]);
    assert_eq!(Usd::decode(&bad), Err(DecodeError::MalformedAmount));
}

/// The error kinds carry printable messages.
#[test]
fn error_messages() {
    assert_eq!(
        DecodeError::MalformedResponse.message(),
        "malformed response".to_string()
    );
    assert_eq!(
        DecodeError::MalformedAmount.message(),
        "malformed amount".to_string()
    );
    assert_eq!(
        DecodeError::EmptyResponse.message(),
        "empty response".to_string()
    );
    assert_eq!(
        DecodeError::RemoteError("report".to_string()).message(),
        "report".to_string()
    );
}
