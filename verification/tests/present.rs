use relay_st_jude::currency::Usd;
use relay_st_jude::model::{Campaign, Milestone};
use relay_st_jude::present::{percent, render_lines, sort_milestones};

fn milestone(description: &str, cents: i64) -> Milestone {
    Milestone {
        description: description.to_string(),
        amount: Usd::new(cents),
    }
}

fn example_campaign() -> Campaign {
    Campaign {
        name: "Relay FM for St. Jude 2021".to_string(),
        description: "long prose".to_string(),
        total_amount_raised: Usd::new(2_266_340),
        goal: Usd::new(33_333_333),
        milestones: vec![
            milestone("Stephen & Myke go to space via KSP", 7_500_000),
            milestone("Stephen dissembles his NeXTCube on stream", 5_500_000),
            milestone("Myke and Stephen attempt Flight Simulator again", 2_000_000),
            milestone("$1 million raised in 3 years!", 19_606_044),
        ],
    }
}

/// Sorting puts milestone thresholds in ascending order; the listing keeps
/// exactly its milestones.
#[test]
fn sort_orders_thresholds() {
    let mut campaign = example_campaign();
    sort_milestones(&mut campaign.milestones);
    let cents: Vec<i64> = campaign.milestones.iter().map(|m| m.amount.usd()).collect();
    assert_eq!(cents, vec![2_000_000, 5_500_000, 7_500_000, 19_606_044]);
    assert_eq!(
        campaign.milestones[0].description,
        "Myke and Stephen attempt Flight Simulator again".to_string()
    );
    assert_eq!(
        campaign.milestones[3].description,
        "$1 million raised in 3 years!".to_string()
    );
}

/// The header lines: the campaign name with an exclamation mark, then the
/// raised amount against the goal.
#[test]
fn presenter_header() {
    let campaign = example_campaign();
    let lines = render_lines(&campaign);
    assert_eq!(lines.len(), 6);
    assert_eq!(lines[0], "Relay FM for St. Jude 2021!".to_string());
    assert_eq!(lines[1], "$22,663.40 of $333,333.33".to_string());
}

/// A milestone below the raised amount renders as reached; one above it as
/// pending with its percentage.
#[test]
fn reached_vs_pending() {
    let mut campaign = example_campaign();
    sort_milestones(&mut campaign.milestones);
    let lines = render_lines(&campaign);
    let reached = "    ".to_string() + "✅ " + "     " + " " + "     $20,000.00" + " - "
        + "Myke and Stephen attempt Flight Simulator again";
    assert_eq!(lines[2], reached);
    let pending = "    ".to_string() + "🤞 " + "41.2%" + " " + "     $55,000.00" + " - "
        + "Stephen dissembles his NeXTCube on stream";
    assert_eq!(lines[3], pending);
}

/// A milestone threshold equal to the raised amount renders as pending, at
/// one hundred percent.
#[test]
fn equality_is_pending() {
    let campaign = Campaign {
        name: "c".to_string(),
        description: "d".to_string(),
        total_amount_raised: Usd::new(2_000_000),
        goal: Usd::new(33_333_333),
        milestones: vec![milestone("on the line", 2_000_000)],
    };
    let lines = render_lines(&campaign);
    let expected = "    ".to_string() + "🤞 " + "100.0%" + " " + "     $20,000.00" + " - "
        + "on the line";
    assert_eq!(lines[2], expected);
}

/// Percentages carry one fractional digit, rounded to the nearest tenth.
#[test]
fn percent_values() {
    assert_eq!(percent(Usd::new(2_266_340), Usd::new(5_500_000)), "41.2%".to_string());
    assert_eq!(percent(Usd::new(4126), Usd::new(10_000)), "41.3%".to_string());
    assert_eq!(percent(Usd::new(4124), Usd::new(10_000)), "41.2%".to_string());
    assert_eq!(percent(Usd::new(0), Usd::new(10_000)), "0.0%".to_string());
    assert_eq!(percent(Usd::new(0), Usd::new(0)), "0.0%".to_string());
    assert_eq!(percent(Usd::new(10_000), Usd::new(10_000)), "100.0%".to_string());
}
