//! The domain model a successful query returns, and the remote error
//! descriptor with its formatting rule.

use vstd::prelude::*;

use crate::currency::Usd;
use crate::text::{push_dec, spec_dec};

verus! {

/// A fund-raising milestone: a described event unlocked at an amount.
#[derive(Clone, Debug, PartialEq)]
pub struct Milestone {
    /// A description of the event unlocked when the milestone is reached.
    pub description: String,
    /// The amount, in USD, for this milestone.
    pub amount: Usd,
}

/// The mathematical shape of a [`Milestone`].
pub struct MilestoneV {
    /// The event description.
    pub description: Seq<char>,
    /// The threshold, in cents.
    pub amount: int,
}

impl View for Milestone {
    type V = MilestoneV;

    open spec fn view(&self) -> MilestoneV {
        MilestoneV { description: self.description@, amount: self.amount@ }
    }
}

/// A fund-raising campaign as the remote service reports it.
#[derive(Clone, Debug, PartialEq)]
pub struct Campaign {
    /// Registered name of the campaign.
    pub name: String,
    /// A description of what this campaign is for and about.
    pub description: String,
    /// The current amount of money raised.
    pub total_amount_raised: Usd,
    /// The goal for money raised.
    pub goal: Usd,
    /// The campaign's milestones, in received order (possibly empty).
    pub milestones: Vec<Milestone>,
}

/// The mathematical shape of a [`Campaign`].
pub struct CampaignV {
    /// The campaign's display title.
    pub name: Seq<char>,
    /// The long-form prose description.
    pub description: Seq<char>,
    /// The raised amount, in cents.
    pub total_amount_raised: int,
    /// The target amount, in cents.
    pub goal: int,
    /// The milestones, in received order.
    pub milestones: Seq<MilestoneV>,
}

/// The element-wise mathematical shape of a milestone listing.
pub open spec fn milestones_view(ms: Seq<Milestone>) -> Seq<MilestoneV> {
    Seq::new(ms.len(), |i: int| ms[i]@)
}

impl View for Campaign {
    type V = CampaignV;

    open spec fn view(&self) -> CampaignV {
        CampaignV {
            name: self.name@,
            description: self.description@,
            total_amount_raised: self.total_amount_raised@,
            goal: self.goal@,
            milestones: milestones_view(self.milestones@),
        }
    }
}

/// A 1-based line and column pointer into the outgoing query text.
#[derive(Clone, Copy, Debug, PartialEq, Eq)]
pub struct Location {
    /// The 1-based line.
    pub line: u64,
    /// The 1-based column.
    pub column: u64,
}

/// A remote error descriptor: a message and where it applies.
#[derive(Clone, Debug, PartialEq, Eq)]
pub struct ApiError {
    /// The server's message.
    pub message: String,
    /// Source locations in the outgoing query, possibly empty.
    pub locations: Vec<Location>,
}

/// The mathematical shape of an [`ApiError`].
pub struct ApiErrorV {
    /// The server's message.
    pub message: Seq<char>,
    /// Source locations, in received order.
    pub locations: Seq<Location>,
}

impl View for ApiError {
    type V = ApiErrorV;

    open spec fn view(&self) -> ApiErrorV {
        ApiErrorV { message: self.message@, locations: self.locations@ }
    }
}

/// The element-wise mathematical shape of a remote error listing.
pub open spec fn errors_view(es: Seq<ApiError>) -> Seq<ApiErrorV> {
    Seq::new(es.len(), |i: int| es[i]@)
}

/// The formatted line of a remote error: `"~ <message>"` where it carries no
/// location, else `"~:<line>:<column> <message>"` using the first location.
pub open spec fn spec_error_line(e: ApiErrorV) -> Seq<char> {
    if e.locations.len() == 0 {
        "~ "@ + e.message
    } else {
        "~:"@ + spec_dec(e.locations[0].line as nat) + ":"@ + spec_dec(
            e.locations[0].column as nat,
        ) + " "@ + e.message
    }
}

impl ApiError {
    /// Renders this error on one line, by the rule of [`spec_error_line`].
    pub fn format_line(&self) -> (r: String)
        ensures
            r@ == spec_error_line(self@),
    {
        let mut r = String::new();
        if self.locations.len() == 0 {
            r.append("~ ");
            r.append(self.message.as_str());
            proof {
                assert(r@ =~= spec_error_line(self@));
            }
        } else {
            let loc = self.locations[0];
            r.append("~:");
            push_dec(&mut r, loc.line as u128);
            r.append(":");
            push_dec(&mut r, loc.column as u128);
            r.append(" ");
            r.append(self.message.as_str());
            proof {
                assert(r@ =~= spec_error_line(self@));
            }
        }
        r
    }
}

} // verus!
