//! Decoding the "data or errors" response envelope into a [`Campaign`].
//!
//! The wire reply is a JSON object with two optional slots: `data`, wrapping
//! a `campaign`, and `errors`, a listing of remote error descriptors.  Where
//! `data` is present and non-null its campaign is decoded; otherwise the
//! errors are composed into a report, in received order; where neither is
//! present the reply counts as empty.

use vstd::prelude::*;

use crate::currency::{spec_decode_usd, Usd};
use crate::errors::{DecodeError, ErrorV};
use crate::json::{json_of, jv_get, jvs_of, parse_json, spec_lookup, Json, Jv};
use crate::model::{
    errors_view, milestones_view, spec_error_line, ApiError, ApiErrorV, Campaign, CampaignV,
    Location, Milestone, MilestoneV,
};

verus! {

/// What decoding a milestone object yields: its `name` as the description
/// and its `amount` as a currency object, both required.
pub open spec fn spec_decode_milestone(j: Jv) -> Result<MilestoneV, ErrorV> {
    match jv_get(j, "name"@) {
        Some(Jv::Str(d)) => match jv_get(j, "amount"@) {
            Some(a) => match spec_decode_usd(a) {
                Ok(c) => Ok(MilestoneV { description: d, amount: c }),
                Err(e) => Err(e),
            },
            None => Err(ErrorV::MalformedResponse),
        },
        Some(_) => Err(ErrorV::MalformedResponse),
        None => Err(ErrorV::MalformedResponse),
    }
}

/// What decoding a location object yields: its 1-based `line` and `column`,
/// both required unsigned numbers.
pub open spec fn spec_decode_location(j: Jv) -> Result<Location, ErrorV> {
    match jv_get(j, "line"@) {
        Some(Jv::Num(l)) => match jv_get(j, "column"@) {
            Some(Jv::Num(c)) => Ok(Location { line: l, column: c }),
            Some(_) => Err(ErrorV::MalformedResponse),
            None => Err(ErrorV::MalformedResponse),
        },
        Some(_) => Err(ErrorV::MalformedResponse),
        None => Err(ErrorV::MalformedResponse),
    }
}

/// Decodes a listing element-wise, in received order; the first element that
/// fails decides the error.
pub open spec fn spec_decode_list<T>(
    items: Seq<Jv>,
    f: spec_fn(Jv) -> Result<T, ErrorV>,
) -> Result<Seq<T>, ErrorV>
    decreases items.len(),
{
    if items.len() == 0 {
        Ok(Seq::empty())
    } else {
        match f(items[0]) {
            Err(e) => Err(e),
            Ok(m) => match spec_decode_list(items.drop_first(), f) {
                Err(e) => Err(e),
                Ok(ms) => Ok(Seq::empty().push(m) + ms),
            },
        }
    }
}

/// The element decoder of a milestone listing.
pub open spec fn milestone_dec() -> spec_fn(Jv) -> Result<MilestoneV, ErrorV> {
    |j: Jv| spec_decode_milestone(j)
}

/// The element decoder of a location listing.
pub open spec fn location_dec() -> spec_fn(Jv) -> Result<Location, ErrorV> {
    |j: Jv| spec_decode_location(j)
}

/// What decoding a milestone listing yields.
pub open spec fn spec_decode_milestones(items: Seq<Jv>) -> Result<Seq<MilestoneV>, ErrorV> {
    spec_decode_list(items, milestone_dec())
}

/// What decoding a location listing yields.
pub open spec fn spec_decode_locations(items: Seq<Jv>) -> Result<Seq<Location>, ErrorV> {
    spec_decode_list(items, location_dec())
}

/// What decoding a remote error object yields: its `message`, required, and
/// its `locations`, an optional listing read as empty where missing.
pub open spec fn spec_decode_error(j: Jv) -> Result<ApiErrorV, ErrorV> {
    match jv_get(j, "message"@) {
        Some(Jv::Str(m)) => match jv_get(j, "locations"@) {
            None => Ok(ApiErrorV { message: m, locations: Seq::empty() }),
            Some(Jv::Arr(ls)) => match spec_decode_locations(ls) {
                Ok(locs) => Ok(ApiErrorV { message: m, locations: locs }),
                Err(e) => Err(e),
            },
            Some(_) => Err(ErrorV::MalformedResponse),
        },
        Some(_) => Err(ErrorV::MalformedResponse),
        None => Err(ErrorV::MalformedResponse),
    }
}

/// The element decoder of a remote error listing.
pub open spec fn error_dec() -> spec_fn(Jv) -> Result<ApiErrorV, ErrorV> {
    |j: Jv| spec_decode_error(j)
}

/// What decoding a remote error listing yields.
pub open spec fn spec_decode_errors(items: Seq<Jv>) -> Result<Seq<ApiErrorV>, ErrorV> {
    spec_decode_list(items, error_dec())
}

/// What decoding a campaign object yields: `name`, `description`, the two
/// currency slots, and an optional milestone listing read as empty where
/// missing.  Any field outside the model is ignored.
pub open spec fn spec_decode_campaign(j: Jv) -> Result<CampaignV, ErrorV> {
    match jv_get(j, "name"@) {
        Some(Jv::Str(name)) => match jv_get(j, "description"@) {
            Some(Jv::Str(description)) => match jv_get(j, "totalAmountRaised"@) {
                Some(t) => match spec_decode_usd(t) {
                    Ok(raised) => match jv_get(j, "goal"@) {
                        Some(g) => match spec_decode_usd(g) {
                            Ok(goal) => match jv_get(j, "milestones"@) {
                                None => Ok(
                                    CampaignV {
                                        name,
                                        description,
                                        total_amount_raised: raised,
                                        goal,
                                        milestones: Seq::empty(),
                                    },
                                ),
                                Some(Jv::Arr(items)) => match spec_decode_milestones(items) {
                                    Ok(ms) => Ok(
                                        CampaignV {
                                            name,
                                            description,
                                            total_amount_raised: raised,
                                            goal,
                                            milestones: ms,
                                        },
                                    ),
                                    Err(e) => Err(e),
                                },
                                Some(_) => Err(ErrorV::MalformedResponse),
                            },
                            Err(e) => Err(e),
                        },
                        None => Err(ErrorV::MalformedResponse),
                    },
                    Err(e) => Err(e),
                },
                None => Err(ErrorV::MalformedResponse),
            },
            Some(_) => Err(ErrorV::MalformedResponse),
            None => Err(ErrorV::MalformedResponse),
        },
        Some(_) => Err(ErrorV::MalformedResponse),
        None => Err(ErrorV::MalformedResponse),
    }
}

/// The error lines joined by single newlines, in received order.
pub open spec fn spec_joined(errs: Seq<ApiErrorV>) -> Seq<char>
    decreases errs.len(),
{
    if errs.len() == 0 {
        Seq::empty()
    } else if errs.len() == 1 {
        spec_error_line(errs[0])
    } else {
        spec_joined(errs.drop_last()) + "\n"@ + spec_error_line(errs.last())
    }
}

/// The composed report of a remote failure: its heading, then one formatted
/// error per line.
pub open spec fn spec_report(errs: Seq<ApiErrorV>) -> Seq<char> {
    "Campaign Query failed:\n"@ + spec_joined(errs)
}

/// What the errors slot of an envelope without campaign data yields: the
/// composed report, or an empty reply where no error is listed either.
pub open spec fn spec_errors_branch(j: Jv) -> Result<CampaignV, ErrorV> {
    match jv_get(j, "errors"@) {
        None => Err(ErrorV::EmptyResponse),
        Some(Jv::Arr(es)) => if es.len() == 0 {
            Err(ErrorV::EmptyResponse)
        } else {
            match spec_decode_errors(es) {
                Ok(errs) => Err(ErrorV::RemoteError(spec_report(errs))),
                Err(e) => Err(e),
            }
        },
        Some(_) => Err(ErrorV::MalformedResponse),
    }
}

/// What decoding the envelope yields: the campaign under a present, non-null
/// `data`, else whatever the errors slot is owed.
pub open spec fn spec_decode_envelope(j: Jv) -> Result<CampaignV, ErrorV> {
    if !(j is Obj) {
        Err(ErrorV::MalformedResponse)
    } else {
        match jv_get(j, "data"@) {
            Some(d) => if !(d is Null) {
                match jv_get(d, "campaign"@) {
                    Some(c) => spec_decode_campaign(c),
                    None => Err(ErrorV::MalformedResponse),
                }
            } else {
                spec_errors_branch(j)
            },
            None => spec_errors_branch(j),
        }
    }
}

/// What decoding a response body yields: a parse failure is malformed, a
/// parsed tree goes through the envelope.
pub open spec fn spec_decode_response(s: Seq<char>) -> Result<CampaignV, ErrorV> {
    match json_of(s) {
        None => Err(ErrorV::MalformedResponse),
        Some(j) => spec_decode_envelope(j),
    }
}

proof fn lemma_decode_list_snoc<T>(s: Seq<Jv>, x: Jv, f: spec_fn(Jv) -> Result<T, ErrorV>)
    ensures
        spec_decode_list(s.push(x), f) == (match spec_decode_list(s, f) {
            Ok(ms) => (match f(x) {
                Ok(m) => Ok::<Seq<T>, ErrorV>(ms.push(m)),
                Err(e) => Err::<Seq<T>, ErrorV>(e),
            }),
            Err(e) => Err::<Seq<T>, ErrorV>(e),
        }),
    decreases s.len(),
{
    if s.len() == 0 {
        reveal_with_fuel(spec_decode_list, 2);
        assert(s.push(x)[0] == x);
        assert(s.push(x).drop_first() =~= Seq::<Jv>::empty());
        if f(x) is Ok {
            assert(Seq::<T>::empty().push(f(x)->Ok_0) + Seq::<T>::empty() =~= Seq::<
                T,
            >::empty().push(f(x)->Ok_0));
        }
    } else {
        assert(s.push(x)[0] == s[0]);
        assert(s.push(x).drop_first() =~= s.drop_first().push(x));
        lemma_decode_list_snoc(s.drop_first(), x, f);
        if f(s[0]) is Ok && spec_decode_list(s.drop_first(), f) is Ok && f(x) is Ok {
            let m = f(s[0])->Ok_0;
            let ms = spec_decode_list(s.drop_first(), f)->Ok_0;
            let m2 = f(x)->Ok_0;
            assert((Seq::<T>::empty().push(m) + ms).push(m2) =~= Seq::<T>::empty().push(m) + (
            ms.push(m2)));
        }
    }
}

/// Decodes one milestone object.
pub fn decode_milestone(j: &Json) -> (r: Result<Milestone, DecodeError>)
    ensures
        (match r {
            Ok(m) => Ok::<MilestoneV, ErrorV>(m@),
            Err(e) => Err::<MilestoneV, ErrorV>(e@),
        }) == spec_decode_milestone(j.jv()),
{
    let description = match j.get("name") {
        Some(v) => match v.as_str() {
            Some(s) => s.clone(),
            None => {
                return Err(DecodeError::MalformedResponse);
            },
        },
        None => {
            return Err(DecodeError::MalformedResponse);
        },
    };
    let amount = match j.get("amount") {
        Some(a) => match Usd::decode(a) {
            Ok(u) => u,
            Err(e) => {
                return Err(e);
            },
        },
        None => {
            return Err(DecodeError::MalformedResponse);
        },
    };
    Ok(Milestone { description, amount })
}

/// Decodes a milestone listing, in received order.
pub fn decode_milestones(items: &Vec<Json>) -> (r: Result<Vec<Milestone>, DecodeError>)
    ensures
        (match r {
            Ok(ms) => Ok::<Seq<MilestoneV>, ErrorV>(milestones_view(ms@)),
            Err(e) => Err::<Seq<MilestoneV>, ErrorV>(e@),
        }) == spec_decode_milestones(jvs_of(items@)),
{
    let ghost jvs = jvs_of(items@);
    let mut acc: Vec<Milestone> = Vec::new();
    proof {
        assert(jvs.take(0) =~= Seq::<Jv>::empty());
        assert(milestones_view(acc@) =~= Seq::<MilestoneV>::empty());
    }
    let n = items.len();
    for i in 0..n
        invariant
            n == items@.len(),
            jvs == jvs_of(items@),
            spec_decode_milestones(jvs.take(i as int)) == Ok::<Seq<MilestoneV>, ErrorV>(
                milestones_view(acc@),
            ),
    {
        let ghost old_acc = acc@;
        match decode_milestone(&items[i]) {
            Ok(m) => {
                let ghost mv = m@;
                acc.push(m);
                proof {
                    assert(jvs[i as int] == items@[i as int].jv());
                    lemma_decode_list_snoc(jvs.take(i as int), jvs[i as int], milestone_dec());
                    assert(jvs.take(i as int).push(jvs[i as int]) =~= jvs.take(i as int + 1));
                    assert(milestones_view(acc@) =~= milestones_view(old_acc).push(mv));
                }
            },
            Err(e) => {
                proof {
                    assert(jvs[i as int] == items@[i as int].jv());
                    lemma_decode_list_snoc(jvs.take(i as int), jvs[i as int], milestone_dec());
                    assert(jvs.take(i as int).push(jvs[i as int]) =~= jvs.take(i as int + 1));
                    lemma_decode_list_err(jvs, i as int + 1, milestone_dec());
                }
                return Err(e);
            },
        }
    }
    proof {
        assert(jvs.take(n as int) =~= jvs);
    }
    Ok(acc)
}

/// Decodes one location object.
pub fn decode_location(j: &Json) -> (r: Result<Location, DecodeError>)
    ensures
        (match r {
            Ok(l) => Ok::<Location, ErrorV>(l),
            Err(e) => Err::<Location, ErrorV>(e@),
        }) == spec_decode_location(j.jv()),
{
    let line = match j.get("line") {
        Some(v) => match v.as_num() {
            Some(n) => n,
            None => {
                return Err(DecodeError::MalformedResponse);
            },
        },
        None => {
            return Err(DecodeError::MalformedResponse);
        },
    };
    let column = match j.get("column") {
        Some(v) => match v.as_num() {
            Some(n) => n,
            None => {
                return Err(DecodeError::MalformedResponse);
            },
        },
        None => {
            return Err(DecodeError::MalformedResponse);
        },
    };
    Ok(Location { line, column })
}

/// Decodes a location listing, in received order.
pub fn decode_locations(items: &Vec<Json>) -> (r: Result<Vec<Location>, DecodeError>)
    ensures
        (match r {
            Ok(ls) => Ok::<Seq<Location>, ErrorV>(ls@),
            Err(e) => Err::<Seq<Location>, ErrorV>(e@),
        }) == spec_decode_locations(jvs_of(items@)),
{
    let ghost jvs = jvs_of(items@);
    let mut acc: Vec<Location> = Vec::new();
    proof {
        assert(jvs.take(0) =~= Seq::<Jv>::empty());
        assert(acc@ =~= Seq::<Location>::empty());
    }
    let n = items.len();
    for i in 0..n
        invariant
            n == items@.len(),
            jvs == jvs_of(items@),
            spec_decode_locations(jvs.take(i as int)) == Ok::<Seq<Location>, ErrorV>(acc@),
    {
        match decode_location(&items[i]) {
            Ok(l) => {
                acc.push(l);
                proof {
                    assert(jvs[i as int] == items@[i as int].jv());
                    lemma_decode_list_snoc(jvs.take(i as int), jvs[i as int], location_dec());
                    assert(jvs.take(i as int).push(jvs[i as int]) =~= jvs.take(i as int + 1));
                }
            },
            Err(e) => {
                proof {
                    assert(jvs[i as int] == items@[i as int].jv());
                    lemma_decode_list_snoc(jvs.take(i as int), jvs[i as int], location_dec());
                    assert(jvs.take(i as int).push(jvs[i as int]) =~= jvs.take(i as int + 1));
                    lemma_decode_list_err(jvs, i as int + 1, location_dec());
                }
                return Err(e);
            },
        }
    }
    proof {
        assert(jvs.take(n as int) =~= jvs);
    }
    Ok(acc)
}

/// Decodes one remote error object.
pub fn decode_api_error(j: &Json) -> (r: Result<ApiError, DecodeError>)
    ensures
        (match r {
            Ok(a) => Ok::<ApiErrorV, ErrorV>(a@),
            Err(e) => Err::<ApiErrorV, ErrorV>(e@),
        }) == spec_decode_error(j.jv()),
{
    let message = match j.get("message") {
        Some(v) => match v.as_str() {
            Some(s) => s.clone(),
            None => {
                return Err(DecodeError::MalformedResponse);
            },
        },
        None => {
            return Err(DecodeError::MalformedResponse);
        },
    };
    let locations = match j.get("locations") {
        None => Vec::new(),
        Some(v) => match v.as_arr() {
            Some(ls) => {
                proof {
                    assert(jvs_of(ls@) =~= v.jv()->Arr_0);
                }
                match decode_locations(ls) {
                    Ok(l) => l,
                    Err(e) => {
                        return Err(e);
                    },
                }
            },
            None => {
                return Err(DecodeError::MalformedResponse);
            },
        },
    };
    Ok(ApiError { message, locations })
}

/// Decodes a remote error listing, in received order.
pub fn decode_errors(items: &Vec<Json>) -> (r: Result<Vec<ApiError>, DecodeError>)
    ensures
        (match r {
            Ok(es) => Ok::<Seq<ApiErrorV>, ErrorV>(errors_view(es@)),
            Err(e) => Err::<Seq<ApiErrorV>, ErrorV>(e@),
        }) == spec_decode_errors(jvs_of(items@)),
{
    let ghost jvs = jvs_of(items@);
    let mut acc: Vec<ApiError> = Vec::new();
    proof {
        assert(jvs.take(0) =~= Seq::<Jv>::empty());
        assert(errors_view(acc@) =~= Seq::<ApiErrorV>::empty());
    }
    let n = items.len();
    for i in 0..n
        invariant
            n == items@.len(),
            jvs == jvs_of(items@),
            spec_decode_errors(jvs.take(i as int)) == Ok::<Seq<ApiErrorV>, ErrorV>(
                errors_view(acc@),
            ),
    {
        let ghost old_acc = acc@;
        match decode_api_error(&items[i]) {
            Ok(a) => {
                let ghost av = a@;
                acc.push(a);
                proof {
                    assert(jvs[i as int] == items@[i as int].jv());
                    lemma_decode_list_snoc(jvs.take(i as int), jvs[i as int], error_dec());
                    assert(jvs.take(i as int).push(jvs[i as int]) =~= jvs.take(i as int + 1));
                    assert(errors_view(acc@) =~= errors_view(old_acc).push(av));
                }
            },
            Err(e) => {
                proof {
                    assert(jvs[i as int] == items@[i as int].jv());
                    lemma_decode_list_snoc(jvs.take(i as int), jvs[i as int], error_dec());
                    assert(jvs.take(i as int).push(jvs[i as int]) =~= jvs.take(i as int + 1));
                    lemma_decode_list_err(jvs, i as int + 1, error_dec());
                }
                return Err(e);
            },
        }
    }
    proof {
        assert(jvs.take(n as int) =~= jvs);
    }
    Ok(acc)
}

/// Decodes one campaign object.
pub fn decode_campaign(j: &Json) -> (r: Result<Campaign, DecodeError>)
    ensures
        (match r {
            Ok(c) => Ok::<CampaignV, ErrorV>(c@),
            Err(e) => Err::<CampaignV, ErrorV>(e@),
        }) == spec_decode_campaign(j.jv()),
{
    let name = match j.get("name") {
        Some(v) => match v.as_str() {
            Some(s) => s.clone(),
            None => {
                return Err(DecodeError::MalformedResponse);
            },
        },
        None => {
            return Err(DecodeError::MalformedResponse);
        },
    };
    let description = match j.get("description") {
        Some(v) => match v.as_str() {
            Some(s) => s.clone(),
            None => {
                return Err(DecodeError::MalformedResponse);
            },
        },
        None => {
            return Err(DecodeError::MalformedResponse);
        },
    };
    let total_amount_raised = match j.get("totalAmountRaised") {
        Some(v) => match Usd::decode(v) {
            Ok(u) => u,
            Err(e) => {
                return Err(e);
            },
        },
        None => {
            return Err(DecodeError::MalformedResponse);
        },
    };
    let goal = match j.get("goal") {
        Some(v) => match Usd::decode(v) {
            Ok(u) => u,
            Err(e) => {
                return Err(e);
            },
        },
        None => {
            return Err(DecodeError::MalformedResponse);
        },
    };
    let milestones = match j.get("milestones") {
        None => {
            let ms: Vec<Milestone> = Vec::new();
            proof {
                assert(milestones_view(ms@) =~= Seq::<MilestoneV>::empty());
            }
            ms
        },
        Some(v) => match v.as_arr() {
            Some(items) => {
                proof {
                    assert(jvs_of(items@) =~= v.jv()->Arr_0);
                }
                match decode_milestones(items) {
                    Ok(ms) => ms,
                    Err(e) => {
                        return Err(e);
                    },
                }
            },
            None => {
                return Err(DecodeError::MalformedResponse);
            },
        },
    };
    Ok(Campaign { name, description, total_amount_raised, goal, milestones })
}

/// Composes the remote failure report: the heading, then one formatted error
/// per line, in received order.
pub fn compose_report(errs: &Vec<ApiError>) -> (r: String)
    ensures
        r@ == spec_report(errors_view(errs@)),
{
    let mut r = String::new();
    r.append("Campaign Query failed:\n");
    proof {
        assert(errors_view(errs@).take(0) =~= Seq::<ApiErrorV>::empty());
        assert(r@ =~= "Campaign Query failed:\n"@ + spec_joined(errors_view(errs@).take(0)));
    }
    let n = errs.len();
    for i in 0..n
        invariant
            n == errs@.len(),
            r@ == "Campaign Query failed:\n"@ + spec_joined(errors_view(errs@).take(i as int)),
    {
        if i > 0 {
            r.append("\n");
        }
        let line = errs[i].format_line();
        r.append(line.as_str());
        proof {
            let evs = errors_view(errs@);
            assert(evs[i as int] == errs@[i as int]@);
            if i == 0 {
                assert(evs.take(1)[0] == evs[0]);
                assert(r@ =~= "Campaign Query failed:\n"@ + spec_joined(evs.take(1)));
            } else {
                assert(evs.take(i as int + 1).drop_last() =~= evs.take(i as int));
                assert(evs.take(i as int + 1).last() == evs[i as int]);
                assert(r@ =~= "Campaign Query failed:\n"@ + spec_joined(evs.take(i as int + 1)));
            }
        }
    }
    proof {
        assert(errors_view(errs@).take(n as int) =~= errors_view(errs@));
    }
    r
}

/// Decodes the errors slot of an envelope without campaign data.
fn decode_errors_branch(j: &Json) -> (r: Result<Campaign, DecodeError>)
    ensures
        (match r {
            Ok(c) => Ok::<CampaignV, ErrorV>(c@),
            Err(e) => Err::<CampaignV, ErrorV>(e@),
        }) == spec_errors_branch(j.jv()),
{
    match j.get("errors") {
        None => Err(DecodeError::EmptyResponse),
        Some(v) => match v.as_arr() {
            Some(es) => {
                proof {
                    assert(jvs_of(es@) =~= v.jv()->Arr_0);
                }
                if es.len() == 0 {
                    Err(DecodeError::EmptyResponse)
                } else {
                    match decode_errors(es) {
                        Ok(errs) => {
                            let report = compose_report(&errs);
                            Err(DecodeError::RemoteError(report))
                        },
                        Err(e) => Err(e),
                    }
                }
            },
            None => Err(DecodeError::MalformedResponse),
        },
    }
}

/// Decodes the response envelope: the campaign under a present, non-null
/// `data`; else the remote errors as a composed report, or `EmptyResponse`
/// where no error is listed either.
pub fn decode_envelope(j: &Json) -> (r: Result<Campaign, DecodeError>)
    ensures
        (match r {
            Ok(c) => Ok::<CampaignV, ErrorV>(c@),
            Err(e) => Err::<CampaignV, ErrorV>(e@),
        }) == spec_decode_envelope(j.jv()),
{
    let is_obj = match j {
        Json::Obj(_) => true,
        _ => false,
    };
    if !is_obj {
        return Err(DecodeError::MalformedResponse);
    }
    match j.get("data") {
        Some(d) => {
            if !d.is_null() {
                match d.get("campaign") {
                    Some(c) => decode_campaign(c),
                    None => Err(DecodeError::MalformedResponse),
                }
            } else {
                decode_errors_branch(j)
            }
        },
        None => decode_errors_branch(j),
    }
}

/// Decodes a response body: parses it as JSON and decodes the envelope.
/// Fails with `MalformedResponse` where the body is not valid JSON.
pub fn decode_response(body: &str) -> (r: Result<Campaign, DecodeError>)
    ensures
        (match r {
            Ok(c) => Ok::<CampaignV, ErrorV>(c@),
            Err(e) => Err::<CampaignV, ErrorV>(e@),
        }) == spec_decode_response(body@),
{
    match parse_json(body) {
        None => Err(DecodeError::MalformedResponse),
        Some(j) => decode_envelope(&j),
    }
}

/// Where `data` is present and non-null and wraps a campaign, the envelope
/// decodes to exactly that campaign's decoding, whatever the errors slot
/// holds — absent, empty or filled.
pub proof fn lemma_envelope_takes_data(fields: Seq<(Seq<char>, Jv)>, d: Jv, c: Jv)
    requires
        spec_lookup(fields, "data"@) == Some(d),
        !(d is Null),
        jv_get(d, "campaign"@) == Some(c),
    ensures
        spec_decode_envelope(Jv::Obj(fields)) == spec_decode_campaign(c),
{
}

/// Where `data` is absent or null and the errors slot lists entries, the
/// envelope surfaces the remote report composed from those entries, in
/// received order.
pub proof fn lemma_envelope_reports_errors(
    fields: Seq<(Seq<char>, Jv)>,
    es: Seq<Jv>,
    errs: Seq<ApiErrorV>,
)
    requires
        spec_lookup(fields, "data"@) is None || spec_lookup(fields, "data"@) == Some(Jv::Null),
        spec_lookup(fields, "errors"@) == Some(Jv::Arr(es)),
        es.len() > 0,
        spec_decode_errors(es) == Ok::<Seq<ApiErrorV>, ErrorV>(errs),
    ensures
        spec_decode_envelope(Jv::Obj(fields)) == Err::<CampaignV, ErrorV>(
            ErrorV::RemoteError(spec_report(errs)),
        ),
{
}

/// A campaign payload without a `milestones` field decodes to a campaign
/// with no milestones.
pub proof fn lemma_default_milestones(fields: Seq<(Seq<char>, Jv)>, c: CampaignV)
    requires
        spec_lookup(fields, "milestones"@) is None,
        spec_decode_campaign(Jv::Obj(fields)) == Ok::<CampaignV, ErrorV>(c),
    ensures
        c.milestones == Seq::<MilestoneV>::empty(),
{
}

/// Decoding a campaign reads only the five modeled fields: two payloads that
/// agree on them decode alike, whatever other fields either carries.
pub proof fn lemma_extra_fields_ignored(f1: Seq<(Seq<char>, Jv)>, f2: Seq<(Seq<char>, Jv)>)
    requires
        spec_lookup(f1, "name"@) == spec_lookup(f2, "name"@),
        spec_lookup(f1, "description"@) == spec_lookup(f2, "description"@),
        spec_lookup(f1, "totalAmountRaised"@) == spec_lookup(f2, "totalAmountRaised"@),
        spec_lookup(f1, "goal"@) == spec_lookup(f2, "goal"@),
        spec_lookup(f1, "milestones"@) == spec_lookup(f2, "milestones"@),
    ensures
        spec_decode_campaign(Jv::Obj(f1)) == spec_decode_campaign(Jv::Obj(f2)),
{
}

proof fn lemma_decode_list_err<T>(s: Seq<Jv>, i: int, f: spec_fn(Jv) -> Result<T, ErrorV>)
    requires
        0 <= i <= s.len(),
        spec_decode_list(s.take(i), f) is Err,
    ensures
        spec_decode_list(s, f) == spec_decode_list(s.take(i), f),
    decreases i,
{
    if i == 0 {
        assert(s.take(0) =~= Seq::<Jv>::empty());
    } else {
        assert(s.take(i)[0] == s[0]);
        if f(s[0]) is Ok {
            assert(s.take(i).drop_first() =~= s.drop_first().take(i - 1));
            lemma_decode_list_err(s.drop_first(), i - 1, f);
        }
    }
}

} // verus!
