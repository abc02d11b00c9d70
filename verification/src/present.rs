//! Presenting a campaign: sorting milestones by amount and rendering the
//! progress lines that a front end prints.

use vstd::prelude::*;

use crate::currency::{spec_usd_str, Usd};
use crate::model::{milestones_view, Campaign, Milestone, MilestoneV};
use crate::text::{digit_char, pad_left, push_char, push_dec, spec_dec, spec_digit, spec_pad_left};

verus! {

broadcast use vstd::seq_lib::group_to_multiset_ensures, vstd::seq_lib::to_multiset_insert;

/// The sort key of an amount: its cents, with a negative count clamped to
/// zero by the unsigned cast.
pub open spec fn spec_sort_key(amount: int) -> int {
    if amount < 0 {
        0
    } else {
        amount
    }
}

/// Whether the milestones stand in ascending order of sort key.
pub open spec fn milestones_sorted(ms: Seq<MilestoneV>) -> bool {
    forall|i: int, j: int|
        0 <= i < j < ms.len() ==> spec_sort_key(ms[i].amount) <= spec_sort_key(ms[j].amount)
}

/// The sort key of a milestone.
fn key_of(m: &Milestone) -> (k: u64)
    ensures
        k as int == spec_sort_key(m@.amount),
{
    let c = m.amount.usd();
    if c < 0 {
        0
    } else {
        c as u64
    }
}

proof fn lemma_view_remove_insert(s: Seq<Milestone>, i: int, j: int)
    requires
        0 <= j <= i < s.len(),
    ensures
        ({
            let t = s.remove(i).insert(j, s[i]);
            &&& t.len() == s.len()
            &&& milestones_view(t).to_multiset() == milestones_view(s).to_multiset()
            &&& (forall|k: int| 0 <= k < j ==> milestones_view(t)[k] == milestones_view(s)[k])
            &&& milestones_view(t)[j] == milestones_view(s)[i]
            &&& (forall|k: int|
                j < k <= i ==> milestones_view(t)[k] == milestones_view(s)[k - 1])
            &&& (forall|k: int|
                i < k < s.len() ==> milestones_view(t)[k] == milestones_view(s)[k])
        }),
{
    let r = s.remove(i);
    let t = r.insert(j, s[i]);
    s.remove_ensures(i);
    r.insert_ensures(j, s[i]);
    assert forall|k: int| 0 <= k < j implies milestones_view(t)[k] == milestones_view(s)[k] by {
        assert(t[k] == r[k]);
        assert(r[k] == s[k]);
    }
    assert(t[j] == s[i]);
    assert forall|k: int| j < k <= i implies milestones_view(t)[k] == milestones_view(s)[k - 1] by {
        assert(t[k] == r[k - 1]);
        if k - 1 < i {
            assert(r[k - 1] == s[k - 1]);
        } else {
            assert(r[k - 1] == s[k]);
        }
    }
    assert forall|k: int| i < k < s.len() implies milestones_view(t)[k] == milestones_view(s)[k] by {
        assert(t[k] == r[k - 1]);
        assert(r[k - 1] == s[k]);
    }
    // The multiset is unchanged: removing the element and inserting it back.
    let vs = milestones_view(s);
    let vr = milestones_view(r);
    let vt = milestones_view(t);
    assert(vr =~= vs.remove(i)) by {
        assert forall|k: int| 0 <= k < vr.len() implies vr[k] == vs.remove(i)[k] by {
            vs.remove_ensures(i);
            if k < i {
                assert(r[k] == s[k]);
            } else {
                assert(r[k] == s[k + 1]);
            }
        }
    }
    assert(vt =~= vr.insert(j, vs[i])) by {
        vr.insert_ensures(j, vs[i]);
        assert forall|k: int| 0 <= k < vt.len() implies vt[k] == vr.insert(j, vs[i])[k] by {
            if k < j {
            } else if k == j {
            } else if k <= i {
                assert(vt[k] == vs[k - 1]);
                assert(vr.insert(j, vs[i])[k] == vr[k - 1]);
                assert(vr[k - 1] == vs[k - 1]);
            } else {
                assert(vt[k] == vs[k]);
                assert(vr.insert(j, vs[i])[k] == vr[k - 1]);
                assert(vr[k - 1] == vs[k]);
            }
        }
    }
    assert(vt.to_multiset() == vr.to_multiset().insert(vs[i]));
    assert(vr.to_multiset() =~= vs.to_multiset().remove(vs[i]));
    assert(vs.contains(vs[i]));
    assert(vs.to_multiset().count(vs[i]) > 0);
    assert(vs.to_multiset().remove(vs[i]).insert(vs[i]) =~= vs.to_multiset());
}

/// Sorts the milestones in ascending order of amount, the way the consumer
/// of a fetched campaign orders them before rendering.  The listing after
/// the call holds exactly the milestones it held before.
pub fn sort_milestones(ms: &mut Vec<Milestone>)
    ensures
        milestones_view(final(ms)@).to_multiset() == milestones_view(old(ms)@).to_multiset(),
        milestones_sorted(milestones_view(final(ms)@)),
{
    let n = ms.len();
    if n == 0 {
        return ;
    }
    for i in 1..n
        invariant
            1 <= i <= n,
            ms@.len() == n,
            milestones_view(ms@).to_multiset() == milestones_view(old(ms)@).to_multiset(),
            milestones_sorted(milestones_view(ms@).take(i as int)),
    {
        let ki = key_of(&ms[i]);
        let mut j: usize = i;
        while j > 0 && key_of(&ms[j - 1]) > ki
            invariant
                0 <= j <= i < n,
                ms@.len() == n,
                ki as int == spec_sort_key(milestones_view(ms@)[i as int].amount),
                forall|idx: int|
                    j <= idx < i ==> spec_sort_key(
                        #[trigger] milestones_view(ms@)[idx].amount,
                    ) > ki as int,
            decreases j,
        {
            j -= 1;
        }
        let ghost vold_seq = ms@;
        let ghost vold = milestones_view(ms@);
        if j < i {
            let x = ms.remove(i);
            ms.insert(j, x);
            proof {
                lemma_view_remove_insert(vold_seq, i as int, j as int);
            }
        }
        proof {
            let vnew = milestones_view(ms@);
            // The sorted-prefix invariant, restated over direct indices.
            assert forall|p: int, q: int|
                0 <= p < q < i implies spec_sort_key(#[trigger] vold[p].amount) <= spec_sort_key(
                #[trigger] vold[q].amount,
            ) by {
                assert(vold.take(i as int)[p] == vold[p]);
                assert(vold.take(i as int)[q] == vold[q]);
            }
            // The inner scan's exit: the element before slot `j` is no larger.
            assert(j == 0 || spec_sort_key(vold[j - 1].amount) <= ki as int);
            assert forall|a: int, b: int|
                0 <= a < b < i + 1 implies spec_sort_key(#[trigger] vnew[a].amount)
                <= spec_sort_key(#[trigger] vnew[b].amount) by {
                if j < i {
                    let x = vold[i as int];
                    assert(ki as int == spec_sort_key(x.amount));
                    if b < j {
                        // both untouched, inside the sorted prefix
                        assert(vnew[a] == vold[a]);
                        assert(vnew[b] == vold[b]);
                    } else if b == j {
                        // a < j: prefix element against the inserted one
                        assert(vnew[a] == vold[a]);
                        assert(vnew[b] == x);
                        assert(spec_sort_key(vold[a].amount) <= spec_sort_key(
                            vold[j - 1].amount,
                        ));
                    } else if a < j {
                        // untouched against a shifted element
                        assert(vnew[a] == vold[a]);
                        assert(vnew[b] == vold[b - 1]);
                        if a < b - 1 {
                            assert(spec_sort_key(vold[a].amount) <= spec_sort_key(
                                vold[b - 1].amount,
                            ));
                        }
                    } else if a == j {
                        // the inserted element against a shifted one
                        assert(vnew[a] == x);
                        assert(vnew[b] == vold[b - 1]);
                        assert(spec_sort_key(vold[b - 1].amount) > ki as int);
                    } else {
                        // both shifted, inside the sorted prefix
                        assert(vnew[a] == vold[a - 1]);
                        assert(vnew[b] == vold[b - 1]);
                    }
                } else {
                    // no move: the element at `i` already tops the prefix
                    assert(vnew == vold);
                    if b == i {
                        assert(spec_sort_key(vold[a].amount) <= spec_sort_key(
                            vold[i - 1].amount,
                        ));
                    }
                }
            }
            assert(milestones_sorted(vnew.take(i as int + 1))) by {
                assert forall|a: int, b: int|
                    0 <= a < b < vnew.take(i as int + 1).len() implies spec_sort_key(
                    #[trigger] vnew.take(i as int + 1)[a].amount,
                ) <= spec_sort_key(#[trigger] vnew.take(i as int + 1)[b].amount) by {
                    assert(vnew.take(i as int + 1)[a] == vnew[a]);
                    assert(vnew.take(i as int + 1)[b] == vnew[b]);
                }
            }
        }
    }
    proof {
        assert(milestones_view(ms@).take(n as int) =~= milestones_view(ms@));
    }
}

/// The progress toward a threshold in tenths of a percent, rounded to the
/// nearest tenth with halves rounding up; zero where the threshold is not a
/// positive amount.
pub open spec fn spec_percent_tenths(raised: int, threshold: int) -> int {
    if threshold <= 0 {
        0
    } else {
        (2000 * raised + threshold) / (2 * threshold)
    }
}

/// The rendered percentage: the tenths split around a decimal point, with a
/// sign where the raised amount is negative, and a percent sign.
pub open spec fn spec_percent_str(raised: int, threshold: int) -> Seq<char> {
    let t = spec_percent_tenths(raised, threshold);
    let m = if t < 0 {
        -t
    } else {
        t
    };
    (if t < 0 {
        "-"@
    } else {
        Seq::<char>::empty()
    }) + spec_dec((m / 10) as nat) + "."@ + seq![spec_digit(m % 10)] + "%"@
}

/// Floor division for a possibly negative numerator and positive denominator.
fn floor_div(num: i128, den: i128) -> (q: i128)
    requires
        den > 0,
        -0x4000_0000_0000_0000_0000_0000_0000_0000 < num,
    ensures
        q == num / den,
        num >= 0 ==> 0 <= q <= num,
        num < 0 ==> num <= q <= 0,
{
    if num >= 0 {
        let qe = (num as u128) / (den as u128);
        proof {
            vstd::arithmetic::div_mod::lemma_fundamental_div_mod(num as int, den as int);
            assert(qe as int <= num as int) by (nonlinear_arith)
                requires
                    num as int == (den as int) * (qe as int) + (num as int) % (den as int),
                    (num as int) % (den as int) >= 0,
                    den as int >= 1,
                    qe as int >= 0,
            ;
        }
        qe as i128
    } else {
        let pos = (-num) as u128;
        let qe = pos / (den as u128);
        let re = pos % (den as u128);
        proof {
            vstd::arithmetic::div_mod::lemma_fundamental_div_mod(pos as int, den as int);
            assert(pos as int == (den as int) * (qe as int) + (re as int));
            if re == 0 {
                assert(num as int == (-(qe as int)) * (den as int) + 0) by (nonlinear_arith)
                    requires
                        pos as int == (den as int) * (qe as int) + (re as int),
                        re as int == 0,
                        num as int == -(pos as int),
                ;
                vstd::arithmetic::div_mod::lemma_fundamental_div_mod_converse(
                    num as int,
                    den as int,
                    -(qe as int),
                    0,
                );
                assert(qe as int <= pos as int) by (nonlinear_arith)
                    requires
                        pos as int == (den as int) * (qe as int) + (re as int),
                        re as int >= 0,
                        den as int >= 1,
                        qe as int >= 0,
                ;
            } else {
                assert(num as int == (-(qe as int) - 1) * (den as int) + (den as int - re as int))
                    by (nonlinear_arith)
                    requires
                        pos as int == (den as int) * (qe as int) + (re as int),
                        num as int == -(pos as int),
                ;
                vstd::arithmetic::div_mod::lemma_fundamental_div_mod_converse(
                    num as int,
                    den as int,
                    -(qe as int) - 1,
                    den as int - re as int,
                );
                assert(qe as int + 1 <= pos as int) by (nonlinear_arith)
                    requires
                        pos as int == (den as int) * (qe as int) + (re as int),
                        re as int >= 1,
                        den as int >= 1,
                        qe as int >= 0,
                ;
            }
        }
        if re == 0 {
            -(qe as i128)
        } else {
            -(qe as i128) - 1
        }
    }
}

/// Renders the progress of amount `a` toward amount `b` as a percentage with
/// one fractional digit, as in `41.2%`.
pub fn percent(a: Usd, b: Usd) -> (r: String)
    ensures
        r@ == spec_percent_str(a@, b@),
{
    let rc: i128 = a.usd() as i128;
    let tc: i128 = b.usd() as i128;
    let t: i128 = if tc <= 0 {
        0
    } else {
        floor_div(2000 * rc + tc, 2 * tc)
    };
    let mut r = String::new();
    if t < 0 {
        r.append("-");
        proof {
            assert(Seq::<char>::empty() + "-"@ =~= "-"@);
        }
    }
    let m: u128 = if t < 0 {
        (-t) as u128
    } else {
        t as u128
    };
    push_dec(&mut r, m / 10);
    r.append(".");
    push_char(&mut r, digit_char((m % 10) as u64));
    r.append("%");
    proof {
        assert(r@ =~= spec_percent_str(a@, b@));
    }
    r
}

/// The rendered line of one milestone against the raised amount: the indent,
/// a reached marker with a blank percentage slot where the threshold is
/// strictly below the raised amount, else a pending marker with the
/// percentage; then the amount padded to fifteen characters and the
/// description, joined by `" - "`.
pub open spec fn spec_milestone_line(m: MilestoneV, raised: int) -> Seq<char> {
    "    "@ + (if m.amount < raised {
        "\u{2705} "@ + "     "@ + " "@
    } else {
        "\u{1f91e} "@ + spec_percent_str(raised, m.amount) + " "@
    }) + spec_pad_left(spec_usd_str(m.amount), 15) + " - "@ + m.description
}

/// Renders one milestone line, by the rule of [`spec_milestone_line`].
pub fn milestone_line(m: &Milestone, raised: Usd) -> (r: String)
    ensures
        r@ == spec_milestone_line(m@, raised@),
{
    let mut r = String::new();
    r.append("    ");
    if m.amount.usd() < raised.usd() {
        r.append("\u{2705} ");
        r.append("     ");
        r.append(" ");
    } else {
        r.append("\u{1f91e} ");
        let p = percent(raised, m.amount);
        r.append(p.as_str());
        r.append(" ");
    }
    let amount = m.amount.display_string();
    let padded = pad_left(amount.as_str(), 15);
    r.append(padded.as_str());
    r.append(" - ");
    r.append(m.description.as_str());
    proof {
        assert(r@ =~= spec_milestone_line(m@, raised@));
    }
    r
}

/// Renders the campaign's progress lines: the name with an exclamation mark,
/// the raised amount against the goal, and one line per milestone in the
/// order the campaign holds them.
pub fn render_lines(c: &Campaign) -> (r: Vec<String>)
    ensures
        r@.len() == 2 + c.milestones@.len(),
        r@[0]@ == c@.name + "!"@,
        r@[1]@ == spec_usd_str(c@.total_amount_raised) + " of "@ + spec_usd_str(c@.goal),
        forall|i: int|
            0 <= i < c.milestones@.len() ==> r@[i + 2]@ == spec_milestone_line(
                #[trigger] c@.milestones[i],
                c@.total_amount_raised,
            ),
{
    let mut lines: Vec<String> = Vec::new();
    let mut l0 = String::new();
    l0.append(c.name.as_str());
    l0.append("!");
    proof {
        assert(l0@ =~= c@.name + "!"@);
    }
    lines.push(l0);
    let mut l1 = c.total_amount_raised.display_string();
    l1.append(" of ");
    let goal_str = c.goal.display_string();
    l1.append(goal_str.as_str());
    lines.push(l1);
    let n = c.milestones.len();
    for i in 0..n
        invariant
            n == c.milestones@.len(),
            lines@.len() == 2 + i,
            lines@[0]@ == c@.name + "!"@,
            lines@[1]@ == spec_usd_str(c@.total_amount_raised) + " of "@ + spec_usd_str(c@.goal),
            forall|k: int|
                0 <= k < i ==> lines@[k + 2]@ == spec_milestone_line(
                    #[trigger] c@.milestones[k],
                    c@.total_amount_raised,
                ),
    {
        let line = milestone_line(&c.milestones[i], c.total_amount_raised);
        lines.push(line);
    }
    lines
}

/// A milestone renders with the reached marker exactly when its threshold is
/// strictly below the raised amount; at equality it renders as pending.
pub proof fn lemma_reached_marker(m: MilestoneV, raised: int)
    ensures
        spec_milestone_line(m, raised)[4] == '\u{2705}' <==> m.amount < raised,
        m.amount == raised ==> spec_milestone_line(m, raised)[4] == '\u{1f91e}',
{
    reveal_strlit("    ");
    reveal_strlit("\u{2705} ");
    reveal_strlit("\u{1f91e} ");
    if m.amount < raised {
        assert(spec_milestone_line(m, raised)[4] == "\u{2705} "@[0]);
    } else {
        assert(spec_milestone_line(m, raised)[4] == "\u{1f91e} "@[0]);
    }
}

/// Where every amount is non-negative — every campaign in practice — a
/// sorted milestone listing has its thresholds monotonically non-decreasing.
pub proof fn lemma_sorted_thresholds(ms: Seq<MilestoneV>)
    requires
        milestones_sorted(ms),
        forall|i: int| 0 <= i < ms.len() ==> (#[trigger] ms[i].amount) >= 0,
    ensures
        forall|i: int, j: int| 0 <= i < j < ms.len() ==> ms[i].amount <= ms[j].amount,
{
    assert forall|i: int, j: int| 0 <= i < j < ms.len() implies ms[i].amount <= ms[j].amount by {
        assert(spec_sort_key(ms[i].amount) <= spec_sort_key(ms[j].amount));
    }
}

} // verus!
