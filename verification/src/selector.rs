//! The rule selector: narrows a rule set to the rules whose date scope
//! intersects a queried date range.

use vstd::prelude::*;

use crate::date::Date;
use crate::model::{AvailabilityRule, RuleModel};

verus! {

/// The models of a sequence of rules.
pub open spec fn rule_models(rules: Seq<AvailabilityRule>) -> Seq<RuleModel> {
    rules.map_values(|r: AvailabilityRule| r@)
}

/// The subsequence of `rules` whose date scope intersects
/// `[range_start, range_end]`, in their original order.
pub open spec fn spec_select(rules: Seq<RuleModel>, range_start: Date, range_end: Date) -> Seq<
    RuleModel,
>
    decreases rules.len(),
{
    if rules.len() == 0 {
        Seq::empty()
    } else if rules[0].selected_for(range_start, range_end) {
        seq![rules[0]] + spec_select(rules.drop_first(), range_start, range_end)
    } else {
        spec_select(rules.drop_first(), range_start, range_end)
    }
}

/// Keeps exactly the rules whose scope intersects the range: bounded rules
/// whose dates overlap it, and open-ended recurring rules that start no later
/// than its end. An empty result is a normal outcome, not an error.
pub fn select(rules: &Vec<AvailabilityRule>, range_start: &Date, range_end: &Date) -> (out: Vec<
    AvailabilityRule,
>)
    requires
        forall|i: int| 0 <= i < rules@.len() ==> (#[trigger] rules@[i])@.wf(),
        range_start.valid_md(),
        range_end.valid_md(),
    ensures
        rule_models(out@) == spec_select(rule_models(rules@), *range_start, *range_end),
        forall|i: int| 0 <= i < out@.len() ==> (#[trigger] out@[i])@.wf(),
{
    let ghost all = rule_models(rules@);
    let mut out: Vec<AvailabilityRule> = Vec::new();
    let mut i: usize = 0;
    proof {
        assert(all.skip(0) =~= all);
        assert(rule_models(out@) + spec_select(all, *range_start, *range_end) =~= spec_select(
            all,
            *range_start,
            *range_end,
        ));
    }
    while i < rules.len()
        invariant
            i <= rules@.len(),
            all == rule_models(rules@),
            forall|k: int| 0 <= k < rules@.len() ==> (#[trigger] rules@[k])@.wf(),
            forall|k: int| 0 <= k < out@.len() ==> (#[trigger] out@[k])@.wf(),
            range_start.valid_md(),
            range_end.valid_md(),
            rule_models(out@) + spec_select(all.skip(i as int), *range_start, *range_end)
                == spec_select(all, *range_start, *range_end),
        decreases rules@.len() - i,
    {
        proof {
            assert(all.skip(i as int)[0] == rules@[i as int]@);
            assert(all.skip(i as int).drop_first() =~= all.skip(i as int + 1));
        }
        if rules[i].selected_for(range_start, range_end) {
            let copy = rules[i].clone();
            out.push(copy);
            proof {
                assert(rule_models(out@) =~= rule_models(out@.drop_last()).push(rules@[i as int]@));
                assert(rule_models(out@.drop_last()).push(rules@[i as int]@) + spec_select(
                    all.skip(i as int + 1),
                    *range_start,
                    *range_end,
                ) =~= rule_models(out@.drop_last()) + spec_select(
                    all.skip(i as int),
                    *range_start,
                    *range_end,
                ));
            }
        }
        i = i + 1;
    }
    proof {
        assert(all.skip(rules@.len() as int) =~= Seq::<RuleModel>::empty());
        assert(rule_models(out@) + Seq::<RuleModel>::empty() =~= rule_models(out@));
    }
    out
}

} // verus!
