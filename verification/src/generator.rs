//! The slot generator: expands availability rules over a date range into
//! discrete, buffer-separated bookable windows of a requested duration.
//!
//! For each calendar day of the range and each covering rule, every available
//! template for that day's weekday is packed greedily left to right: each
//! booking reserves `buffer.before` idle minutes before it and `buffer.after`
//! after it, and a remainder shorter than the booking plus its buffers is
//! dropped. Rules are expanded independently — overlapping candidates from
//! different rules are all emitted — and the concatenation is sorted by
//! date and start time.

use vstd::prelude::*;

use crate::date::{spec_succ, Date};
use crate::model::{AvailabilityRule, AvailabilitySlot, AvailableTimeSlot, BufferTime, RuleModel};
use crate::selector::rule_models;
use crate::time_of_day::{lemma_tod_of_minutes, tod_of_minutes, TimeOfDay};

verus! {

/// Greedy left-to-right packing of one open window on day `date`: starting
/// from `cursor`, each booking takes `before` buffer minutes, `duration`
/// booked minutes and `after` buffer minutes; packing stops when the
/// remainder up to `window_end` cannot hold all three.
pub open spec fn pack_slots(
    date: Date,
    cursor: int,
    window_end: int,
    duration: int,
    before: int,
    after: int,
) -> Seq<AvailableTimeSlot>
    decreases window_end - cursor when duration >= 1 && before >= 0 && after >= 0
{
    if cursor + before + duration + after <= window_end {
        seq![
            AvailableTimeSlot {
                date,
                start_time: tod_of_minutes(cursor + before),
                end_time: tod_of_minutes(cursor + before + duration),
            },
        ] + pack_slots(date, cursor + before + duration + after, window_end, duration, before, after)
    } else {
        Seq::empty()
    }
}

/// What one slot template contributes on day `d`: its packed window when the
/// template names `d`'s weekday and is available, nothing otherwise.
pub open spec fn slot_emissions(
    slot: AvailabilitySlot,
    d: Date,
    duration: int,
    buffer: BufferTime,
) -> Seq<AvailableTimeSlot> {
    if slot.day_of_week == d.spec_weekday() && slot.is_available {
        pack_slots(
            d,
            slot.start_time.spec_minutes(),
            slot.end_time.spec_minutes(),
            duration,
            buffer.before as int,
            buffer.after as int,
        )
    } else {
        Seq::empty()
    }
}

/// What a list of slot templates contributes on day `d`, template by
/// template, in order.
pub open spec fn slots_emissions(
    slots: Seq<AvailabilitySlot>,
    d: Date,
    duration: int,
    buffer: BufferTime,
) -> Seq<AvailableTimeSlot>
    decreases slots.len(),
{
    if slots.len() == 0 {
        Seq::empty()
    } else {
        slot_emissions(slots[0], d, duration, buffer) + slots_emissions(
            slots.drop_first(),
            d,
            duration,
            buffer,
        )
    }
}

/// What a rule contributes on day `d`: nothing unless its date scope covers
/// `d`.
pub open spec fn rule_day_emissions(
    rule: RuleModel,
    d: Date,
    duration: int,
    buffer: BufferTime,
) -> Seq<AvailableTimeSlot> {
    if rule.covers_day(d) {
        slots_emissions(rule.slots, d, duration, buffer)
    } else {
        Seq::empty()
    }
}

/// What a rule contributes on `n` consecutive days starting at `d`.
pub open spec fn rule_range_emissions(
    rule: RuleModel,
    d: Date,
    n: nat,
    duration: int,
    buffer: BufferTime,
) -> Seq<AvailableTimeSlot>
    decreases n,
{
    if n == 0 {
        Seq::empty()
    } else {
        rule_day_emissions(rule, d, duration, buffer) + rule_range_emissions(
            rule,
            spec_succ(d),
            (n - 1) as nat,
            duration,
            buffer,
        )
    }
}

/// The number of days of the inclusive range `[range_start, range_end]`.
pub open spec fn range_day_count(range_start: Date, range_end: Date) -> nat {
    if range_start.spec_day_number() <= range_end.spec_day_number() {
        (range_end.spec_day_number() - range_start.spec_day_number() + 1) as nat
    } else {
        0
    }
}

/// Everything the rules contribute over the range, rule by rule, unsorted.
pub open spec fn all_emissions(
    rules: Seq<RuleModel>,
    range_start: Date,
    range_end: Date,
    duration: int,
    buffer: BufferTime,
) -> Seq<AvailableTimeSlot>
    decreases rules.len(),
{
    if rules.len() == 0 {
        Seq::empty()
    } else {
        rule_range_emissions(
            rules[0],
            range_start,
            range_day_count(range_start, range_end),
            duration,
            buffer,
        ) + all_emissions(rules.drop_first(), range_start, range_end, duration, buffer)
    }
}

/// Appends what `slot` contributes on day `d` to `out`.
fn append_slot_emissions(
    slot: &AvailabilitySlot,
    d: &Date,
    duration: u32,
    buffer: &BufferTime,
    out: &mut Vec<AvailableTimeSlot>,
)
    requires
        slot.wf(),
        d.valid_md(),
        duration >= 1,
    ensures
        final(out)@ == old(out)@ + slot_emissions(*slot, *d, duration as int, *buffer),
{
    let weekday = d.weekday();
    if !(slot.day_of_week == weekday && slot.is_available) {
        proof {
            assert(out@ =~= out@ + slot_emissions(*slot, *d, duration as int, *buffer));
        }
        return ;
    }
    let window_start: u16 = slot.start_time.minutes();
    let window_end: u16 = slot.end_time.minutes();
    let total: u64 = duration as u64 + buffer.before as u64 + buffer.after as u64;
    let mut cursor: u16 = window_start;
    while cursor as u64 + total <= window_end as u64
        invariant
            slot.wf(),
            duration >= 1,
            total == duration as int + buffer.before as int + buffer.after as int,
            window_end == slot.end_time.spec_minutes(),
            window_start == slot.start_time.spec_minutes(),
            window_end <= 1439,
            out@ + pack_slots(
                *d,
                cursor as int,
                window_end as int,
                duration as int,
                buffer.before as int,
                buffer.after as int,
            ) == old(out)@ + pack_slots(
                *d,
                window_start as int,
                window_end as int,
                duration as int,
                buffer.before as int,
                buffer.after as int,
            ),
        decreases window_end as int - cursor as int,
    {
        let actual_start_w: u64 = cursor as u64 + buffer.before as u64;
        let actual_end_w: u64 = actual_start_w + duration as u64;
        let actual_start: u16 = actual_start_w as u16;
        let actual_end: u16 = actual_end_w as u16;
        let ghost old_cursor: int = cursor as int;
        let ghost new_cursor: int = cursor as int + total as int;
        out.push(
            AvailableTimeSlot {
                date: *d,
                start_time: TimeOfDay::from_minutes(actual_start),
                end_time: TimeOfDay::from_minutes(actual_end),
            },
        );
        cursor = (actual_end_w + buffer.after as u64) as u16;
        proof {
            assert(pack_slots(
                *d,
                old_cursor,
                window_end as int,
                duration as int,
                buffer.before as int,
                buffer.after as int,
            ) =~= seq![
                AvailableTimeSlot {
                    date: *d,
                    start_time: tod_of_minutes(old_cursor + buffer.before),
                    end_time: tod_of_minutes(old_cursor + buffer.before + duration),
                },
            ] + pack_slots(
                *d,
                new_cursor,
                window_end as int,
                duration as int,
                buffer.before as int,
                buffer.after as int,
            ));
            assert(out@ + pack_slots(
                *d,
                new_cursor,
                window_end as int,
                duration as int,
                buffer.before as int,
                buffer.after as int,
            ) =~= old(out)@ + pack_slots(
                *d,
                window_start as int,
                window_end as int,
                duration as int,
                buffer.before as int,
                buffer.after as int,
            ));
        }
    }
    proof {
        assert(out@ =~= out@ + pack_slots(
            *d,
            cursor as int,
            window_end as int,
            duration as int,
            buffer.before as int,
            buffer.after as int,
        ));
    }
}

/// Appends what `rule` contributes on day `d` to `out`.
fn append_rule_day_emissions(
    rule: &AvailabilityRule,
    d: &Date,
    duration: u32,
    buffer: &BufferTime,
    out: &mut Vec<AvailableTimeSlot>,
)
    requires
        rule@.wf(),
        d.valid_md(),
        duration >= 1,
    ensures
        final(out)@ == old(out)@ + rule_day_emissions(rule@, *d, duration as int, *buffer),
{
    if !rule.covers_day(d) {
        proof {
            assert(out@ =~= out@ + rule_day_emissions(rule@, *d, duration as int, *buffer));
        }
        return ;
    }
    let ghost slots = rule@.slots;
    let mut i: usize = 0;
    proof {
        assert(slots.skip(0) =~= slots);
    }
    while i < rule.slots.len()
        invariant
            i <= slots.len(),
            slots == rule@.slots,
            rule@.wf(),
            d.valid_md(),
            duration >= 1,
            out@ + slots_emissions(slots.skip(i as int), *d, duration as int, *buffer) == old(
                out,
            )@ + slots_emissions(slots, *d, duration as int, *buffer),
        decreases slots.len() - i,
    {
        proof {
            assert(slots.skip(i as int)[0] == slots[i as int]);
            assert(slots.skip(i as int).drop_first() =~= slots.skip(i as int + 1));
        }
        let ghost out_before = out@;
        append_slot_emissions(&rule.slots[i], d, duration, buffer, out);
        proof {
            assert(out@ + slots_emissions(slots.skip(i as int + 1), *d, duration as int, *buffer)
                =~= out_before + slots_emissions(slots.skip(i as int), *d, duration as int, *buffer));
        }
        i = i + 1;
    }
    proof {
        assert(slots.skip(slots.len() as int) =~= Seq::<AvailabilitySlot>::empty());
        assert(out@ =~= out@ + slots_emissions(
            slots.skip(slots.len() as int),
            *d,
            duration as int,
            *buffer,
        ));
    }
}

/// Expands one rule over every day of the inclusive range, day by day.
/// A day contributes only when the rule's scope covers it and a template
/// names its weekday.
pub fn process_availability_rule(
    rule: &AvailabilityRule,
    range_start: &Date,
    range_end: &Date,
    duration: u32,
    buffer: &BufferTime,
) -> (out: Vec<AvailableTimeSlot>)
    requires
        rule@.wf(),
        range_start.wf(),
        range_end.wf(),
        duration >= 1,
    ensures
        out@ == rule_range_emissions(
            rule@,
            *range_start,
            range_day_count(*range_start, *range_end),
            duration as int,
            *buffer,
        ),
{
    let mut out: Vec<AvailableTimeSlot> = Vec::new();
    if !range_start.le(range_end) {
        proof {
            assert(out@ =~= rule_range_emissions(
                rule@,
                *range_start,
                range_day_count(*range_start, *range_end),
                duration as int,
                *buffer,
            ));
        }
        return out;
    }
    let start_number: u32 = range_start.day_number();
    let end_number: u32 = range_end.day_number();
    proof {
        crate::date::lemma_day_number_range(*range_end);
        crate::date::lemma_days_before_year_mono(range_end.year as int + 1, 10000);
        crate::date::lemma_days_before_year_bound(10000);
    }
    let total: u32 = end_number - start_number + 1;
    let ghost total_days: nat = range_day_count(*range_start, *range_end);
    let mut d: Date = *range_start;
    let mut i: u32 = 0;
    while i < total
        invariant
            i <= total,
            total == total_days,
            total_days == range_day_count(*range_start, *range_end),
            rule@.wf(),
            duration >= 1,
            range_end.wf(),
            d.valid_md(),
            d.spec_day_number() == range_start.spec_day_number() + i,
            out@ + rule_range_emissions(
                rule@,
                d,
                (total - i) as nat,
                duration as int,
                *buffer,
            ) == rule_range_emissions(rule@, *range_start, total_days, duration as int, *buffer),
        decreases total - i,
    {
        let ghost out_before = out@;
        let ghost remaining: nat = (total - i) as nat;
        append_rule_day_emissions(rule, &d, duration, buffer, &mut out);
        proof {
            assert(rule_range_emissions(rule@, d, remaining, duration as int, *buffer)
                =~= rule_day_emissions(rule@, d, duration as int, *buffer) + rule_range_emissions(
                rule@,
                spec_succ(d),
                (remaining - 1) as nat,
                duration as int,
                *buffer,
            ));
            assert(out@ + rule_range_emissions(
                rule@,
                spec_succ(d),
                (remaining - 1) as nat,
                duration as int,
                *buffer,
            ) =~= out_before + rule_range_emissions(rule@, d, remaining, duration as int, *buffer));
            crate::date::lemma_year_of_day_number_le(d, *range_end);
        }
        d = d.succ();
        i = i + 1;
    }
    proof {
        assert(out@ =~= out@ + rule_range_emissions(
            rule@,
            d,
            0,
            duration as int,
            *buffer,
        ));
    }
    out
}

/// What holds of every booking of one packed window: it sits on the packed
/// day, starts no earlier than the cursor plus the before-buffer, lasts
/// exactly `duration` minutes, and leaves room for the after-buffer inside
/// the window.
pub open spec fn pack_elem_ok(
    date: Date,
    cursor: int,
    window_end: int,
    duration: int,
    before: int,
    after: int,
    e: AvailableTimeSlot,
) -> bool {
    &&& e.date == date
    &&& e.start_time.wf()
    &&& e.end_time.wf()
    &&& cursor + before <= e.start_time.spec_minutes()
    &&& e.end_time.spec_minutes() == e.start_time.spec_minutes() + duration
    &&& e.end_time.spec_minutes() + after <= window_end
}

/// Every booking of a packed window satisfies [`pack_elem_ok`]; the first
/// booking starts exactly one before-buffer after the cursor; and each later
/// booking starts exactly one after-buffer plus one before-buffer after the
/// previous booking ends.
pub proof fn lemma_pack_slots_props(
    date: Date,
    cursor: int,
    window_end: int,
    duration: int,
    before: int,
    after: int,
)
    requires
        duration >= 1,
        before >= 0,
        after >= 0,
        0 <= cursor,
        window_end <= 1439,
    ensures
        forall|k: int|
            0 <= k < pack_slots(date, cursor, window_end, duration, before, after).len()
                ==> pack_elem_ok(
                date,
                cursor,
                window_end,
                duration,
                before,
                after,
                #[trigger] pack_slots(date, cursor, window_end, duration, before, after)[k],
            ),
        pack_slots(date, cursor, window_end, duration, before, after).len() > 0 ==> pack_slots(
            date,
            cursor,
            window_end,
            duration,
            before,
            after,
        )[0].start_time.spec_minutes() == cursor + before,
        forall|k: int|
            0 <= k && k + 1 < pack_slots(date, cursor, window_end, duration, before, after).len()
                ==> (#[trigger] pack_slots(date, cursor, window_end, duration, before, after)[k
                + 1]).start_time.spec_minutes() == pack_slots(
                date,
                cursor,
                window_end,
                duration,
                before,
                after,
            )[k].end_time.spec_minutes() + after + before,
    decreases window_end - cursor,
{
    let p = pack_slots(date, cursor, window_end, duration, before, after);
    if cursor + before + duration + after <= window_end {
        let cursor2 = cursor + before + duration + after;
        let rest = pack_slots(date, cursor2, window_end, duration, before, after);
        let e0 = AvailableTimeSlot {
            date,
            start_time: tod_of_minutes(cursor + before),
            end_time: tod_of_minutes(cursor + before + duration),
        };
        lemma_tod_of_minutes(cursor + before);
        lemma_tod_of_minutes(cursor + before + duration);
        lemma_pack_slots_props(date, cursor2, window_end, duration, before, after);
        assert(p =~= seq![e0] + rest);
        assert(pack_elem_ok(date, cursor, window_end, duration, before, after, e0));
        assert forall|k: int| 0 <= k < p.len() implies pack_elem_ok(
            date,
            cursor,
            window_end,
            duration,
            before,
            after,
            p[k],
        ) by {
            if k > 0 {
                assert(p[k] == rest[k - 1]);
                assert(pack_elem_ok(date, cursor2, window_end, duration, before, after, p[k]));
            }
        }
        assert forall|k: int| 0 <= k && k + 1 < p.len() implies (#[trigger] p[k
            + 1]).start_time.spec_minutes() == p[k].end_time.spec_minutes() + after + before by {
            assert(p.len() == 1 + rest.len());
            if k == 0 {
                assert(rest.len() > 0);
                assert(p[1] == rest[0]);
                assert(rest[0].start_time.spec_minutes() == cursor2 + before);
                assert(p[0] == e0);
                assert(e0.end_time.spec_minutes() == cursor + before + duration);
            } else {
                assert(p[k] == rest[k - 1]);
                assert(p[k + 1] == rest[(k - 1) + 1]);
                assert(rest[(k - 1) + 1].start_time.spec_minutes() == rest[k
                    - 1].end_time.spec_minutes() + after + before);
            }
        }
    }
}

/// No-overlap law: within one template expansion, consecutive bookings never
/// overlap. Each booking begins exactly one after-buffer plus one
/// before-buffer after the previous booking ends, so the previous booking's
/// after-buffer ends no later than the next booking's before-buffer begins.
pub proof fn lemma_no_overlap(
    date: Date,
    cursor: int,
    window_end: int,
    duration: int,
    before: int,
    after: int,
)
    requires
        duration >= 1,
        before >= 0,
        after >= 0,
        0 <= cursor,
        window_end <= 1439,
    ensures
        forall|k: int|
            0 <= k && k + 1 < pack_slots(date, cursor, window_end, duration, before, after).len()
                ==> (#[trigger] pack_slots(date, cursor, window_end, duration, before, after)[k
                + 1]).start_time.spec_minutes() == pack_slots(
                date,
                cursor,
                window_end,
                duration,
                before,
                after,
            )[k].end_time.spec_minutes() + after + before,
        forall|k: int|
            0 <= k && k + 1 < pack_slots(date, cursor, window_end, duration, before, after).len()
                ==> (#[trigger] pack_slots(date, cursor, window_end, duration, before, after)[k]).end_time.spec_minutes()
                + after <= pack_slots(date, cursor, window_end, duration, before, after)[k
                + 1].start_time.spec_minutes() - before,
{
    lemma_pack_slots_props(date, cursor, window_end, duration, before, after);
}

/// Boundary law: an open window of exactly `duration + before + after`
/// minutes yields exactly one booking, and a window one minute shorter
/// yields none.
pub proof fn lemma_pack_boundary(
    date: Date,
    cursor: int,
    window_end: int,
    duration: int,
    before: int,
    after: int,
)
    requires
        duration >= 1,
        before >= 0,
        after >= 0,
    ensures
        window_end - cursor == duration + before + after ==> pack_slots(
            date,
            cursor,
            window_end,
            duration,
            before,
            after,
        ).len() == 1,
        window_end - cursor == duration + before + after - 1 ==> pack_slots(
            date,
            cursor,
            window_end,
            duration,
            before,
            after,
        ).len() == 0,
{
    if window_end - cursor == duration + before + after {
        let cursor2 = cursor + before + duration + after;
        assert(pack_slots(date, cursor2, window_end, duration, before, after) =~= Seq::empty());
        assert(pack_slots(date, cursor, window_end, duration, before, after).len() == 1);
    }
}

/// A booking lies within the window of one matching, available template.
pub open spec fn emission_within_slot(
    slot: AvailabilitySlot,
    d: Date,
    duration: int,
    e: AvailableTimeSlot,
) -> bool {
    &&& slot.day_of_week == d.spec_weekday()
    &&& slot.is_available
    &&& e.date == d
    &&& slot.start_time.spec_minutes() <= e.start_time.spec_minutes()
    &&& e.end_time.spec_minutes() == e.start_time.spec_minutes() + duration
    &&& e.end_time.spec_minutes() <= slot.end_time.spec_minutes()
}

/// A booking lies within the window of some matching, available template of
/// `slots`.
pub open spec fn emission_within_slots(
    slots: Seq<AvailabilitySlot>,
    d: Date,
    duration: int,
    e: AvailableTimeSlot,
) -> bool {
    exists|j: int|
        0 <= j < slots.len() && emission_within_slot(#[trigger] slots[j], d, duration, e)
}

/// Every booking a template list contributes on day `d` lies within one of
/// its templates and carries the day and well-formed times.
pub proof fn lemma_slots_emissions_props(
    slots: Seq<AvailabilitySlot>,
    d: Date,
    duration: int,
    buffer: BufferTime,
)
    requires
        forall|i: int| 0 <= i < slots.len() ==> (#[trigger] slots[i]).wf(),
        duration >= 1,
    ensures
        forall|k: int|
            0 <= k < slots_emissions(slots, d, duration, buffer).len() ==> {
                let e = #[trigger] slots_emissions(slots, d, duration, buffer)[k];
                &&& e.date == d
                &&& e.start_time.wf()
                &&& e.end_time.wf()
                &&& emission_within_slots(slots, d, duration, e)
            },
    decreases slots.len(),
{
    if slots.len() > 0 {
        let s = slots_emissions(slots, d, duration, buffer);
        let head = slot_emissions(slots[0], d, duration, buffer);
        let tail = slots_emissions(slots.drop_first(), d, duration, buffer);
        assert(s == head + tail);
        if slots[0].day_of_week == d.spec_weekday() && slots[0].is_available {
            lemma_pack_slots_props(
                d,
                slots[0].start_time.spec_minutes(),
                slots[0].end_time.spec_minutes(),
                duration,
                buffer.before as int,
                buffer.after as int,
            );
        }
        lemma_slots_emissions_props(slots.drop_first(), d, duration, buffer);
        assert forall|k: int| #![trigger s[k]] 0 <= k < s.len() implies {
            let e = s[k];
            &&& e.date == d
            &&& e.start_time.wf()
            &&& e.end_time.wf()
            &&& emission_within_slots(slots, d, duration, e)
        } by {
            if k < head.len() {
                assert(s[k] == head[k]);
                assert(pack_elem_ok(
                    d,
                    slots[0].start_time.spec_minutes(),
                    slots[0].end_time.spec_minutes(),
                    duration,
                    buffer.before as int,
                    buffer.after as int,
                    head[k],
                ));
                assert(emission_within_slot(slots[0], d, duration, s[k]));
            } else {
                assert(s[k] == tail[k - head.len()]);
                assert(emission_within_slots(slots.drop_first(), d, duration, s[k]));
                let j = choose|j: int|
                    0 <= j < slots.drop_first().len() && emission_within_slot(
                        #[trigger] slots.drop_first()[j],
                        d,
                        duration,
                        s[k],
                    );
                assert(slots.drop_first()[j] == slots[j + 1]);
                assert(emission_within_slot(slots[j + 1], d, duration, s[k]));
            }
        }
    }
}

/// What holds of every booking a rule contributes over `n` days from `d`:
/// its date is a real day of the range, the rule's scope covers it, and the
/// booking lies within one of the rule's templates for that day.
pub open spec fn range_emission_ok(
    rule: RuleModel,
    d: Date,
    n: nat,
    duration: int,
    e: AvailableTimeSlot,
) -> bool {
    &&& e.date.valid_md()
    &&& d.spec_day_number() <= e.date.spec_day_number() < d.spec_day_number() + n
    &&& e.start_time.wf()
    &&& e.end_time.wf()
    &&& rule.covers_day(e.date)
    &&& emission_within_slots(rule.slots, e.date, duration, e)
}

/// Every booking of a rule's range expansion satisfies
/// [`range_emission_ok`].
pub proof fn lemma_rule_range_props(
    rule: RuleModel,
    d: Date,
    n: nat,
    duration: int,
    buffer: BufferTime,
)
    requires
        rule.wf(),
        d.valid_md(),
        duration >= 1,
        d.spec_day_number() + n <= crate::date::days_before_year(10000),
    ensures
        forall|k: int|
            0 <= k < rule_range_emissions(rule, d, n, duration, buffer).len()
                ==> range_emission_ok(
                rule,
                d,
                n,
                duration,
                #[trigger] rule_range_emissions(rule, d, n, duration, buffer)[k],
            ),
    decreases n,
{
    if n > 0 {
        let s = rule_range_emissions(rule, d, n, duration, buffer);
        let head = rule_day_emissions(rule, d, duration, buffer);
        let tail = rule_range_emissions(rule, spec_succ(d), (n - 1) as nat, duration, buffer);
        assert(s == head + tail);
        if rule.covers_day(d) {
            lemma_slots_emissions_props(rule.slots, d, duration, buffer);
        }
        crate::date::lemma_day_number_range(d);
        if d.year as int >= 10000 {
            crate::date::lemma_days_before_year_mono(10000, d.year as int);
            assert(false);
        }
        crate::date::lemma_succ(d);
        lemma_rule_range_props(rule, spec_succ(d), (n - 1) as nat, duration, buffer);
        assert forall|k: int| 0 <= k < s.len() implies range_emission_ok(
            rule,
            d,
            n,
            duration,
            s[k],
        ) by {
            if k < head.len() {
                assert(s[k] == head[k]);
            } else {
                assert(s[k] == tail[k - head.len()]);
                assert(range_emission_ok(rule, spec_succ(d), (n - 1) as nat, duration, s[k]));
            }
        }
    }
}

/// A booking is covered: some rule's scope covers its date and the booking
/// lies within one of that rule's templates for that date.
pub open spec fn emission_covered(
    models: Seq<RuleModel>,
    duration: int,
    e: AvailableTimeSlot,
) -> bool {
    exists|i: int|
        0 <= i < models.len() && (#[trigger] models[i]).covers_day(e.date)
            && emission_within_slots(models[i].slots, e.date, duration, e)
}

/// Every booking of the full expansion lies on a day of the queried range,
/// carries well-formed times, and is covered by one of the rules.
pub proof fn lemma_all_emissions_props(
    models: Seq<RuleModel>,
    range_start: Date,
    range_end: Date,
    duration: int,
    buffer: BufferTime,
)
    requires
        forall|i: int| 0 <= i < models.len() ==> (#[trigger] models[i]).wf(),
        range_start.wf(),
        range_end.wf(),
        duration >= 1,
    ensures
        forall|k: int|
            0 <= k < all_emissions(models, range_start, range_end, duration, buffer).len() ==> {
                let e = #[trigger] all_emissions(models, range_start, range_end, duration, buffer)[k];
                &&& e.date.valid_md()
                &&& range_start.spec_day_number() <= e.date.spec_day_number()
                    <= range_end.spec_day_number()
                &&& e.start_time.wf()
                &&& e.end_time.wf()
                &&& emission_covered(models, duration, e)
            },
    decreases models.len(),
{
    if models.len() > 0 {
        let s = all_emissions(models, range_start, range_end, duration, buffer);
        let n = range_day_count(range_start, range_end);
        let head = rule_range_emissions(models[0], range_start, n, duration, buffer);
        let tail = all_emissions(models.drop_first(), range_start, range_end, duration, buffer);
        assert(s == head + tail);
        crate::date::lemma_day_number_range(range_end);
        crate::date::lemma_days_before_year_mono(range_end.year as int + 1, 10000);
        crate::date::lemma_day_number_range(range_start);
        crate::date::lemma_days_before_year_mono(range_start.year as int + 1, 10000);
        lemma_rule_range_props(models[0], range_start, n, duration, buffer);
        lemma_all_emissions_props(models.drop_first(), range_start, range_end, duration, buffer);
        assert forall|k: int| #![trigger s[k]] 0 <= k < s.len() implies {
            let e = s[k];
            &&& e.date.valid_md()
            &&& range_start.spec_day_number() <= e.date.spec_day_number()
                <= range_end.spec_day_number()
            &&& e.start_time.wf()
            &&& e.end_time.wf()
            &&& emission_covered(models, duration, e)
        } by {
            if k < head.len() {
                assert(s[k] == head[k]);
                assert(range_emission_ok(models[0], range_start, n, duration, s[k]));
                assert(emission_covered(models, duration, s[k]));
            } else {
                assert(s[k] == tail[k - head.len()]);
                let e = s[k];
                assert(emission_covered(models.drop_first(), duration, e));
                let i = choose|i: int|
                    0 <= i < models.drop_first().len() && (#[trigger] models.drop_first()[i]).covers_day(
                        e.date,
                    ) && emission_within_slots(models.drop_first()[i].slots, e.date, duration, e);
                assert(models.drop_first()[i] == models[i + 1]);
                assert((models[i + 1]).covers_day(e.date) && emission_within_slots(
                    models[i + 1].slots,
                    e.date,
                    duration,
                    e,
                ));
            }
        }
    }
}

/// The generator's output order: ascending by date, then by start time.
pub open spec fn slot_le(a: AvailableTimeSlot, b: AvailableTimeSlot) -> bool {
    ||| a.date.spec_day_number() < b.date.spec_day_number()
    ||| (a.date.spec_day_number() == b.date.spec_day_number() && a.start_time.spec_minutes()
        <= b.start_time.spec_minutes())
}

/// The sequence is sorted ascending by `(date, start)`.
pub open spec fn sorted_slots(s: Seq<AvailableTimeSlot>) -> bool {
    forall|i: int, j: int| 0 <= i < j < s.len() ==> slot_le(#[trigger] s[i], #[trigger] s[j])
}

/// Whether `a` comes no later than `b` in the output order.
fn slot_le_exec(a: &AvailableTimeSlot, b: &AvailableTimeSlot) -> (r: bool)
    requires
        a.date.valid_md(),
        b.date.valid_md(),
    ensures
        r == slot_le(*a, *b),
{
    let an: u32 = a.date.day_number();
    let bn: u32 = b.date.day_number();
    an < bn || (an == bn && a.start_time.minutes() <= b.start_time.minutes())
}

/// Sorts bookings ascending by `(date, start)`; the result is a permutation
/// of the input.
fn sort_slots(v: Vec<AvailableTimeSlot>) -> (out: Vec<AvailableTimeSlot>)
    requires
        forall|i: int| 0 <= i < v@.len() ==> (#[trigger] v@[i]).date.valid_md(),
    ensures
        out@.to_multiset() == v@.to_multiset(),
        sorted_slots(out@),
{
    let mut out: Vec<AvailableTimeSlot> = Vec::new();
    let mut i: usize = 0;
    proof {
        assert(v@.take(0) =~= Seq::<AvailableTimeSlot>::empty());
        assert(out@.to_multiset() =~= v@.take(0).to_multiset());
    }
    while i < v.len()
        invariant
            i <= v@.len(),
            forall|k: int| 0 <= k < v@.len() ==> (#[trigger] v@[k]).date.valid_md(),
            forall|k: int| 0 <= k < out@.len() ==> (#[trigger] out@[k]).date.valid_md(),
            sorted_slots(out@),
            out@.to_multiset() == v@.take(i as int).to_multiset(),
        decreases v@.len() - i,
    {
        let x = v[i];
        let mut j: usize = 0;
        while j < out.len() && slot_le_exec(&out[j], &x)
            invariant
                j <= out@.len(),
                forall|k: int| 0 <= k < out@.len() ==> (#[trigger] out@[k]).date.valid_md(),
                x.date.valid_md(),
                forall|k: int| 0 <= k < j ==> slot_le(#[trigger] out@[k], x),
            decreases out@.len() - j,
        {
            j = j + 1;
        }
        let ghost s_old = out@;
        let ghost insert_at = j as int;
        out.insert(j, x);
        proof {
            vstd::seq_lib::to_multiset_insert(s_old, insert_at, x);
            assert(v@.take(i as int + 1) =~= v@.take(i as int).push(v@[i as int]));
            vstd::seq_lib::to_multiset_build(v@.take(i as int), v@[i as int]);
            s_old.insert_ensures(insert_at, x);
            assert forall|a: int, b: int| 0 <= a < b < out@.len() implies slot_le(
                out@[a],
                out@[b],
            ) by {
                if b < insert_at {
                    assert(out@[a] == s_old[a] && out@[b] == s_old[b]);
                } else if a < insert_at && b == insert_at {
                    assert(out@[a] == s_old[a] && out@[b] == x);
                } else if a < insert_at && b > insert_at {
                    assert(out@[a] == s_old[a] && out@[b] == s_old[b - 1]);
                    assert(slot_le(x, s_old[insert_at]));
                } else if a == insert_at {
                    assert(out@[a] == x && out@[b] == s_old[b - 1]);
                    assert(!slot_le(s_old[insert_at], x));
                    assert(slot_le(x, s_old[insert_at]));
                } else {
                    assert(out@[a] == s_old[a - 1] && out@[b] == s_old[b - 1]);
                }
            }
        }
        i = i + 1;
    }
    proof {
        assert(v@.take(v@.len() as int) =~= v@);
    }
    out
}

/// Enumerates every bookable window of duration `duration` inside
/// `[range_start, range_end]`: each rule is expanded independently over the
/// days its scope covers, buffers are reserved around every booking, and the
/// concatenation is sorted ascending by `(date, start)`. The result is
/// exactly a reordering of the rule-by-rule expansion; every booking lies on
/// a day of the range and within a covering rule's matching template.
pub fn generate(
    rules: &Vec<AvailabilityRule>,
    range_start: &Date,
    range_end: &Date,
    duration: u32,
    buffer: &BufferTime,
) -> (out: Vec<AvailableTimeSlot>)
    requires
        forall|i: int| 0 <= i < rules@.len() ==> (#[trigger] rules@[i])@.wf(),
        range_start.wf(),
        range_end.wf(),
        duration >= 1,
    ensures
        out@.to_multiset() == all_emissions(
            rule_models(rules@),
            *range_start,
            *range_end,
            duration as int,
            *buffer,
        ).to_multiset(),
        out@.len() == all_emissions(
            rule_models(rules@),
            *range_start,
            *range_end,
            duration as int,
            *buffer,
        ).len(),
        sorted_slots(out@),
        forall|k: int|
            0 <= k < out@.len() ==> {
                let e = #[trigger] out@[k];
                &&& range_start.spec_day_number() <= e.date.spec_day_number()
                    <= range_end.spec_day_number()
                &&& e.date.valid_md()
                &&& e.start_time.wf()
                &&& e.end_time.wf()
                &&& emission_covered(rule_models(rules@), duration as int, e)
            },
{
    let ghost models = rule_models(rules@);
    let ghost spec_all = all_emissions(models, *range_start, *range_end, duration as int, *buffer);
    let mut acc: Vec<AvailableTimeSlot> = Vec::new();
    let mut i: usize = 0;
    proof {
        assert(models.skip(0) =~= models);
        assert(acc@ + all_emissions(models, *range_start, *range_end, duration as int, *buffer)
            =~= all_emissions(models, *range_start, *range_end, duration as int, *buffer));
    }
    while i < rules.len()
        invariant
            i <= rules@.len(),
            models == rule_models(rules@),
            spec_all == all_emissions(models, *range_start, *range_end, duration as int, *buffer),
            forall|k: int| 0 <= k < rules@.len() ==> (#[trigger] rules@[k])@.wf(),
            range_start.wf(),
            range_end.wf(),
            duration >= 1,
            acc@ + all_emissions(
                models.skip(i as int),
                *range_start,
                *range_end,
                duration as int,
                *buffer,
            ) == spec_all,
        decreases rules@.len() - i,
    {
        proof {
            assert(models.skip(i as int)[0] == rules@[i as int]@);
            assert(models.skip(i as int).drop_first() =~= models.skip(i as int + 1));
        }
        let ghost acc_before = acc@;
        let mut part = process_availability_rule(&rules[i], range_start, range_end, duration, buffer);
        acc.append(&mut part);
        proof {
            assert(acc@ + all_emissions(
                models.skip(i as int + 1),
                *range_start,
                *range_end,
                duration as int,
                *buffer,
            ) =~= acc_before + all_emissions(
                models.skip(i as int),
                *range_start,
                *range_end,
                duration as int,
                *buffer,
            ));
        }
        i = i + 1;
    }
    proof {
        assert(models.skip(rules@.len() as int) =~= Seq::<RuleModel>::empty());
        assert(acc@ =~= acc@ + all_emissions(
            models.skip(rules@.len() as int),
            *range_start,
            *range_end,
            duration as int,
            *buffer,
        ));
        assert(acc@ == spec_all);
        lemma_all_emissions_props(models, *range_start, *range_end, duration as int, *buffer);
    }
    let out = sort_slots(acc);
    proof {
        broadcast use vstd::seq_lib::to_multiset_contains;

        vstd::seq_lib::to_multiset_len(out@);
        vstd::seq_lib::to_multiset_len(spec_all);

        assert forall|k: int| #![trigger out@[k]] 0 <= k < out@.len() implies {
            let e = out@[k];
            &&& range_start.spec_day_number() <= e.date.spec_day_number()
                <= range_end.spec_day_number()
            &&& e.date.valid_md()
            &&& e.start_time.wf()
            &&& e.end_time.wf()
            &&& emission_covered(models, duration as int, e)
        } by {
            let e = out@[k];
            assert(out@.contains(e));
            assert(out@.to_multiset().count(e) > 0);
            assert(spec_all.to_multiset().count(e) > 0);
            assert(spec_all.contains(e));
            let m = choose|m: int| 0 <= m < spec_all.len() && spec_all[m] == e;
            assert(0 <= m < spec_all.len());
        }
    }
    out
}

} // verus!

