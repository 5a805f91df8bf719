//! Record aggregation: a batch of records filtered and filed by zone and
//! area for display.

use vstd::prelude::*;

use crate::grouping::{add_name, Payload};
use crate::records::{
    cleaned_name, display_name, has_content, should_include, spec_should_include,
    text_or_empty, assigned_recently, Person,
};

verus! {

/// The grouping of a batch judged at instant `now`: the records that pass
/// the filter, each filed under its zone and area in batch order.
pub open spec fn grouping(people: Seq<Person>, now: i64) -> Map<
    Seq<char>,
    Map<Seq<char>, Seq<Seq<char>>>,
>
    decreases people.len(),
{
    if people.len() == 0 {
        Map::empty()
    } else {
        let rest = grouping(people.drop_last(), now);
        let p = people.last();
        if spec_should_include(&p, now) {
            add_name(rest, text_or_empty(p.zone_name), text_or_empty(p.area_name), display_name(&p))
        } else {
            rest
        }
    }
}

/// Filters a batch and files the display name of each kept record under
/// its zone and area, keeping batch order; `now_ms` is the current instant
/// in milliseconds since the epoch.
pub fn process_people(people: Vec<Person>, now_ms: i64) -> (r: Payload)
    ensures
        r.wf(),
        r@ == grouping(people@, now_ms),
{
    let mut data = Payload::new();
    let n = people.len();
    let mut i: usize = 0;
    while i < n
        invariant
            n == people@.len(),
            i <= n,
            data.wf(),
            data@ == grouping(people@.subrange(0, i as int), now_ms),
        decreases n - i,
    {
        let p = &people[i];
        proof {
            assert(people@.subrange(0, i + 1).drop_last() =~= people@.subrange(0, i as int));
        }
        if should_include(p, now_ms) {
            let zone = match &p.zone_name {
                Some(z) => z.clone(),
                None => String::new(),
            };
            let area = match &p.area_name {
                Some(a) => a.clone(),
                None => String::new(),
            };
            let name = cleaned_name(p);
            data.insert(zone.as_str(), area.as_str(), name.as_str());
        }
        i = i + 1;
    }
    assert(people@.subrange(0, n as int) =~= people@);
    data
}

/// Nothing reaches the grouping but what passes the filter: every name in it
/// is the display name of a record of the batch whose zone and area have
/// content and equal the keys it is filed under, and whose assignment date is
/// present and at most fourteen days before `now`.
pub proof fn lemma_grouping_only_recent_named(
    people: Seq<Person>,
    now: i64,
    zone: Seq<char>,
    area: Seq<char>,
    k: int,
)
    requires
        grouping(people, now).contains_key(zone),
        grouping(people, now)[zone].contains_key(area),
        0 <= k < grouping(people, now)[zone][area].len(),
    ensures
        has_content(zone),
        has_content(area),
        exists|i: int|
            0 <= i < people.len() && spec_should_include(#[trigger] &people[i], now)
                && assigned_recently(people[i].referral_assigned_date, now)
                && text_or_empty(people[i].zone_name) == zone
                && text_or_empty(people[i].area_name) == area
                && display_name(&people[i]) == grouping(people, now)[zone][area][k],
    decreases people.len(),
{
    let g = grouping(people, now);
    let rest = grouping(people.drop_last(), now);
    let p = people.last();
    let last = people.len() - 1;
    let z = text_or_empty(p.zone_name);
    let a = text_or_empty(p.area_name);
    if spec_should_include(&p, now) && zone == z && area == a && k == g[zone][area].len() - 1 {
        assert(people[last] == p);
    } else {
        if spec_should_include(&p, now) && zone == z && area == a {
            assert(rest.contains_key(zone) && rest[zone].contains_key(area));
            assert(g[zone][area] == rest[zone][area].push(display_name(&p)));
        }
        assert(rest.contains_key(zone) && rest[zone].contains_key(area));
        assert(g[zone][area][k] == rest[zone][area][k]);
        lemma_grouping_only_recent_named(people.drop_last(), now, zone, area, k);
        let i = choose|i: int|
            0 <= i < people.drop_last().len() && spec_should_include(
                #[trigger] &people.drop_last()[i],
                now,
            ) && assigned_recently(people.drop_last()[i].referral_assigned_date, now)
                && text_or_empty(people.drop_last()[i].zone_name) == zone
                && text_or_empty(people.drop_last()[i].area_name) == area
                && display_name(&people.drop_last()[i]) == rest[zone][area][k];
        assert(people.drop_last()[i] == people[i]);
    }
}

/// The records of a batch that the filter keeps under `zone` and `area`.
pub open spec fn kept_under(now: i64, zone: Seq<char>, area: Seq<char>) -> spec_fn(Person) -> bool {
    |p: Person|
        spec_should_include(&p, now) && text_or_empty(p.zone_name) == zone && text_or_empty(
            p.area_name,
        ) == area
}

/// The display names of a run of records.
pub open spec fn names_of(people: Seq<Person>) -> Seq<Seq<char>> {
    people.map_values(|p: Person| display_name(&p))
}

/// The names under `zone` and `area`; none where either key is absent.
pub open spec fn names_under(
    g: Map<Seq<char>, Map<Seq<char>, Seq<Seq<char>>>>,
    zone: Seq<char>,
    area: Seq<char>,
) -> Seq<Seq<char>> {
    if g.contains_key(zone) && g[zone].contains_key(area) {
        g[zone][area]
    } else {
        Seq::empty()
    }
}

/// Each list of the grouping holds the display names of exactly the records
/// that the filter keeps under its zone and area, in batch order, repeats
/// included; a zone and area pair is present only when its list is not empty.
pub proof fn lemma_grouping_keeps_batch_order(
    people: Seq<Person>,
    now: i64,
    zone: Seq<char>,
    area: Seq<char>,
)
    ensures
        names_under(grouping(people, now), zone, area) == names_of(
            people.filter(kept_under(now, zone, area)),
        ),
        grouping(people, now).contains_key(zone) && grouping(people, now)[zone].contains_key(area)
            ==> grouping(people, now)[zone][area].len() > 0,
    decreases people.len(),
{
    reveal(Seq::filter);
    if people.len() > 0 {
        let rest = people.drop_last();
        let p = people.last();
        let pred = kept_under(now, zone, area);
        lemma_grouping_keeps_batch_order(rest, now, zone, area);
        let f = rest.filter(pred);
        if pred(p) {
            assert(people.filter(pred) == f.push(p));
            assert(names_of(f.push(p)) =~= names_of(f).push(display_name(&p)));
        } else {
            assert(people.filter(pred) == f);
        }
    } else {
        assert(names_of(people.filter(kept_under(now, zone, area))) =~= Seq::empty());
    }
}

} // verus!
