//! The grouping shown to the user: zone name to area name to the display
//! names filed there, in the order they were added.

use vstd::prelude::*;

verus! {

/// The texts of a sequence of strings.
pub open spec fn texts(v: Seq<String>) -> Seq<Seq<char>> {
    v.map_values(|s: String| s@)
}

/// The map that an association list denotes; a later entry for a key
/// shadows an earlier one.
pub open spec fn assoc_map<V>(s: Seq<(Seq<char>, V)>) -> Map<Seq<char>, V>
    decreases s.len(),
{
    if s.len() == 0 {
        Map::empty()
    } else {
        assoc_map(s.drop_last()).insert(s.last().0, s.last().1)
    }
}

/// No key occurs twice in an association list.
pub open spec fn keys_unique<V>(s: Seq<(Seq<char>, V)>) -> bool {
    forall|i: int, j: int| 0 <= i < j < s.len() ==> s[i].0 != s[j].0
}

proof fn lemma_assoc_push<V>(s: Seq<(Seq<char>, V)>, e: (Seq<char>, V))
    ensures
        assoc_map(s.push(e)) == assoc_map(s).insert(e.0, e.1),
{
    assert(s.push(e).drop_last() =~= s);
}

proof fn lemma_assoc_absent<V>(s: Seq<(Seq<char>, V)>, k: Seq<char>)
    requires
        forall|i: int| 0 <= i < s.len() ==> (#[trigger] s[i]).0 != k,
    ensures
        !assoc_map(s).contains_key(k),
    decreases s.len(),
{
    if s.len() > 0 {
        lemma_assoc_absent(s.drop_last(), k);
    }
}

proof fn lemma_assoc_lookup<V>(s: Seq<(Seq<char>, V)>, i: int)
    requires
        keys_unique(s),
        0 <= i < s.len(),
    ensures
        assoc_map(s).contains_key(s[i].0),
        assoc_map(s)[s[i].0] == s[i].1,
    decreases s.len(),
{
    if i < s.len() - 1 {
        lemma_assoc_lookup(s.drop_last(), i);
    }
}

proof fn lemma_assoc_update<V>(s: Seq<(Seq<char>, V)>, i: int, v: V)
    requires
        keys_unique(s),
        0 <= i < s.len(),
    ensures
        assoc_map(s.update(i, (s[i].0, v))) == assoc_map(s).insert(s[i].0, v),
    decreases s.len(),
{
    let t = s.update(i, (s[i].0, v));
    if i == s.len() - 1 {
        assert(t.drop_last() =~= s.drop_last());
        assert(assoc_map(t) =~= assoc_map(s).insert(s[i].0, v));
    } else {
        assert(t.drop_last() =~= s.drop_last().update(i, (s[i].0, v)));
        lemma_assoc_update(s.drop_last(), i, v);
        assert(s.last().0 != s[i].0);
        assert(assoc_map(t) =~= assoc_map(s).insert(s[i].0, v));
    }
}

/// The names filed under one area.
pub struct AreaNames {
    pub area: String,
    pub names: Vec<String>,
}

impl AreaNames {
    pub open spec fn entry(&self) -> (Seq<char>, Seq<Seq<char>>) {
        (self.area@, texts(self.names@))
    }
}

/// The areas of one zone, each with its names.
pub struct ZoneAreas {
    pub zone: String,
    pub areas: Vec<AreaNames>,
}

impl ZoneAreas {
    pub open spec fn entries(&self) -> Seq<(Seq<char>, Seq<Seq<char>>)> {
        self.areas@.map_values(|a: AreaNames| a.entry())
    }

    pub open spec fn wf(&self) -> bool {
        keys_unique(self.entries())
    }

    /// Files `name` under `area`, creating the area when it is new.
    fn add(&mut self, area: String, name: String)
        requires
            old(self).wf(),
        ensures
            final(self).wf(),
            final(self).zone == old(self).zone,
            final(self)@ == add_to_area(old(self)@, area@, name@),
    {
        let ghost before = self.entries();
        let n = self.areas.len();
        let mut j: usize = 0;
        while j < n
            invariant
                n == self.areas@.len(),
                j <= n,
                self.entries() == before,
                self.zone == old(self).zone,
                before == old(self).entries(),
                keys_unique(before),
                forall|k: int| 0 <= k < j ==> (#[trigger] before[k]).0 != area@,
            decreases n - j,
        {
            if self.areas[j].area == area {
                let mut found = self.areas.remove(j);
                let ghost old_found = found;
                assert(before[j as int] == old_found.entry());
                found.names.push(name);
                assert(texts(found.names@) =~= texts(old_found.names@).push(name@));
                self.areas.insert(j, found);
                proof {
                    assert(self.entries() =~= before.update(j as int, (area@, texts(found.names@))));
                    lemma_assoc_lookup(before, j as int);
                    lemma_assoc_update(before, j as int, texts(found.names@));
                    assert(keys_unique(self.entries()));
                }
                return;
            }
            j = j + 1;
        }
        let mut names: Vec<String> = Vec::new();
        names.push(name);
        let entry = AreaNames { area, names };
        self.areas.push(entry);
        proof {
            assert(texts(entry.names@) =~= seq![name@]);
            assert(self.entries() =~= before.push(entry.entry()));
            lemma_assoc_absent(before, area@);
            lemma_assoc_push(before, entry.entry());
            assert(keys_unique(self.entries()));
            assert(seq![name@] =~= Seq::<Seq<char>>::empty().push(name@));
        }
    }
}

impl View for ZoneAreas {
    type V = Map<Seq<char>, Seq<Seq<char>>>;

    open spec fn view(&self) -> Self::V {
        assoc_map(self.entries())
    }
}

/// `area`'s names with `name` appended; a new area starts empty.
pub open spec fn add_to_area(
    m: Map<Seq<char>, Seq<Seq<char>>>,
    area: Seq<char>,
    name: Seq<char>,
) -> Map<Seq<char>, Seq<Seq<char>>> {
    let names = if m.contains_key(area) {
        m[area]
    } else {
        Seq::empty()
    };
    m.insert(area, names.push(name))
}

/// The grouping with `name` appended under `zone` and `area`; a new zone
/// or area starts empty.
pub open spec fn add_name(
    m: Map<Seq<char>, Map<Seq<char>, Seq<Seq<char>>>>,
    zone: Seq<char>,
    area: Seq<char>,
    name: Seq<char>,
) -> Map<Seq<char>, Map<Seq<char>, Seq<Seq<char>>>> {
    let areas = if m.contains_key(zone) {
        m[zone]
    } else {
        Map::empty()
    };
    m.insert(zone, add_to_area(areas, area, name))
}

/// Zone name to area name to display names.
pub struct Payload {
    zones: Vec<ZoneAreas>,
}

impl Payload {
    pub closed spec fn entries(&self) -> Seq<(Seq<char>, Map<Seq<char>, Seq<Seq<char>>>)> {
        self.zones@.map_values(|z: ZoneAreas| (z.zone@, z@))
    }

    /// Each zone occurs once, and within a zone each area occurs once.
    pub closed spec fn wf(&self) -> bool {
        &&& keys_unique(self.entries())
        &&& forall|i: int| 0 <= i < self.zones@.len() ==> (#[trigger] self.zones@[i]).wf()
    }

    /// The empty grouping.
    pub fn new() -> (r: Payload)
        ensures
            r.wf(),
            r@ == Map::<Seq<char>, Map<Seq<char>, Seq<Seq<char>>>>::empty(),
    {
        let r = Payload { zones: Vec::new() };
        assert(r.entries() =~= Seq::empty());
        r
    }

    /// Appends `value` to the names under `key1` (the zone) and `key2` (the
    /// area), creating either level when it is new.
    pub fn insert(&mut self, key1: &str, key2: &str, value: &str)
        requires
            old(self).wf(),
        ensures
            final(self).wf(),
            final(self)@ == add_name(old(self)@, key1@, key2@, value@),
    {
        let zone = String::from_str(key1);
        let area = String::from_str(key2);
        let name = String::from_str(value);
        let ghost before = self.entries();
        let n = self.zones.len();
        let mut i: usize = 0;
        while i < n
            invariant
                n == self.zones@.len(),
                i <= n,
                self.wf(),
                self.entries() == before,
                before == old(self).entries(),
                zone@ == key1@,
                area@ == key2@,
                name@ == value@,
                forall|k: int| 0 <= k < i ==> (#[trigger] before[k]).0 != zone@,
            decreases n - i,
        {
            if self.zones[i].zone == zone {
                let ghost zones_before = self.zones@;
                let mut found = self.zones.remove(i);
                let ghost old_view = found@;
                proof {
                    assert(before[i as int] == (zone@, old_view));
                }
                found.add(area, name);
                self.zones.insert(i, found);
                proof {
                    assert(self.zones@ =~= zones_before.update(i as int, found));
                    assert(self.entries() =~= before.update(i as int, (zone@, found@)));
                    lemma_assoc_lookup(before, i as int);
                    lemma_assoc_update(before, i as int, found@);
                    assert forall|k: int| 0 <= k < self.zones@.len() implies (#[trigger] self.zones@[k]).wf() by {
                        if k != i {
                            assert(self.zones@[k] == zones_before[k]);
                        }
                    }
                    assert(keys_unique(self.entries()));
                }
                return;
            }
            i = i + 1;
        }
        let mut fresh = ZoneAreas { zone, areas: Vec::new() };
        proof {
            assert(fresh.entries() =~= Seq::empty());
        }
        fresh.add(area, name);
        let ghost zones_before = self.zones@;
        self.zones.push(fresh);
        proof {
            assert(self.zones@ =~= zones_before.push(fresh));
            assert(self.entries() =~= before.push((zone@, fresh@)));
            lemma_assoc_absent(before, zone@);
            lemma_assoc_push(before, (zone@, fresh@));
            assert forall|k: int| 0 <= k < self.zones@.len() implies (#[trigger] self.zones@[k]).wf() by {
                if k < zones_before.len() {
                    assert(self.zones@[k] == zones_before[k]);
                }
            }
        }
    }
}

impl Payload {
    /// The zones, each with its areas and names.
    pub fn zones(&self) -> (r: &Vec<ZoneAreas>)
        requires
            self.wf(),
        ensures
            assoc_map(r@.map_values(|z: ZoneAreas| (z.zone@, z@))) == self@,
            keys_unique(r@.map_values(|z: ZoneAreas| (z.zone@, z@))),
            forall|i: int| 0 <= i < r@.len() ==> (#[trigger] r@[i]).wf(),
    {
        &self.zones
    }

    /// The names filed under `zone` and `area`, if any.
    pub fn names(&self, zone: &str, area: &str) -> (r: Option<&Vec<String>>)
        requires
            self.wf(),
        ensures
            r is Some <==> self@.contains_key(zone@) && self@[zone@].contains_key(area@),
            r is Some ==> texts(r->Some_0@) == self@[zone@][area@],
    {
        let zone_key = String::from_str(zone);
        let area_key = String::from_str(area);
        let n = self.zones.len();
        let mut i: usize = 0;
        while i < n
            invariant
                n == self.zones@.len(),
                i <= n,
                self.wf(),
                zone_key@ == zone@,
                area_key@ == area@,
                forall|k: int| 0 <= k < i ==> (#[trigger] self.entries()[k]).0 != zone@,
            decreases n - i,
        {
            let z = &self.zones[i];
            if z.zone == zone_key {
                proof {
                    lemma_assoc_lookup(self.entries(), i as int);
                    assert(self.entries()[i as int] == (zone@, z@));
                }
                let m = z.areas.len();
                let mut j: usize = 0;
                while j < m
                    invariant
                        m == z.areas@.len(),
                        j <= m,
                        z.wf(),
                        area_key@ == area@,
                        self@.contains_key(zone@),
                        self@[zone@] == z@,
                        forall|k: int| 0 <= k < j ==> (#[trigger] z.entries()[k]).0 != area@,
                    decreases m - j,
                {
                    if z.areas[j].area == area_key {
                        proof {
                            lemma_assoc_lookup(z.entries(), j as int);
                            assert(z.entries()[j as int] == z.areas@[j as int].entry());
                        }
                        return Some(&z.areas[j].names);
                    }
                    j = j + 1;
                }
                proof {
                    lemma_assoc_absent(z.entries(), area@);
                }
                return None;
            }
            i = i + 1;
        }
        proof {
            lemma_assoc_absent(self.entries(), zone@);
        }
        None
    }
}

impl View for Payload {
    type V = Map<Seq<char>, Map<Seq<char>, Seq<Seq<char>>>>;

    open spec fn view(&self) -> Self::V {
        assoc_map(self.entries())
    }
}

} // verus!
