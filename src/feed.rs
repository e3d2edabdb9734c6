//! A monitored feed's configuration and the plain decisions made from it:
//! where a message goes, which tags it carries, what the first fetch seeds.
use vstd::prelude::*;
use crate::dedup::Id;

verus! {

/// One monitored feed, as configured.
#[derive(Clone, Debug)]
pub struct Feed {
    pub id: String,
    pub name: String,
    pub url: String,
    /// Topic tags attached to every message of this feed.
    pub tags: Option<Vec<String>>,
    /// Destination profiles; `None` stands for the one profile `default`.
    pub profiles: Option<Vec<String>>,
    /// How many recent entry identifiers the dedup record keeps.
    pub cache_size: usize,
}

/// The name of the profile that a feed without a profile list publishes to.
pub open spec fn default_profile() -> Id {
    seq!['d', 'e', 'f', 'a', 'u', 'l', 't']
}

/// The profiles that a feed's messages go to.
pub open spec fn profiles_of(profiles: Option<Seq<Id>>) -> Seq<Id> {
    match profiles {
        Some(p) => p,
        None => seq![default_profile()],
    }
}

/// The topic tags that a feed's messages carry.
pub open spec fn tags_of(tags: Option<Seq<Id>>) -> Seq<Id> {
    match tags {
        Some(t) => t,
        None => Seq::empty(),
    }
}

/// The profiles, in configured order, whose presence among the registered
/// clients is `present`.
pub open spec fn routed(profiles: Seq<Id>, registered: Seq<Id>, present: bool) -> Seq<Id>
    decreases profiles.len(),
{
    if profiles.len() == 0 {
        Seq::empty()
    } else {
        let earlier = routed(profiles.drop_last(), registered, present);
        if registered.contains(profiles.last()) == present {
            earlier.push(profiles.last())
        } else {
            earlier
        }
    }
}

impl Feed {
    pub open spec fn profiles_view(&self) -> Option<Seq<Id>> {
        match self.profiles {
            Some(p) => Some(p.deep_view()),
            None => None,
        }
    }

    pub open spec fn tags_view(&self) -> Option<Seq<Id>> {
        match self.tags {
            Some(t) => Some(t.deep_view()),
            None => None,
        }
    }

    /// The destination profiles of this feed.
    pub fn profile_ids(&self) -> (r: Vec<String>)
        ensures
            r.deep_view() == profiles_of(self.profiles_view()),
    {
        match &self.profiles {
            Some(p) => copy_ids(p),
            None => {
                let d: String = "default".to_owned();
                proof {
                    reveal_strlit("default");
                }
                let mut r: Vec<String> = Vec::new();
                assert(d@ == default_profile());
                r.push(d);
                assert(r.deep_view()[0] == default_profile());
                assert(r.deep_view() =~= seq![default_profile()]);
                r
            },
        }
    }

    /// The topic tags of this feed, none where none are configured.
    pub fn tag_names(&self) -> (r: Vec<String>)
        ensures
            r.deep_view() == tags_of(self.tags_view()),
    {
        match &self.tags {
            Some(t) => copy_ids(t),
            None => {
                let r: Vec<String> = Vec::new();
                assert(r.deep_view() =~= Seq::<Id>::empty());
                r
            },
        }
    }
}

/// A copy of a list of identifiers.
pub fn copy_ids(v: &Vec<String>) -> (r: Vec<String>)
    ensures
        r.deep_view() == v.deep_view(),
{
    let mut r: Vec<String> = Vec::new();
    let mut i: usize = 0;
    while i < v.len()
        invariant
            i <= v.len(),
            r.deep_view() == v.deep_view().take(i as int),
        decreases v.len() - i,
    {
        let ghost before = r.deep_view();
        let s = v[i].clone();
        assert(s@ == v.deep_view()[i as int]);
        r.push(s);
        assert(r.deep_view() =~= before.push(s@));
        i = i + 1;
        assert(r.deep_view() =~= v.deep_view().take(i as int));
    }
    assert(v.deep_view().take(i as int) =~= v.deep_view());
    r
}

/// Whether `v` holds the identifier `id`.
pub fn contains_id(v: &Vec<String>, id: &String) -> (r: bool)
    ensures
        r == v.deep_view().contains(id@),
{
    let mut i: usize = 0;
    while i < v.len()
        invariant
            i <= v.len(),
            forall|k: int| 0 <= k < i ==> v.deep_view()[k] != id@,
        decreases v.len() - i,
    {
        if v[i] == *id {
            assert(v.deep_view()[i as int] == id@);
            return true;
        }
        i = i + 1;
    }
    false
}

/// Splits a feed's profiles into those with a registered client, which
/// receive the message, and those without, which are reported and skipped;
/// both in configured order.
pub fn fan_out(profiles: &Vec<String>, registered: &Vec<String>) -> (r: (Vec<String>, Vec<String>))
    ensures
        r.0.deep_view() == routed(profiles.deep_view(), registered.deep_view(), true),
        r.1.deep_view() == routed(profiles.deep_view(), registered.deep_view(), false),
{
    let mut to: Vec<String> = Vec::new();
    let mut missing: Vec<String> = Vec::new();
    let mut i: usize = 0;
    while i < profiles.len()
        invariant
            i <= profiles.len(),
            to.deep_view() == routed(profiles.deep_view().take(i as int), registered.deep_view(), true),
            missing.deep_view() == routed(profiles.deep_view().take(i as int), registered.deep_view(), false),
        decreases profiles.len() - i,
    {
        let ghost before = profiles.deep_view().take(i as int);
        let ghost to0 = to.deep_view();
        let ghost missing0 = missing.deep_view();
        assert(profiles.deep_view().take(i + 1).drop_last() =~= before);
        if contains_id(registered, &profiles[i]) {
            to.push(profiles[i].clone());
            assert(to.deep_view() =~= to0.push(profiles.deep_view()[i as int]));
        } else {
            missing.push(profiles[i].clone());
            assert(missing.deep_view() =~= missing0.push(profiles.deep_view()[i as int]));
        }
        i = i + 1;
    }
    assert(profiles.deep_view().take(i as int) =~= profiles.deep_view());
    (to, missing)
}

/// The dedup record that a feed job starts from: the identifiers of the
/// entries of the registration fetch, in the order received, or none where
/// that fetch failed.
pub fn feed_snapshot(fetched: Option<Vec<String>>) -> (r: Vec<String>)
    ensures
        r.deep_view() == match fetched {
            Some(ids) => ids.deep_view(),
            None => Seq::empty(),
        },
{
    match fetched {
        Some(ids) => ids,
        None => {
            let r: Vec<String> = Vec::new();
            assert(r.deep_view() =~= Seq::<Id>::empty());
            r
        },
    }
}

} // verus!
