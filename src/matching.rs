use vstd::prelude::*;

use crate::errors::SqliteError;
use crate::requests::{gender_fits, Gender};
use crate::store::Store;

verus! {

/// The search settings of the identity asking for a candidate.
#[derive(Debug)]
pub struct Seeker {
    pub uuid: String,
    pub looking_for: Gender,
    /// Search radius, in kilometres.
    pub search_radius: u16,
    pub looking_for_age_min: u8,
    pub looking_for_age_max: u8,
}

/// A profile that may be shown to a seeker, with its great-circle distance to
/// the seeker.
#[derive(Debug)]
pub struct PotentialLover {
    pub uuid: String,
    pub name: String,
    /// Last activity, in milliseconds since the Unix epoch.
    pub last_seen: i64,
    pub age: u8,
    pub gender: Gender,
    pub description: String,
    /// Haversine distance to the seeker, in metres, rounded up.
    pub distance: u64,
    pub photo_urls: Option<String>,
    pub photo_display_orders: Option<String>,
}

fn clone_text(o: &Option<String>) -> (r: Option<String>)
    ensures
        r == *o,
{
    match o {
        Some(s) => Some(s.clone()),
        None => None,
    }
}

impl Clone for PotentialLover {
    fn clone(&self) -> (r: Self)
        ensures
            r == *self,
    {
        PotentialLover {
            uuid: self.uuid.clone(),
            name: self.name.clone(),
            last_seen: self.last_seen,
            age: self.age,
            gender: self.gender,
            description: self.description.clone(),
            distance: self.distance,
            photo_urls: clone_text(&self.photo_urls),
            photo_display_orders: clone_text(&self.photo_display_orders),
        }
    }
}

/// `c` lies within the seeker's radius; a candidate exactly on the radius is in.
pub open spec fn within_radius(seeker: Seeker, c: PotentialLover) -> bool {
    c.distance <= seeker.search_radius as u64 * 1000
}

/// `c` may be shown to `seeker`, given the decisions recorded in `store`.
pub open spec fn eligible(store: Store, seeker: Seeker, c: PotentialLover) -> bool {
    &&& c.uuid@ != seeker.uuid@
    &&& gender_fits(seeker.looking_for, c.gender)
    &&& seeker.looking_for_age_min <= c.age <= seeker.looking_for_age_max
    &&& within_radius(seeker, c)
    &&& !store.has_swiped(seeker.uuid@, c.uuid@)
}

/// Index `i` of `pool` is the candidate to show: eligible, the most recently
/// active of the eligible ones, and the first such in pool order.
pub open spec fn best_candidate_at(
    store: Store,
    seeker: Seeker,
    pool: Seq<PotentialLover>,
    i: int,
) -> bool {
    &&& 0 <= i < pool.len()
    &&& eligible(store, seeker, pool[i])
    &&& forall|j: int|
        0 <= j < pool.len() && eligible(store, seeker, #[trigger] pool[j]) ==> pool[j].last_seen
            <= pool[i].last_seen
    &&& forall|j: int|
        0 <= j < i && eligible(store, seeker, #[trigger] pool[j]) ==> pool[j].last_seen
            < pool[i].last_seen
}

impl Store {
    /// Whether `c` may be shown to `seeker`.
    pub fn is_eligible(&self, seeker: &Seeker, c: &PotentialLover) -> (r: bool)
        ensures
            r == eligible(*self, *seeker, *c),
    {
        c.uuid != seeker.uuid && seeker.looking_for.accepts(c.gender) && seeker.looking_for_age_min
            <= c.age && c.age <= seeker.looking_for_age_max && c.distance <= seeker.search_radius
            as u64 * 1000 && self.find_swipe(&seeker.uuid, &c.uuid).is_none()
    }

    /// The candidate to show to `seeker` out of `pool`: among the eligible
    /// profiles, the most recently active one (the first in pool order on a
    /// tie). `NotFound` when no profile is eligible.
    pub fn find_love_target(&self, seeker: &Seeker, pool: &Vec<PotentialLover>) -> (r: Result<
        PotentialLover,
        SqliteError,
    >)
        ensures
            r is Err <==> forall|j: int|
                0 <= j < pool.len() ==> !eligible(*self, *seeker, #[trigger] pool@[j]),
            r is Err ==> r == Err::<PotentialLover, SqliteError>(SqliteError::NotFound),
            match r {
                Ok(c) => exists|i: int| best_candidate_at(*self, *seeker, pool@, i) && pool@[i] == c,
                Err(_) => true,
            },
    {
        let mut best: Option<usize> = None;
        let mut i: usize = 0;
        while i < pool.len()
            invariant
                i <= pool@.len(),
                match best {
                    Some(b) => {
                        &&& b < i
                        &&& eligible(*self, *seeker, pool@[b as int])
                        &&& forall|j: int|
                            0 <= j < i && eligible(*self, *seeker, #[trigger] pool@[j])
                                ==> pool@[j].last_seen <= pool@[b as int].last_seen
                        &&& forall|j: int|
                            0 <= j < b && eligible(*self, *seeker, #[trigger] pool@[j])
                                ==> pool@[j].last_seen < pool@[b as int].last_seen
                    },
                    None => forall|j: int|
                        0 <= j < i ==> !eligible(*self, *seeker, #[trigger] pool@[j]),
                },
            decreases pool@.len() - i,
        {
            if self.is_eligible(seeker, &pool[i]) {
                match best {
                    Some(b) => {
                        if pool[i].last_seen > pool[b].last_seen {
                            best = Some(i);
                        }
                    },
                    None => {
                        best = Some(i);
                    },
                }
            }
            i += 1;
        }
        match best {
            Some(b) => {
                assert(best_candidate_at(*self, *seeker, pool@, b as int));
                Ok(pool[b].clone())
            },
            None => Err(SqliteError::NotFound),
        }
    }

    /// Number of profiles of `pool` that may be shown to `seeker`.
    pub fn potential_matches_count(&self, seeker: &Seeker, pool: &Vec<PotentialLover>) -> (r: usize)
        ensures
            r == pool@.filter(|c: PotentialLover| eligible(*self, *seeker, c)).len(),
    {
        let ghost f = |c: PotentialLover| eligible(*self, *seeker, c);
        let mut n: usize = 0;
        let mut i: usize = 0;
        while i < pool.len()
            invariant
                forall|c: PotentialLover| #[trigger] f(c) == eligible(*self, *seeker, c),
                i <= pool@.len(),
                n <= i,
                n == pool@.take(i as int).filter(f).len(),
            decreases pool@.len() - i,
        {
            proof {
                crate::store::lemma_take_filter(pool@, i as int, f);
            }
            if self.is_eligible(seeker, &pool[i]) {
                n += 1;
            }
            i += 1;
        }
        assert(pool@.take(i as int) =~= pool@);
        n
    }
}

} // verus!
