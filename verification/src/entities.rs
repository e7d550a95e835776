//! Resource entities on the field — food sources and home bases — and the
//! traits shared by everything that sits at a position under an id.

use vstd::prelude::*;
use crate::Id;
use crate::geom::{Vec2, in_bounds, dist_sq, dist_sq_fp};

verus! {

/// Amount of food a freshly spawned food source holds.
pub const FOOD_SOURCE_INITIAL_AMOUNT: u32 = 100;

/// Something that sits at a point on the field.
pub trait Positioned {
    /// The entity's position.
    spec fn pos_spec(&self) -> Vec2;

    /// Reads the position.
    fn get_position(&self) -> (r: Vec2)
        ensures
            r == self.pos_spec(),
    ;

    /// Replaces the position.
    fn set_position(&mut self, position: Vec2)
        ensures
            final(self).pos_spec() == position,
    ;
}

/// Something owned by the world under a stable id.
pub trait Entity: Positioned {
    /// The entity's id.
    spec fn id_spec(&self) -> Id;

    /// Reads the id.
    fn get_id(&self) -> (r: Id)
        ensures
            r == self.id_spec(),
    ;

    /// Replaces the id, leaving the position alone.
    fn set_id(&mut self, id: Id)
        ensures
            final(self).id_spec() == id,
            final(self).pos_spec() == old(self).pos_spec(),
    ;
}

/// Something that stores a food quantity. Additions stick at the carrier's
/// capacity instead of wrapping; removals stop at zero.
pub trait HasFood {
    /// The stored quantity.
    spec fn food_spec(&self) -> int;

    /// The largest quantity the carrier's representation can hold.
    spec fn food_cap_spec(&self) -> int;

    /// Adds `amount`, saturating at the carrier's capacity.
    fn add_food(&mut self, amount: u32) -> (r: u32)
        ensures
            final(self).food_spec() == if old(self).food_spec() + amount
                > old(self).food_cap_spec() {
                old(self).food_cap_spec()
            } else {
                old(self).food_spec() + amount
            },
            r == amount,
    ;

    /// Removes up to `amount`, stopping at zero; returns what was removed.
    fn remove_food(&mut self, amount: u32) -> (r: u32)
        ensures
            final(self).food_spec() == if old(self).food_spec() >= amount {
                old(self).food_spec() - amount
            } else {
                0
            },
            r == if old(self).food_spec() >= amount {
                amount as int
            } else {
                old(self).food_spec()
            },
    ;
}

/// A harvestable deposit of food. Its amount only ever decreases once
/// spawned (except through an explicit top-up), and the world removes it
/// when the amount reaches zero.
#[derive(Debug)]
pub struct FoodSource {
    pub id: Id,
    pub amount: u32,
    pub position: Vec2,
}

impl FoodSource {
    /// A new source at the origin holding the initial amount.
    pub fn new(id: Id) -> (r: FoodSource)
        ensures
            r.id == id,
            r.amount == FOOD_SOURCE_INITIAL_AMOUNT,
            r.position == (Vec2 { x: 0, y: 0 }),
    {
        FoodSource { id, amount: FOOD_SOURCE_INITIAL_AMOUNT, position: Vec2 { x: 0, y: 0 } }
    }

    /// Harvests up to `amount`: the source loses exactly what the caller
    /// collects, which is the smaller of the request and what remains.
    pub fn reduce_food(&mut self, amount: u32) -> (collected: u32)
        ensures
            collected == if old(self).amount >= amount { amount } else { old(self).amount },
            final(self).amount == old(self).amount - collected,
            final(self).id == old(self).id,
            final(self).position == old(self).position,
    {
        if self.amount >= amount {
            self.amount = self.amount - amount;
            amount
        } else {
            let remaining: u32 = self.amount;
            self.amount = 0;
            remaining
        }
    }

    /// Tops the source up by `amount`; the caller must keep the total
    /// within the representation.
    pub fn increase_food(&mut self, amount: u32) -> (r: u32)
        requires
            old(self).amount + amount <= u32::MAX,
        ensures
            final(self).amount == old(self).amount + amount,
            r == final(self).amount,
            final(self).id == old(self).id,
            final(self).position == old(self).position,
    {
        self.amount = self.amount + amount;
        self.amount
    }

    /// What remains to harvest.
    pub fn amount(&self) -> (r: u32)
        ensures
            r == self.amount,
    {
        self.amount
    }
}

impl Positioned for FoodSource {
    open spec fn pos_spec(&self) -> Vec2 {
        self.position
    }

    fn get_position(&self) -> (r: Vec2) {
        self.position
    }

    fn set_position(&mut self, position: Vec2) {
        self.position = position;
    }
}

impl Entity for FoodSource {
    open spec fn id_spec(&self) -> Id {
        self.id
    }

    fn get_id(&self) -> (r: Id) {
        self.id
    }

    fn set_id(&mut self, id: Id) {
        self.id = id;
    }
}

/// A drop-off point whose stored food grows as agents deliver.
#[derive(Debug)]
pub struct HomeBase {
    pub id: Id,
    pub food_stored_amount: u64,
    pub position: Vec2,
}

impl HomeBase {
    /// A new, empty base at the origin.
    pub fn new(id: Id) -> (r: HomeBase)
        ensures
            r.id == id,
            r.food_stored_amount == 0,
            r.position == (Vec2 { x: 0, y: 0 }),
    {
        HomeBase { id, food_stored_amount: 0, position: Vec2 { x: 0, y: 0 } }
    }

    /// How much has been delivered here over the run.
    pub fn get_food_stored_amount(&self) -> (r: u64)
        ensures
            r == self.food_stored_amount,
    {
        self.food_stored_amount
    }
}

impl Positioned for HomeBase {
    open spec fn pos_spec(&self) -> Vec2 {
        self.position
    }

    fn get_position(&self) -> (r: Vec2) {
        self.position
    }

    fn set_position(&mut self, position: Vec2) {
        self.position = position;
    }
}

impl Entity for HomeBase {
    open spec fn id_spec(&self) -> Id {
        self.id
    }

    fn get_id(&self) -> (r: Id) {
        self.id
    }

    fn set_id(&mut self, id: Id) {
        self.id = id;
    }
}

impl HasFood for HomeBase {
    open spec fn food_spec(&self) -> int {
        self.food_stored_amount as int
    }

    open spec fn food_cap_spec(&self) -> int {
        u64::MAX as int
    }

    fn add_food(&mut self, amount: u32) -> (r: u32) {
        self.food_stored_amount = crate::utils::sat_add_u64(self.food_stored_amount, amount as u64);
        amount
    }

    fn remove_food(&mut self, amount: u32) -> (r: u32) {
        if self.food_stored_amount >= amount as u64 {
            self.food_stored_amount = self.food_stored_amount - amount as u64;
            amount
        } else {
            let removed: u32 = self.food_stored_amount as u32;
            self.food_stored_amount = 0;
            removed
        }
    }
}

/// Accumulator of the nearest-scan fold: the index of the closest element
/// among `cur` and everything from position `i` on, scanning forward and
/// keeping the earlier index on ties.
pub open spec fn closest_from<U: Positioned>(s: Seq<U>, p: Vec2, i: int, cur: int) -> int
    decreases s.len() - i,
{
    if i < 0 || i >= s.len() {
        cur
    } else {
        closest_from(
            s,
            p,
            i + 1,
            if dist_sq(s[i].pos_spec(), p) < dist_sq(s[cur].pos_spec(), p) {
                i
            } else {
                cur
            },
        )
    }
}

/// Index of the element of `s` closest to `p` (earliest index on ties);
/// meaningful only when `s` is non-empty.
pub open spec fn closest_idx<U: Positioned>(s: Seq<U>, p: Vec2) -> int {
    closest_from(s, p, 1, 0)
}

proof fn lemma_closest_from_min<U: Positioned>(s: Seq<U>, p: Vec2, i: int, cur: int)
    requires
        0 <= cur < s.len(),
        0 <= i <= s.len(),
    ensures
        0 <= closest_from(s, p, i, cur) < s.len(),
        dist_sq(s[closest_from(s, p, i, cur)].pos_spec(), p) <= dist_sq(s[cur].pos_spec(), p),
        forall|j: int|
            i <= j < s.len() ==> dist_sq(s[closest_from(s, p, i, cur)].pos_spec(), p) <= dist_sq(
                #[trigger] s[j].pos_spec(),
                p,
            ),
    decreases s.len() - i,
{
    if i < s.len() {
        if dist_sq(s[i].pos_spec(), p) < dist_sq(s[cur].pos_spec(), p) {
            lemma_closest_from_min(s, p, i + 1, i);
        } else {
            lemma_closest_from_min(s, p, i + 1, cur);
        }
    }
}

/// The nearest scan really returns a minimizer: no element of a non-empty
/// sequence lies strictly closer to `p` than the one at [`closest_idx`].
pub proof fn lemma_closest_is_min<U: Positioned>(s: Seq<U>, p: Vec2)
    requires
        s.len() > 0,
    ensures
        0 <= closest_idx(s, p) < s.len(),
        forall|j: int|
            0 <= j < s.len() ==> dist_sq(s[closest_idx(s, p)].pos_spec(), p) <= dist_sq(
                #[trigger] s[j].pos_spec(),
                p,
            ),
{
    lemma_closest_from_min(s, p, 1, 0);
}

/// Finds the entity in `collection` nearest to `entity` by Euclidean
/// distance, scanning in storage order so that the earliest of equally
/// distant candidates wins; `None` exactly when the collection is empty.
pub fn find_closest<T: Entity, U: Entity>(entity: &T, collection: &Vec<U>) -> (r: Option<usize>)
    requires
        in_bounds(entity.pos_spec()),
        positions_ok(collection@),
    ensures
        match r {
            Option::None => collection@.len() == 0,
            Option::Some(k) => collection@.len() > 0 && 0 <= k < collection@.len() && k
                == closest_idx(collection@, entity.pos_spec()),
        },
{
    let ghost s = collection@;
    let p: Vec2 = entity.get_position();
    if collection.len() == 0 {
        return Option::None;
    }
    let mut best: usize = 0;
    let mut best_dist: i64 = dist_sq_fp(collection[0].get_position(), p);
    let mut k: usize = 1;
    while k < collection.len()
        invariant
            s == collection@,
            p == entity.pos_spec(),
            in_bounds(p),
            positions_ok(s),
            1 <= k <= s.len(),
            0 <= best < s.len(),
            best_dist == dist_sq(s[best as int].pos_spec(), p),
            closest_from(s, p, k as int, best as int) == closest_idx(s, p),
        decreases s.len() - k,
    {
        let d: i64 = dist_sq_fp(collection[k].get_position(), p);
        if d < best_dist {
            best = k;
            best_dist = d;
        }
        k = k + 1;
    }
    Option::Some(best)
}


/// Every element of the collection sits on the field.
pub open spec fn positions_ok<U: Positioned>(s: Seq<U>) -> bool {
    forall|i: int| 0 <= i < s.len() ==> in_bounds((#[trigger] s[i]).pos_spec())
}

/// First index in `s` whose entity carries `id`; -1 when no entity does.
pub open spec fn idx_of<U: Entity>(s: Seq<U>, id: Id) -> int
    decreases s.len(),
{
    if s.len() == 0 {
        -1
    } else if s[0].id_spec() == id {
        0
    } else {
        let r = idx_of(s.drop_first(), id);
        if r == -1 {
            -1
        } else {
            r + 1
        }
    }
}

/// [`idx_of`] finds exactly the first occurrence: either -1 and the id is
/// absent, or a valid index carrying the id with no earlier occurrence.
pub proof fn lemma_idx_of_props<U: Entity>(s: Seq<U>, id: Id)
    ensures
        idx_of(s, id) == -1 ==> forall|j: int|
            0 <= j < s.len() ==> #[trigger] s[j].id_spec() != id,
        idx_of(s, id) != -1 ==> {
            let r = idx_of(s, id);
            &&& 0 <= r < s.len()
            &&& s[r].id_spec() == id
            &&& forall|j: int| 0 <= j < r ==> #[trigger] s[j].id_spec() != id
        },
    decreases s.len(),
{
    if s.len() > 0 && s[0].id_spec() != id {
        lemma_idx_of_props(s.drop_first(), id);
        let rr = idx_of(s.drop_first(), id);
        if rr != -1 {
            assert(s.drop_first()[rr] == s[rr + 1]);
            assert forall|j: int| 0 <= j < rr + 1 implies #[trigger] s[j].id_spec() != id by {
                if j > 0 {
                    assert(s.drop_first()[j - 1] == s[j]);
                    assert(s.drop_first()[j - 1].id_spec() != id);
                }
            }
        } else {
            assert forall|j: int| 0 <= j < s.len() implies #[trigger] s[j].id_spec() != id by {
                if j > 0 {
                    assert(s.drop_first()[j - 1] == s[j]);
                    assert(s.drop_first()[j - 1].id_spec() != id);
                }
            }
        }
    }
}

/// Finds the first entity carrying `id`, or `None` when no entity does.
pub fn find_index_by_id<U: Entity>(collection: &Vec<U>, id: Id) -> (r: Option<usize>)
    ensures
        match r {
            Option::None => idx_of(collection@, id) == -1,
            Option::Some(k) => k as int == idx_of(collection@, id) && 0 <= k < collection@.len()
                && collection@[k as int].id_spec() == id,
        },
{
    let ghost s = collection@;
    let mut k: usize = 0;
    while k < collection.len()
        invariant
            s == collection@,
            0 <= k <= s.len(),
            forall|j: int| 0 <= j < k ==> #[trigger] s[j].id_spec() != id,
        decreases s.len() - k,
    {
        if collection[k].get_id() == id {
            proof {
                lemma_idx_of_props(s, id);
            }
            return Option::Some(k);
        }
        k = k + 1;
    }
    proof {
        lemma_idx_of_props(s, id);
    }
    Option::None
}

} // verus!
