//! Turning the collisions of one tick into merges.
//!
//! Every collision between two live fruits of one tier yields two claims, one
//! in each direction. The claims are then read once, in order. A claim waits
//! under its owner's id until the opposite claim arrives; when it does, the two
//! fruits merge and are marked for deletion, so no later claim can take either
//! of them again. Among several fruits that touch each other, the pair whose
//! collision comes first in the list merges.

use vstd::prelude::*;
use std::collections::HashMap;
use crate::constants::known_score;
use crate::game::{find_piece, place_of, Piece};
use crate::resources::{Fruit, ScoreTracker};

verus! {

/// The wish of the fruit `id` to merge with the fruit `merge_target`.
#[derive(Clone, Copy, Debug, PartialEq, Eq, Structural)]
pub struct MarkForMerge {
    pub id: u64,
    pub merge_target: u64,
}

/// One merge: the two fruits that vanish, where they were, and the fruit that
/// takes their place, if any.
#[derive(Clone, Copy, Debug, PartialEq, Eq)]
pub struct ShouldMerge {
    pub entities: (u64, u64),
    pub merge_result: Option<Fruit>,
    pub translation: ((i32, i32), (i32, i32)),
}

/// The point halfway between two coordinates, rounded down.
pub open spec fn midpoint(a: int, b: int) -> int {
    (a + b) / 2
}

impl ShouldMerge {
    /// The merge of two fruits, the claiming one first.
    pub open spec fn of(first: Piece, second: Piece) -> ShouldMerge {
        ShouldMerge {
            entities: (first.id, second.id),
            merge_result: first.fruit.merged(),
            translation: ((first.x, first.y), (second.x, second.y)),
        }
    }

    /// Score that this merge earns: that of the fruit it creates.
    pub open spec fn gain(self) -> int {
        match self.merge_result {
            Some(fruit) => known_score(fruit@),
            None => 0,
        }
    }

    /// Whether the fruit `id` is one of the two that merge.
    pub open spec fn takes(self, id: u64) -> bool {
        self.entities.0 == id || self.entities.1 == id
    }

    pub open spec fn spec_new_x(self) -> int {
        midpoint(self.translation.0.0 as int, self.translation.1.0 as int)
    }

    pub open spec fn spec_new_y(self) -> int {
        midpoint(self.translation.0.1 as int, self.translation.1.1 as int)
    }

    fn new(first: &Piece, second: &Piece) -> (merge: ShouldMerge)
        ensures
            merge == Self::of(*first, *second),
    {
        ShouldMerge {
            entities: (first.id, second.id),
            merge_result: first.fruit.merge(),
            translation: ((first.x, first.y), (second.x, second.y)),
        }
    }

    /// Horizontal position of the created fruit.
    pub fn new_x(&self) -> (x: i32)
        ensures
            x == self.spec_new_x(),
    {
        halfway(self.translation.0.0, self.translation.1.0)
    }

    /// Vertical position of the created fruit.
    pub fn new_y(&self) -> (y: i32)
        ensures
            y == self.spec_new_y(),
    {
        halfway(self.translation.0.1, self.translation.1.1)
    }
}

fn halfway(a: i32, b: i32) -> (mid: i32)
    ensures
        mid == midpoint(a as int, b as int),
{
    let sum: i64 = a as i64 + b as i64;
    if sum >= 0 {
        (sum / 2) as i32
    } else {
        (-((1 - sum) / 2)) as i32
    }
}

/// Two fruits may merge when they are different fruits of one tier, both on
/// the field and neither marked for deletion.
pub open spec fn can_merge(pieces: Seq<Piece>, a: u64, b: u64) -> bool {
    &&& a != b
    &&& place_of(pieces, a) is Some
    &&& place_of(pieces, b) is Some
    &&& !pieces[place_of(pieces, a).unwrap()].mark_for_delete
    &&& !pieces[place_of(pieces, b).unwrap()].mark_for_delete
    &&& pieces[place_of(pieces, a).unwrap()].fruit == pieces[place_of(pieces, b).unwrap()].fruit
}

/// The places of two fruits that may merge.
fn mergeable(pieces: &Vec<Piece>, a: u64, b: u64) -> (places: Option<(usize, usize)>)
    ensures
        places is Some <==> can_merge(pieces@, a, b),
        places is Some ==> {
            &&& places.unwrap().0 == place_of(pieces@, a).unwrap()
            &&& places.unwrap().1 == place_of(pieces@, b).unwrap()
            &&& places.unwrap().0 < pieces.len()
            &&& places.unwrap().1 < pieces.len()
        },
{
    if a == b {
        return None;
    }
    match find_piece(pieces, a) {
        None => None,
        Some(i) => match find_piece(pieces, b) {
            None => None,
            Some(j) => {
                if !pieces[i].mark_for_delete && !pieces[j].mark_for_delete && pieces[i].fruit
                    == pieces[j].fruit {
                    Some((i, j))
                } else {
                    None
                }
            },
        },
    }
}

/// The claims that a list of collisions gives rise to: for each collision
/// between fruits that may merge, one claim in each direction, in the order of
/// the collisions.
pub open spec fn claims_of(events: Seq<(u64, u64)>, pieces: Seq<Piece>) -> Seq<MarkForMerge>
    decreases events.len(),
{
    if events.len() == 0 {
        Seq::empty()
    } else {
        let earlier = claims_of(events.drop_last(), pieces);
        let (a, b) = events.last();
        if can_merge(pieces, a, b) {
            earlier.push(MarkForMerge { id: a, merge_target: b }).push(
                MarkForMerge { id: b, merge_target: a },
            )
        } else {
            earlier
        }
    }
}

/// Reads the collisions that began this tick and returns the claims they give
/// rise to. A collision that names a fruit which is gone or marked for
/// deletion, or two fruits of different tiers, gives none.
pub fn collision(events: &Vec<(u64, u64)>, pieces: &Vec<Piece>) -> (claims: Vec<MarkForMerge>)
    ensures
        claims@ == claims_of(events@, pieces@),
{
    let mut claims: Vec<MarkForMerge> = Vec::new();
    let mut i: usize = 0;
    while i < events.len()
        invariant
            i <= events.len(),
            claims@ == claims_of(events@.take(i as int), pieces@),
        decreases events.len() - i,
    {
        let (a, b) = events[i];
        proof {
            assert(events@.take(i + 1).drop_last() == events@.take(i as int));
        }
        if mergeable(pieces, a, b).is_some() {
            claims.push(MarkForMerge { id: a, merge_target: b });
            claims.push(MarkForMerge { id: b, merge_target: a });
        }
        i = i + 1;
    }
    proof {
        assert(events@.take(events.len() as int) == events@);
    }
    claims
}

/// State of one pass over the claims.
pub struct MergePass {
    /// The fruits, with those merged so far marked for deletion.
    pub pieces: Seq<Piece>,
    /// The claims that wait for their opposite, by the id of their owner.
    pub pending: Map<u64, u64>,
    /// The merges so far, in the order they were found.
    pub merges: Seq<ShouldMerge>,
    pub score: int,
}

/// `piece`, marked for deletion.
pub open spec fn used(piece: Piece) -> Piece {
    Piece { mark_for_delete: true, ..piece }
}

impl MergePass {
    /// The pass before any claim is read.
    pub open spec fn start(pieces: Seq<Piece>, score: int) -> MergePass {
        MergePass { pieces, pending: Map::empty(), merges: Seq::empty(), score }
    }

    /// Whether the opposite of `claim` is waiting.
    pub open spec fn answers(self, claim: MarkForMerge) -> bool {
        self.pending.contains_key(claim.merge_target) && self.pending[claim.merge_target]
            == claim.id
    }

    /// Reads one claim.
    ///
    /// A claim between fruits that may not merge (any more) is dropped. A claim
    /// that answers a waiting one merges the two fruits. Any other claim
    /// waits, unless its owner already has a claim waiting.
    pub open spec fn step(self, claim: MarkForMerge) -> MergePass {
        if !can_merge(self.pieces, claim.id, claim.merge_target) {
            self
        } else if self.answers(claim) {
            let i = place_of(self.pieces, claim.id).unwrap();
            let j = place_of(self.pieces, claim.merge_target).unwrap();
            let merge = ShouldMerge::of(self.pieces[i], self.pieces[j]);
            MergePass {
                pieces: self.pieces.update(i, used(self.pieces[i])).update(j, used(self.pieces[j])),
                pending: self.pending.remove(claim.merge_target),
                merges: self.merges.push(merge),
                score: self.score + merge.gain(),
            }
        } else if !self.pending.contains_key(claim.id) {
            MergePass { pending: self.pending.insert(claim.id, claim.merge_target), ..self }
        } else {
            self
        }
    }

    /// Reads the claims in order.
    pub open spec fn run(self, claims: Seq<MarkForMerge>) -> MergePass
        decreases claims.len(),
    {
        if claims.len() == 0 {
            self
        } else {
            self.run(claims.drop_last()).step(claims.last())
        }
    }
}

/// The pass over `claims` that starts from the given fruits and score.
pub open spec fn merge_pass(
    pieces: Seq<Piece>,
    score: int,
    claims: Seq<MarkForMerge>,
) -> MergePass {
    MergePass::start(pieces, score).run(claims)
}

/// The score never falls during a pass.
pub proof fn score_never_falls(pass: MergePass, claims: Seq<MarkForMerge>, sooner: int)
    requires
        0 <= sooner <= claims.len(),
    ensures
        pass.run(claims.take(sooner)).score <= pass.run(claims).score,
    decreases claims.len(),
{
    if sooner == claims.len() {
        assert(claims.take(sooner) == claims);
    } else {
        assert(claims.drop_last().take(sooner) == claims.take(sooner));
        score_never_falls(pass, claims.drop_last(), sooner);
        let before = pass.run(claims.drop_last());
        let claim = claims.last();
        if can_merge(before.pieces, claim.id, claim.merge_target) && before.answers(claim) {
            let i = place_of(before.pieces, claim.id).unwrap();
            before.pieces[i].fruit.merged_is_next_tier();
        }
    }
}

/// Resolves the claims of one tick. Each pair of fruits whose claims answer
/// each other merges: both are marked for deletion, and the score grows by the
/// value of the fruit that the merge creates. Claims left waiting at the end
/// are forgotten. The created fruits are not placed on the field: the merges
/// are returned for the caller to do so.
pub fn merge_fruits(
    claims: &Vec<MarkForMerge>,
    pieces: &mut Vec<Piece>,
    score_tracker: &mut ScoreTracker,
) -> (merges: Vec<ShouldMerge>)
    requires
        merge_pass(old(pieces)@, old(score_tracker).score as int, claims@).score <= u32::MAX,
    ensures
        final(pieces)@ == merge_pass(
            old(pieces)@,
            old(score_tracker).score as int,
            claims@,
        ).pieces,
        merges@ == merge_pass(old(pieces)@, old(score_tracker).score as int, claims@).merges,
        final(score_tracker).score == merge_pass(
            old(pieces)@,
            old(score_tracker).score as int,
            claims@,
        ).score,
{
    let ghost begin = MergePass::start(pieces@, score_tracker.score as int);
    let mut pending: HashMap<u64, u64> = HashMap::new();
    let mut merges: Vec<ShouldMerge> = Vec::new();
    let mut i: usize = 0;
    while i < claims.len()
        invariant
            i <= claims.len(),
            begin.run(claims@).score <= u32::MAX,
            begin.run(claims@.take(i as int)) == (MergePass {
                pieces: pieces@,
                pending: pending@,
                merges: merges@,
                score: score_tracker.score as int,
            }),
        decreases claims.len() - i,
    {
        let claim = claims[i];
        let ghost before = begin.run(claims@.take(i as int));
        proof {
            assert(claims@.take(i + 1).drop_last() == claims@.take(i as int));
            score_never_falls(begin, claims@, i + 1);
        }
        match mergeable(pieces, claim.id, claim.merge_target) {
            None => {},
            Some((a, b)) => {
                let answered = match pending.get(&claim.merge_target) {
                    Some(target) => *target == claim.id,
                    None => false,
                };
                if answered {
                    let first = pieces[a];
                    let second = pieces[b];
                    let merge = ShouldMerge::new(&first, &second);
                    pieces.set(a, Piece { mark_for_delete: true, ..first });
                    pieces.set(b, Piece { mark_for_delete: true, ..second });
                    pending.remove(&claim.merge_target);
                    match merge.merge_result {
                        Some(fruit) => {
                            score_tracker.add_score(fruit.score());
                        },
                        None => {},
                    }
                    merges.push(merge);
                } else if !pending.contains_key(&claim.id) {
                    pending.insert(claim.id, claim.merge_target);
                }
            },
        }
        i = i + 1;
        proof {
            assert(begin.run(claims@.take(i as int)) == before.step(claim));
        }
    }
    proof {
        assert(claims@.take(claims.len() as int) == claims@);
    }
    merges
}

/// Marks the fruit with the given id for deletion: every stage skips it from
/// now on, and the next sweep removes it. Marking a marked fruit changes
/// nothing. Returns whether there is a fruit of that id.
pub fn mark_for_delete(pieces: &mut Vec<Piece>, id: u64) -> (found: bool)
    ensures
        found == place_of(old(pieces)@, id) is Some,
        found ==> final(pieces)@ == old(pieces)@.update(
            place_of(old(pieces)@, id).unwrap(),
            used(old(pieces)@[place_of(old(pieces)@, id).unwrap()]),
        ),
        !found ==> final(pieces)@ == old(pieces)@,
{
    match find_piece(pieces, id) {
        None => false,
        Some(place) => {
            let piece = pieces[place];
            pieces.set(place, Piece { mark_for_delete: true, ..piece });
            true
        },
    }
}

/// Marking twice is marking once.
pub proof fn marking_is_idempotent(piece: Piece)
    ensures
        used(used(piece)) == used(piece),
        piece.mark_for_delete ==> used(piece) == piece,
{
}

/// The fruits that a sweep keeps: those not marked for deletion, in order.
pub open spec fn live_fruits(pieces: Seq<Piece>) -> Seq<Piece>
    decreases pieces.len(),
{
    if pieces.len() == 0 {
        Seq::empty()
    } else if pieces.last().mark_for_delete {
        live_fruits(pieces.drop_last())
    } else {
        live_fruits(pieces.drop_last()).push(pieces.last())
    }
}

/// The ids of the fruits that a sweep removes: those marked for deletion, in
/// order.
pub open spec fn used_ids(pieces: Seq<Piece>) -> Seq<u64>
    decreases pieces.len(),
{
    if pieces.len() == 0 {
        Seq::empty()
    } else if pieces.last().mark_for_delete {
        used_ids(pieces.drop_last()).push(pieces.last().id)
    } else {
        used_ids(pieces.drop_last())
    }
}

/// Removes every fruit that is marked for deletion and returns the ids of the
/// removed fruits. The other fruits stay as and where they are.
pub fn remove_used_fruits(pieces: &mut Vec<Piece>) -> (removed: Vec<u64>)
    ensures
        final(pieces)@ == live_fruits(old(pieces)@),
        removed@ == used_ids(old(pieces)@),
{
    let mut kept: Vec<Piece> = Vec::new();
    let mut removed: Vec<u64> = Vec::new();
    let mut i: usize = 0;
    while i < pieces.len()
        invariant
            i <= pieces.len(),
            pieces@ == old(pieces)@,
            kept@ == live_fruits(pieces@.take(i as int)),
            removed@ == used_ids(pieces@.take(i as int)),
        decreases pieces.len() - i,
    {
        proof {
            assert(pieces@.take(i + 1).drop_last() == pieces@.take(i as int));
        }
        let piece = pieces[i];
        if piece.mark_for_delete {
            removed.push(piece.id);
        } else {
            kept.push(piece);
        }
        i = i + 1;
    }
    proof {
        assert(pieces@.take(pieces.len() as int) == pieces@);
    }
    *pieces = kept;
    removed
}

/// A sweep keeps exactly the unmarked fruits: each one that it keeps was on
/// the field unmarked, each unmarked one is kept, and kept and removed
/// together are as many as there were.
pub proof fn sweep_keeps_the_live(pieces: Seq<Piece>)
    ensures
        forall|piece: Piece| #[trigger]
            live_fruits(pieces).contains(piece) <==> pieces.contains(piece)
                && !piece.mark_for_delete,
        live_fruits(pieces).len() + used_ids(pieces).len() == pieces.len(),
    decreases pieces.len(),
{
    if pieces.len() > 0 {
        let earlier = pieces.drop_last();
        let last = pieces.last();
        sweep_keeps_the_live(earlier);
        assert forall|piece: Piece| #[trigger]
            live_fruits(pieces).contains(piece) <==> pieces.contains(piece)
                && !piece.mark_for_delete by {
            if live_fruits(pieces).contains(piece) {
                let at = choose|at: int|
                    0 <= at < live_fruits(pieces).len() && live_fruits(pieces)[at] == piece;
                if at < live_fruits(earlier).len() {
                    assert(live_fruits(earlier)[at] == piece);
                    assert(live_fruits(earlier).contains(piece));
                    let place = choose|place: int|
                        0 <= place < earlier.len() && earlier[place] == piece;
                    assert(pieces[place] == piece);
                } else {
                    assert(pieces[pieces.len() - 1] == piece);
                }
            }
            if pieces.contains(piece) && !piece.mark_for_delete {
                let place = choose|place: int| 0 <= place < pieces.len() && pieces[place] == piece;
                if place < earlier.len() {
                    assert(earlier[place] == piece);
                    assert(earlier.contains(piece));
                    assert(live_fruits(earlier).contains(piece));
                    let at = choose|at: int|
                        0 <= at < live_fruits(earlier).len() && live_fruits(earlier)[at] == piece;
                    assert(live_fruits(pieces)[at] == piece);
                } else {
                    assert(live_fruits(pieces)[live_fruits(pieces).len() - 1] == piece);
                }
            }
        }
    } else {
        assert forall|piece: Piece| #[trigger]
            live_fruits(pieces).contains(piece) <==> pieces.contains(piece)
                && !piece.mark_for_delete by {}
    }
}

/// A field without marked fruits is left as it is: sweeping twice removes no
/// more than sweeping once.
pub proof fn sweep_of_live_field(pieces: Seq<Piece>)
    requires
        forall|k: int| 0 <= k < pieces.len() ==> !(#[trigger] pieces[k]).mark_for_delete,
    ensures
        live_fruits(pieces) == pieces,
        used_ids(pieces) == Seq::<u64>::empty(),
    decreases pieces.len(),
{
    if pieces.len() > 0 {
        assert forall|k: int| 0 <= k < pieces.drop_last().len() implies !(
        #[trigger] pieces.drop_last()[k]).mark_for_delete by {
            assert(pieces.drop_last()[k] == pieces[k]);
        }
        sweep_of_live_field(pieces.drop_last());
        assert(!pieces[pieces.len() - 1].mark_for_delete);
        assert(pieces.drop_last().push(pieces.last()) == pieces);
    }
}

} // verus!
