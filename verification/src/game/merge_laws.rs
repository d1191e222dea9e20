//! What holds of every pass over the claims of a tick.

use vstd::prelude::*;
use crate::constants::{known_score, KNOWN_TYPE_COUNT, MAX_KNOWN_SCORE};
use crate::game::collision::{
    can_merge, claims_of, midpoint, used, MarkForMerge, MergePass, ShouldMerge,
};
use crate::game::{is_place_of, place_of, place_of_is, place_of_none, Piece};

verus! {

/// Whether some merge in the list takes the fruit `id`.
pub open spec fn taken(merges: Seq<ShouldMerge>, id: u64) -> bool {
    exists|k: int| 0 <= k < merges.len() && (#[trigger] merges[k]).takes(id)
}

/// Two merges that have no fruit in common.
pub open spec fn apart(one: ShouldMerge, other: ShouldMerge) -> bool {
    &&& !other.takes(one.entities.0)
    &&& !other.takes(one.entities.1)
}

/// `merge` joins two fruits of `pieces` that may merge, and records them as
/// they stand there.
pub open spec fn joins(pieces: Seq<Piece>, merge: ShouldMerge) -> bool {
    &&& can_merge(pieces, merge.entities.0, merge.entities.1)
    &&& merge == ShouldMerge::of(
        pieces[place_of(pieces, merge.entities.0).unwrap()],
        pieces[place_of(pieces, merge.entities.1).unwrap()],
    )
}

/// `now` holds the fruits of `then`, except that some have been marked for
/// deletion since.
pub open spec fn only_marks_added(then: Seq<Piece>, now: Seq<Piece>) -> bool {
    &&& now.len() == then.len()
    &&& forall|k: int|
        0 <= k < then.len() ==> (#[trigger] now[k]) == then[k] || now[k] == used(then[k])
}

/// Fruits that differ at most in their marks are found at the same places.
pub proof fn marks_move_no_fruit(then: Seq<Piece>, now: Seq<Piece>, id: u64)
    requires
        only_marks_added(then, now),
    ensures
        place_of(now, id) == place_of(then, id),
{
    place_of_none(then, id);
    place_of_none(now, id);
    if place_of(then, id) is Some {
        let i = place_of(then, id).unwrap();
        assert(is_place_of(now, id, i)) by {
            assert(now[i].id == then[i].id);
            assert forall|j: int| 0 <= j < i implies (#[trigger] now[j]).id != id by {
                assert(then[j].id != id);
            }
        }
        place_of_is(now, id, i);
    } else {
        assert forall|j: int| 0 <= j < now.len() implies (#[trigger] now[j]).id != id by {
            assert(then[j].id != id);
        }
    }
}

/// What a pass that began at the fruits `then` keeps true after every claim.
spec fn sound(then: Seq<Piece>, now: MergePass) -> bool {
    &&& only_marks_added(then, now.pieces)
    &&& forall|k: int|
        0 <= k < then.len() && (#[trigger] now.pieces[k]).mark_for_delete
            && !then[k].mark_for_delete ==> taken(now.merges, then[k].id)
    &&& forall|m: int|
        0 <= m < now.merges.len() ==> {
            &&& joins(then, #[trigger] now.merges[m])
            &&& now.pieces[place_of(then, now.merges[m].entities.0).unwrap()].mark_for_delete
            &&& now.pieces[place_of(then, now.merges[m].entities.1).unwrap()].mark_for_delete
        }
    &&& forall|m: int, n: int|
        0 <= m < n < now.merges.len() ==> apart(#[trigger] now.merges[m], #[trigger] now.merges[n])
}

/// Two fruits that may merge now could already merge when the pass began, and
/// stand now as they stood then.
proof fn still_as_then(then: Seq<Piece>, now: Seq<Piece>, a: u64, b: u64)
    requires
        only_marks_added(then, now),
        can_merge(now, a, b),
    ensures
        can_merge(then, a, b),
        now[place_of(then, a).unwrap()] == then[place_of(then, a).unwrap()],
        now[place_of(then, b).unwrap()] == then[place_of(then, b).unwrap()],
        place_of(now, a) == place_of(then, a),
        place_of(now, b) == place_of(then, b),
{
    marks_move_no_fruit(then, now, a);
    marks_move_no_fruit(then, now, b);
    place_of_none(then, a);
    place_of_none(then, b);
    let i = place_of(then, a).unwrap();
    let j = place_of(then, b).unwrap();
    assert(now[i] == then[i] || now[i] == used(then[i]));
    assert(now[j] == then[j] || now[j] == used(then[j]));
}

proof fn step_is_sound(then: Seq<Piece>, now: MergePass, claim: MarkForMerge)
    requires
        sound(then, now),
    ensures
        sound(then, now.step(claim)),
{
    let next = now.step(claim);
    if can_merge(now.pieces, claim.id, claim.merge_target) && now.answers(claim) {
        still_as_then(then, now.pieces, claim.id, claim.merge_target);
        let i = place_of(then, claim.id).unwrap();
        let j = place_of(then, claim.merge_target).unwrap();
        place_of_none(then, claim.id);
        place_of_none(then, claim.merge_target);
        let merge = ShouldMerge::of(now.pieces[i], now.pieces[j]);
        let last = now.merges.len() as int;
        assert(next.merges[last] == merge);
        assert(merge.takes(claim.id) && merge.takes(claim.merge_target));
        assert(only_marks_added(then, next.pieces));
        assert forall|k: int|
            0 <= k < then.len() && (#[trigger] next.pieces[k]).mark_for_delete
                && !then[k].mark_for_delete implies taken(next.merges, then[k].id) by {
            if k == i || k == j {
                assert(next.merges[last].takes(then[k].id));
            } else {
                assert(next.pieces[k] == now.pieces[k]);
                let m = choose|m: int|
                    0 <= m < now.merges.len() && (#[trigger] now.merges[m]).takes(then[k].id);
                assert(next.merges[m].takes(then[k].id));
            }
        }
        assert forall|m: int| 0 <= m < next.merges.len() implies {
            &&& joins(then, #[trigger] next.merges[m])
            &&& next.pieces[place_of(then, next.merges[m].entities.0).unwrap()].mark_for_delete
            &&& next.pieces[place_of(then, next.merges[m].entities.1).unwrap()].mark_for_delete
        } by {
            if m < last {
                assert(next.merges[m] == now.merges[m]);
                place_of_none(then, now.merges[m].entities.0);
                place_of_none(then, now.merges[m].entities.1);
            }
        }
        assert forall|m: int, n: int| 0 <= m < n < next.merges.len() implies apart(
            #[trigger] next.merges[m],
            #[trigger] next.merges[n],
        ) by {
            if n == last {
                assert(next.merges[m] == now.merges[m]);
                assert(joins(then, now.merges[m]));
            } else {
                assert(next.merges[m] == now.merges[m]);
                assert(next.merges[n] == now.merges[n]);
            }
        }
    }
}

proof fn run_is_sound(then: Seq<Piece>, now: MergePass, claims: Seq<MarkForMerge>)
    requires
        sound(then, now),
    ensures
        sound(then, now.run(claims)),
    decreases claims.len(),
{
    if claims.len() > 0 {
        run_is_sound(then, now, claims.drop_last());
        step_is_sound(then, now.run(claims.drop_last()), claims.last());
    }
}

/// A pass changes nothing about the fruits but their marks, and only adds
/// marks: no fruit is moved, retiered, removed or brought back.
pub proof fn pass_only_marks(pieces: Seq<Piece>, score: int, claims: Seq<MarkForMerge>)
    ensures
        only_marks_added(pieces, MergePass::start(pieces, score).run(claims).pieces),
{
    run_is_sound(pieces, MergePass::start(pieces, score), claims);
}

/// Every merge of a pass joins two different live fruits of one tier, and
/// both are marked for deletion when the pass ends. Fruits of different
/// tiers never merge, whatever the claims.
pub proof fn merges_join_equal_fruits(
    pieces: Seq<Piece>,
    score: int,
    claims: Seq<MarkForMerge>,
    m: int,
)
    requires
        0 <= m < MergePass::start(pieces, score).run(claims).merges.len(),
    ensures
        ({
            let end = MergePass::start(pieces, score).run(claims);
            let merge = end.merges[m];
            let first = place_of(pieces, merge.entities.0).unwrap();
            let second = place_of(pieces, merge.entities.1).unwrap();
            &&& joins(pieces, merge)
            &&& pieces[first].fruit == pieces[second].fruit
            &&& end.pieces[first] == used(pieces[first])
            &&& end.pieces[second] == used(pieces[second])
        }),
{
    let end = MergePass::start(pieces, score).run(claims);
    run_is_sound(pieces, MergePass::start(pieces, score), claims);
    let merge = end.merges[m];
    place_of_none(pieces, merge.entities.0);
    place_of_none(pieces, merge.entities.1);
}

/// No fruit is taken by two merges of one pass.
pub proof fn merges_share_no_fruit(
    pieces: Seq<Piece>,
    score: int,
    claims: Seq<MarkForMerge>,
    m: int,
    n: int,
)
    requires
        0 <= m < MergePass::start(pieces, score).run(claims).merges.len(),
        0 <= n < MergePass::start(pieces, score).run(claims).merges.len(),
        m != n,
    ensures
        apart(
            MergePass::start(pieces, score).run(claims).merges[m],
            MergePass::start(pieces, score).run(claims).merges[n],
        ),
{
    run_is_sound(pieces, MergePass::start(pieces, score), claims);
}

/// A fruit that a pass marks is taken by one of its merges.
pub proof fn marked_means_taken(
    pieces: Seq<Piece>,
    score: int,
    claims: Seq<MarkForMerge>,
    k: int,
)
    requires
        0 <= k < pieces.len(),
        !pieces[k].mark_for_delete,
        MergePass::start(pieces, score).run(claims).pieces[k].mark_for_delete,
    ensures
        taken(MergePass::start(pieces, score).run(claims).merges, pieces[k].id),
{
    run_is_sound(pieces, MergePass::start(pieces, score), claims);
}

/// What a pass over `claims` keeps true of the claims it has read.
spec fn echoed(claims: Seq<MarkForMerge>, now: MergePass) -> bool {
    &&& forall|id: u64| #[trigger]
        now.pending.contains_key(id) ==> claims.contains(
            MarkForMerge { id, merge_target: now.pending[id] },
        )
    &&& forall|m: int|
        0 <= m < now.merges.len() ==> {
            &&& claims.contains(
                MarkForMerge {
                    id: (#[trigger] now.merges[m]).entities.0,
                    merge_target: now.merges[m].entities.1,
                },
            )
            &&& claims.contains(
                MarkForMerge {
                    id: now.merges[m].entities.1,
                    merge_target: now.merges[m].entities.0,
                },
            )
        }
}

proof fn run_is_echoed(pieces: Seq<Piece>, score: int, claims: Seq<MarkForMerge>)
    ensures
        echoed(claims, MergePass::start(pieces, score).run(claims)),
    decreases claims.len(),
{
    if claims.len() > 0 {
        let earlier = claims.drop_last();
        let claim = claims.last();
        let now = MergePass::start(pieces, score).run(earlier);
        let next = now.step(claim);
        run_is_echoed(pieces, score, earlier);
        assert forall|c: MarkForMerge| earlier.contains(c) implies claims.contains(c) by {
            let i = choose|i: int| 0 <= i < earlier.len() && earlier[i] == c;
            assert(claims[i] == c);
        }
        assert(claims[claims.len() - 1] == claim);
        assert(claims.contains(claim));
        if can_merge(now.pieces, claim.id, claim.merge_target) && now.answers(claim) {
            place_of_none(now.pieces, claim.id);
            place_of_none(now.pieces, claim.merge_target);
            let last = now.merges.len() as int;
            assert(next.merges[last].entities == (claim.id, claim.merge_target));
            assert(claims.contains(
                MarkForMerge { id: claim.merge_target, merge_target: claim.id },
            ));
            assert forall|m: int| 0 <= m < next.merges.len() implies {
                &&& claims.contains(
                    MarkForMerge {
                        id: (#[trigger] next.merges[m]).entities.0,
                        merge_target: next.merges[m].entities.1,
                    },
                )
                &&& claims.contains(
                    MarkForMerge {
                        id: next.merges[m].entities.1,
                        merge_target: next.merges[m].entities.0,
                    },
                )
            } by {
                if m < last {
                    assert(next.merges[m] == now.merges[m]);
                }
            }
        }
    }
}

/// Two fruits merge only if each has claimed the other: both claims are in
/// the list that the pass read.
pub proof fn merges_answer_each_other(
    pieces: Seq<Piece>,
    score: int,
    claims: Seq<MarkForMerge>,
    m: int,
)
    requires
        0 <= m < MergePass::start(pieces, score).run(claims).merges.len(),
    ensures
        ({
            let merge = MergePass::start(pieces, score).run(claims).merges[m];
            &&& claims.contains(
                MarkForMerge { id: merge.entities.0, merge_target: merge.entities.1 },
            )
            &&& claims.contains(
                MarkForMerge { id: merge.entities.1, merge_target: merge.entities.0 },
            )
        }),
{
    run_is_echoed(pieces, score, claims);
}

/// Sum of what the merges earn.
pub open spec fn total_gain(merges: Seq<ShouldMerge>) -> int
    decreases merges.len(),
{
    if merges.len() == 0 {
        0
    } else {
        total_gain(merges.drop_last()) + merges.last().gain()
    }
}

/// A pass raises the score by what its merges earn, and by nothing else.
pub proof fn score_grows_by_gains(pieces: Seq<Piece>, score: int, claims: Seq<MarkForMerge>)
    ensures
        MergePass::start(pieces, score).run(claims).score == score + total_gain(
            MergePass::start(pieces, score).run(claims).merges,
        ),
    decreases claims.len(),
{
    if claims.len() > 0 {
        let now = MergePass::start(pieces, score).run(claims.drop_last());
        let next = now.step(claims.last());
        score_grows_by_gains(pieces, score, claims.drop_last());
        if next.merges.len() > now.merges.len() {
            assert(next.merges.drop_last() == now.merges);
        }
    }
}

/// Two fruits of the largest tier vanish without a successor and earn
/// nothing.
pub proof fn largest_fruits_vanish(first: Piece, second: Piece)
    requires
        first.fruit@ == KNOWN_TYPE_COUNT - 1,
    ensures
        ShouldMerge::of(first, second).merge_result is None,
        ShouldMerge::of(first, second).gain() == 0,
{
    first.fruit.merged_is_next_tier();
}

/// Two fruits below the largest tier make one fruit of the next tier, halfway
/// between them, and earn the score of that tier.
pub proof fn smaller_fruits_grow(first: Piece, second: Piece)
    requires
        0 <= first.fruit@ < KNOWN_TYPE_COUNT - 1,
    ensures
        ({
            let merge = ShouldMerge::of(first, second);
            &&& merge.merge_result is Some
            &&& merge.merge_result.unwrap()@ == first.fruit@ + 1
            &&& merge.gain() == known_score(first.fruit@ + 1)
            &&& merge.spec_new_x() == midpoint(first.x as int, second.x as int)
            &&& merge.spec_new_y() == midpoint(first.y as int, second.y as int)
        }),
{
    first.fruit.merged_is_next_tier();
}

/// Reading one more claim.
proof fn run_one_more(pass: MergePass, claims: Seq<MarkForMerge>, claim: MarkForMerge)
    ensures
        pass.run(claims.push(claim)) == pass.run(claims).step(claim),
{
    assert(claims.push(claim).drop_last() == claims);
}

/// The pass `now` after the fruits `a` and `b` have merged on the claim of `b`.
pub open spec fn merged_pair(now: MergePass, a: u64, b: u64) -> MergePass
    recommends
        can_merge(now.pieces, a, b),
{
    let i = place_of(now.pieces, a).unwrap();
    let j = place_of(now.pieces, b).unwrap();
    let merge = ShouldMerge::of(now.pieces[j], now.pieces[i]);
    MergePass {
        pieces: now.pieces.update(j, used(now.pieces[j])).update(i, used(now.pieces[i])),
        pending: Map::empty(),
        merges: now.merges.push(merge),
        score: now.score + merge.gain(),
    }
}

/// What one collision does to a pass in which no claim is waiting: if the two
/// fruits may still merge they do, otherwise nothing changes.
proof fn collision_in_pass(now: MergePass, a: u64, b: u64)
    requires
        now.pending == Map::<u64, u64>::empty(),
    ensures
        now.step(MarkForMerge { id: a, merge_target: b }).step(
            MarkForMerge { id: b, merge_target: a },
        ) == if can_merge(now.pieces, a, b) {
            merged_pair(now, a, b)
        } else {
            now
        },
{
    let there = MarkForMerge { id: a, merge_target: b };
    let back = MarkForMerge { id: b, merge_target: a };
    if can_merge(now.pieces, a, b) {
        let waiting = now.step(there);
        assert(!now.answers(there));
        assert(waiting.pending == now.pending.insert(a, b));
        assert(waiting.pieces == now.pieces);
        assert(can_merge(waiting.pieces, b, a));
        assert(waiting.answers(back));
        assert(waiting.pending.remove(a) == Map::<u64, u64>::empty());
    } else {
        assert(!can_merge(now.pieces, b, a));
    }
}

/// The claims of a list of collisions are those of the earlier collisions
/// followed by those of the last.
proof fn pass_over_events(pieces: Seq<Piece>, score: int, events: Seq<(u64, u64)>)
    requires
        events.len() > 0,
    ensures
        ({
            let before = MergePass::start(pieces, score).run(
                claims_of(events.drop_last(), pieces),
            );
            let end = MergePass::start(pieces, score).run(claims_of(events, pieces));
            let (a, b) = events.last();
            if can_merge(pieces, a, b) {
                end == before.step(MarkForMerge { id: a, merge_target: b }).step(
                    MarkForMerge { id: b, merge_target: a },
                )
            } else {
                end == before
            }
        }),
{
    let (a, b) = events.last();
    let earlier = claims_of(events.drop_last(), pieces);
    let begin = MergePass::start(pieces, score);
    if can_merge(pieces, a, b) {
        let there = MarkForMerge { id: a, merge_target: b };
        let back = MarkForMerge { id: b, merge_target: a };
        run_one_more(begin, earlier, there);
        run_one_more(begin, earlier.push(there), back);
    }
}

/// Between two collisions no claim is left waiting.
proof fn no_claim_waits(pieces: Seq<Piece>, score: int, events: Seq<(u64, u64)>)
    ensures
        MergePass::start(pieces, score).run(claims_of(events, pieces)).pending == Map::<
            u64,
            u64,
        >::empty(),
    decreases events.len(),
{
    if events.len() > 0 {
        no_claim_waits(pieces, score, events.drop_last());
        pass_over_events(pieces, score, events);
        let before = MergePass::start(pieces, score).run(claims_of(events.drop_last(), pieces));
        let (a, b) = events.last();
        collision_in_pass(before, a, b);
    }
}

/// A tick has at most as many merges as collisions, and each merge earns at
/// most the largest score of the table.
pub proof fn collisions_bound_merges(pieces: Seq<Piece>, score: int, events: Seq<(u64, u64)>)
    ensures
        MergePass::start(pieces, score).run(claims_of(events, pieces)).merges.len()
            <= events.len(),
        score <= MergePass::start(pieces, score).run(claims_of(events, pieces)).score <= score
            + MAX_KNOWN_SCORE * events.len(),
    decreases events.len(),
{
    if events.len() > 0 {
        collisions_bound_merges(pieces, score, events.drop_last());
        pass_over_events(pieces, score, events);
        no_claim_waits(pieces, score, events.drop_last());
        let before = MergePass::start(pieces, score).run(claims_of(events.drop_last(), pieces));
        let (a, b) = events.last();
        collision_in_pass(before, a, b);
        assert(MAX_KNOWN_SCORE * events.len() == MAX_KNOWN_SCORE * (events.len() - 1)
            + MAX_KNOWN_SCORE) by (nonlinear_arith);
    }
}

/// `short` is the beginning of `long`.
pub open spec fn begins(short: Seq<ShouldMerge>, long: Seq<ShouldMerge>) -> bool {
    &&& short.len() <= long.len()
    &&& forall|k: int| 0 <= k < short.len() ==> short[k] == long[k]
}

/// The pass over the collisions of a tick, cut off after the first `count`
/// collisions.
pub open spec fn pass_after(
    pieces: Seq<Piece>,
    score: int,
    events: Seq<(u64, u64)>,
    count: int,
) -> MergePass {
    MergePass::start(pieces, score).run(claims_of(events.take(count), pieces))
}

/// Later collisions add merges and take none back.
pub proof fn merges_only_added(
    pieces: Seq<Piece>,
    score: int,
    events: Seq<(u64, u64)>,
    count: int,
)
    requires
        0 <= count <= events.len(),
    ensures
        begins(
            pass_after(pieces, score, events, count).merges,
            pass_after(pieces, score, events, events.len() as int).merges,
        ),
    decreases events.len(),
{
    assert(events.take(events.len() as int) == events);
    if count < events.len() {
        assert(events.drop_last().take(count) == events.take(count));
        assert(events.drop_last().take(events.len() - 1) == events.drop_last());
        merges_only_added(pieces, score, events.drop_last(), count);
        pass_over_events(pieces, score, events);
        no_claim_waits(pieces, score, events.drop_last());
        let before = MergePass::start(pieces, score).run(claims_of(events.drop_last(), pieces));
        let (a, b) = events.last();
        collision_in_pass(before, a, b);
    }
}

/// Two fruits of one tier that collide merge with each other, unless a
/// collision earlier in the list has already merged one of them away. The
/// merge is then the next one after those of the earlier collisions, and by
/// `merges_share_no_fruit` the only one that takes either fruit.
pub proof fn touching_fruits_merge(
    pieces: Seq<Piece>,
    score: int,
    events: Seq<(u64, u64)>,
    e: int,
)
    requires
        0 <= e < events.len(),
        can_merge(pieces, events[e].0, events[e].1),
    ensures
        ({
            let before = pass_after(pieces, score, events, e).merges;
            let end = MergePass::start(pieces, score).run(claims_of(events, pieces)).merges;
            let (a, b) = events[e];
            &&& begins(before, end)
            &&& taken(before, a) || taken(before, b) || {
                &&& before.len() < end.len()
                &&& end[before.len() as int].entities == (b, a)
            }
            &&& taken(end, a) || taken(end, b)
        }),
{
    let (a, b) = events[e];
    let upto = events.take(e + 1);
    let before = pass_after(pieces, score, events, e);
    let after = pass_after(pieces, score, events, e + 1);
    let end = MergePass::start(pieces, score).run(claims_of(events, pieces));
    assert(events.take(events.len() as int) == events);
    assert(upto.drop_last() == events.take(e));
    assert(upto.last() == events[e]);
    merges_only_added(pieces, score, events, e);
    merges_only_added(pieces, score, events, e + 1);
    pass_over_events(pieces, score, upto);
    no_claim_waits(pieces, score, events.take(e));
    collision_in_pass(before, a, b);
    run_is_sound(pieces, MergePass::start(pieces, score), claims_of(events.take(e), pieces));
    if can_merge(before.pieces, a, b) {
        place_of_none(before.pieces, a);
        place_of_none(before.pieces, b);
        let at = before.merges.len() as int;
        assert(after.merges[at].entities == (b, a));
        assert(end.merges[at] == after.merges[at]);
        assert(end.merges[at].takes(a));
    } else {
        marks_move_no_fruit(pieces, before.pieces, a);
        marks_move_no_fruit(pieces, before.pieces, b);
        place_of_none(pieces, a);
        place_of_none(pieces, b);
        let i = place_of(pieces, a).unwrap();
        let j = place_of(pieces, b).unwrap();
        assert(before.pieces[i] == pieces[i] || before.pieces[i] == used(pieces[i]));
        assert(before.pieces[j] == pieces[j] || before.pieces[j] == used(pieces[j]));
        assert(before.pieces[i].mark_for_delete || before.pieces[j].mark_for_delete);
        if before.pieces[i].mark_for_delete {
            assert(taken(before.merges, a));
            let k = choose|k: int|
                0 <= k < before.merges.len() && (#[trigger] before.merges[k]).takes(a);
            assert(end.merges[k].takes(a));
        } else {
            assert(taken(before.merges, b));
            let k = choose|k: int|
                0 <= k < before.merges.len() && (#[trigger] before.merges[k]).takes(b);
            assert(end.merges[k].takes(b));
        }
    }
}

/// A tick with a single collision between two fruits that may merge: they
/// merge, both are marked, and the score grows by what the merge earns.
pub proof fn lone_collision_merges(pieces: Seq<Piece>, score: int, a: u64, b: u64)
    requires
        can_merge(pieces, a, b),
    ensures
        MergePass::start(pieces, score).run(claims_of(seq![(a, b)], pieces)) == merged_pair(
            MergePass::start(pieces, score),
            a,
            b,
        ),
        merged_pair(MergePass::start(pieces, score), a, b).merges.len() == 1,
{
    let events = seq![(a, b)];
    assert(events.drop_last() == Seq::<(u64, u64)>::empty());
    assert(events.last() == (a, b));
    pass_over_events(pieces, score, events);
    collision_in_pass(MergePass::start(pieces, score), a, b);
}

/// Every claim stems from a collision between its two fruits.
proof fn claims_stem_from_events(pieces: Seq<Piece>, events: Seq<(u64, u64)>, claim: MarkForMerge)
    requires
        claims_of(events, pieces).contains(claim),
    ensures
        events.contains((claim.id, claim.merge_target)) || events.contains(
            (claim.merge_target, claim.id),
        ),
    decreases events.len(),
{
    if events.len() > 0 {
        let earlier = claims_of(events.drop_last(), pieces);
        let claims = claims_of(events, pieces);
        let (a, b) = events.last();
        let at = choose|at: int| 0 <= at < claims.len() && claims[at] == claim;
        assert(events[events.len() - 1] == (a, b));
        if at < earlier.len() {
            assert(earlier[at] == claim);
            claims_stem_from_events(pieces, events.drop_last(), claim);
            let found = (claim.id, claim.merge_target);
            let turned = (claim.merge_target, claim.id);
            if events.drop_last().contains(found) {
                let e = choose|e: int|
                    0 <= e < events.drop_last().len() && events.drop_last()[e] == found;
                assert(events[e] == found);
            } else {
                let e = choose|e: int|
                    0 <= e < events.drop_last().len() && events.drop_last()[e] == turned;
                assert(events[e] == turned);
            }
        }
    }
}

/// Whether the list holds a collision between the two fruits, either way
/// round.
pub open spec fn touch(events: Seq<(u64, u64)>, a: u64, b: u64) -> bool {
    events.contains((a, b)) || events.contains((b, a))
}

/// Whether `id` is one of the three.
pub open spec fn among(id: u64, a: u64, b: u64, c: u64) -> bool {
    id == a || id == b || id == c
}

/// Three fruits of one tier that all touch each other, and nothing else: one
/// pair merges, and exactly one of the three is left for a later tick.
pub proof fn three_touching_fruits(
    pieces: Seq<Piece>,
    score: int,
    events: Seq<(u64, u64)>,
    a: u64,
    b: u64,
    c: u64,
)
    requires
        can_merge(pieces, a, b),
        can_merge(pieces, b, c),
        can_merge(pieces, a, c),
        touch(events, a, b),
        touch(events, b, c),
        touch(events, a, c),
        forall|e: int|
            0 <= e < events.len() ==> among((#[trigger] events[e]).0, a, b, c) && among(
                events[e].1,
                a,
                b,
                c,
            ),
    ensures
        ({
            let merges = MergePass::start(pieces, score).run(claims_of(events, pieces)).merges;
            &&& merges.len() == 1
            &&& merges[0].entities.0 != merges[0].entities.1
            &&& among(merges[0].entities.0, a, b, c)
            &&& among(merges[0].entities.1, a, b, c)
            &&& taken(merges, a) <==> merges[0].takes(a)
            &&& taken(merges, b) <==> merges[0].takes(b)
            &&& taken(merges, c) <==> merges[0].takes(c)
            &&& {
                ||| !taken(merges, a) && taken(merges, b) && taken(merges, c)
                ||| taken(merges, a) && !taken(merges, b) && taken(merges, c)
                ||| taken(merges, a) && taken(merges, b) && !taken(merges, c)
            }
        }),
{
    let claims = claims_of(events, pieces);
    let merges = MergePass::start(pieces, score).run(claims).merges;
    let e = if events.contains((a, b)) {
        choose|e: int| 0 <= e < events.len() && events[e] == (a, b)
    } else {
        choose|e: int| 0 <= e < events.len() && events[e] == (b, a)
    };
    assert(can_merge(pieces, b, a));
    touching_fruits_merge(pieces, score, events, e);
    assert(merges.len() >= 1);
    assert forall|m: int| 0 <= m < merges.len() implies {
        &&& among((#[trigger] merges[m]).entities.0, a, b, c)
        &&& among(merges[m].entities.1, a, b, c)
        &&& merges[m].entities.0 != merges[m].entities.1
    } by {
        let claim = MarkForMerge { id: merges[m].entities.0, merge_target: merges[m].entities.1 };
        merges_answer_each_other(pieces, score, claims, m);
        merges_join_equal_fruits(pieces, score, claims, m);
        claims_stem_from_events(pieces, events, claim);
        if events.contains((claim.id, claim.merge_target)) {
            let at = choose|at: int|
                0 <= at < events.len() && events[at] == (claim.id, claim.merge_target);
            assert(among(events[at].0, a, b, c));
        } else {
            let at = choose|at: int|
                0 <= at < events.len() && events[at] == (claim.merge_target, claim.id);
            assert(among(events[at].0, a, b, c));
        }
    }
    if merges.len() >= 2 {
        merges_share_no_fruit(pieces, score, claims, 0, 1);
        assert(among(merges[0].entities.0, a, b, c));
        assert(among(merges[1].entities.0, a, b, c));
    }
    assert(among(merges[0].entities.0, a, b, c));
    assert forall|id: u64| taken(merges, id) <==> merges[0].takes(id) by {
        if taken(merges, id) {
            let k = choose|k: int| 0 <= k < merges.len() && (#[trigger] merges[k]).takes(id);
            assert(k == 0);
        }
    }
}

} // verus!
