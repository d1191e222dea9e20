//! The fruits on the playing field and the stages that act on them.

use vstd::prelude::*;
use crate::constants::{known_size, CONTAINER_WIDTH, GRACE_PERIOD, MASS, SCALE};
use crate::resources::{Fruit, Timer};

pub mod collision;
pub mod game_over;
pub mod merge_laws;
pub mod mouse_click;
pub mod physics_manipulations;
pub mod session;
pub mod session_laws;

verus! {

/// Where a fruit is in its life: still falling in, or come to rest.
#[derive(Clone, Copy, Debug, PartialEq, Eq, Structural)]
pub enum Phase {
    Spawning,
    Settled,
}

/// Grace period of a new fruit, during which it cannot settle.
#[derive(Clone, Copy, Debug, PartialEq, Eq, Structural)]
pub struct TimeSinceSpawn {
    pub timer: Timer,
}

/// One fruit on the playing field.
///
/// Position and velocity belong to the physics step, which writes them between
/// ticks. A fruit marked for deletion stays in the set until the next sweep and
/// is skipped by every stage until then.
#[derive(Clone, Copy, Debug, PartialEq, Eq, Structural)]
pub struct Piece {
    pub id: u64,
    pub fruit: Fruit,
    pub x: i32,
    pub y: i32,
    pub vx: i32,
    pub vy: i32,
    pub mass: u32,
    pub phase: Phase,
    pub time_since_spawn: TimeSinceSpawn,
    pub mark_for_delete: bool,
}

/// No two fruits share an id.
pub open spec fn distinct_ids(pieces: Seq<Piece>) -> bool {
    forall|i: int, j: int|
        0 <= i < pieces.len() && 0 <= j < pieces.len() && i != j ==> #[trigger] pieces[i].id
            != #[trigger] pieces[j].id
}

/// `i` is the first place in `pieces` that holds a fruit with the id.
pub open spec fn is_place_of(pieces: Seq<Piece>, id: u64, i: int) -> bool {
    &&& 0 <= i < pieces.len()
    &&& pieces[i].id == id
    &&& forall|j: int| 0 <= j < i ==> (#[trigger] pieces[j]).id != id
}

/// The first place that holds a fruit with the id, if there is one.
pub open spec fn place_of(pieces: Seq<Piece>, id: u64) -> Option<int> {
    if exists|i: int| is_place_of(pieces, id, i) {
        Some(choose|i: int| is_place_of(pieces, id, i))
    } else {
        None
    }
}

/// A place that satisfies `is_place_of` is the one `place_of` names.
pub proof fn place_of_is(pieces: Seq<Piece>, id: u64, i: int)
    requires
        is_place_of(pieces, id, i),
    ensures
        place_of(pieces, id) == Some(i),
{
    let k = choose|k: int| is_place_of(pieces, id, k);
    if k < i {
        assert(pieces[k].id != id);
    } else if i < k {
        assert(pieces[i].id != id);
    }
}

/// No fruit has the id exactly when `place_of` finds none.
pub proof fn place_of_none(pieces: Seq<Piece>, id: u64)
    ensures
        place_of(pieces, id) is None <==> forall|j: int|
            0 <= j < pieces.len() ==> (#[trigger] pieces[j]).id != id,
        place_of(pieces, id) is Some ==> is_place_of(pieces, id, place_of(pieces, id).unwrap()),
{
    if exists|j: int| 0 <= j < pieces.len() && (#[trigger] pieces[j]).id == id {
        let j = choose|j: int| 0 <= j < pieces.len() && (#[trigger] pieces[j]).id == id;
        first_place_exists(pieces, id, j);
    }
}

proof fn first_place_exists(pieces: Seq<Piece>, id: u64, j: int)
    requires
        0 <= j < pieces.len(),
        pieces[j].id == id,
    ensures
        exists|i: int| is_place_of(pieces, id, i),
    decreases j,
{
    if exists|k: int| 0 <= k < j && (#[trigger] pieces[k]).id == id {
        let k = choose|k: int| 0 <= k < j && (#[trigger] pieces[k]).id == id;
        first_place_exists(pieces, id, k);
    } else {
        assert(is_place_of(pieces, id, j));
    }
}

/// Finds the fruit with the given id.
pub fn find_piece(pieces: &Vec<Piece>, id: u64) -> (place: Option<usize>)
    ensures
        place is Some <==> place_of(pieces@, id) is Some,
        place is Some ==> place.unwrap() as int == place_of(pieces@, id).unwrap(),
        place is Some ==> place.unwrap() < pieces.len(),
{
    let mut i: usize = 0;
    while i < pieces.len()
        invariant
            i <= pieces.len(),
            forall|j: int| 0 <= j < i ==> (#[trigger] pieces@[j]).id != id,
        decreases pieces.len() - i,
    {
        if pieces[i].id == id {
            proof {
                place_of_is(pieces@, id, i as int);
            }
            return Some(i);
        }
        i = i + 1;
    }
    proof {
        place_of_none(pieces@, id);
    }
    None
}

/// Left and right limits for the centre of a sprite of the given diameter:
/// the inner walls, drawn in by the radius and one unit.
pub open spec fn min_x_in_bounds(sprite_size: int) -> int {
    -(CONTAINER_WIDTH / 2) + sprite_size / 2 + SCALE
}

pub open spec fn max_x_in_bounds(sprite_size: int) -> int {
    CONTAINER_WIDTH / 2 - sprite_size / 2 - SCALE
}

/// A position left of the middle is raised to the left limit, one right of the
/// middle is lowered to the right limit, the middle stays.
pub open spec fn x_in_bounds(raw_x: int, sprite_size: int) -> int {
    if raw_x < 0 {
        if raw_x > min_x_in_bounds(sprite_size) {
            raw_x
        } else {
            min_x_in_bounds(sprite_size)
        }
    } else if raw_x > 0 {
        if raw_x < max_x_in_bounds(sprite_size) {
            raw_x
        } else {
            max_x_in_bounds(sprite_size)
        }
    } else {
        raw_x
    }
}

/// Keeps a spawn position inside the container.
pub fn pos_x_in_bounds(raw_x: i64, sprite_size: u32) -> (x: i32)
    ensures
        x == x_in_bounds(raw_x as int, sprite_size as int),
{
    let half: i64 = (sprite_size / 2) as i64;
    let wall: i64 = (CONTAINER_WIDTH / 2) as i64;
    let unit: i64 = SCALE as i64;
    if raw_x < 0 {
        let low: i64 = -wall + half + unit;
        if raw_x > low {
            raw_x as i32
        } else {
            low as i32
        }
    } else if raw_x > 0 {
        let high: i64 = wall - half - unit;
        if raw_x < high {
            raw_x as i32
        } else {
            high as i32
        }
    } else {
        0
    }
}

/// A fruit that has just entered the field: at rest, with the nominal mass,
/// in its grace period.
pub open spec fn fresh_piece(id: u64, fruit: Fruit, x: int, y: int) -> Piece {
    Piece {
        id,
        fruit,
        x: x as i32,
        y: y as i32,
        vx: 0,
        vy: 0,
        mass: MASS,
        phase: Phase::Spawning,
        time_since_spawn: TimeSinceSpawn { timer: Timer { remaining: GRACE_PERIOD } },
        mark_for_delete: false,
    }
}

/// A new fruit for a requested spawn position, moved inside the container.
pub fn create_fruit_bundle(id: u64, pos_x: i64, pos_y: i32, fruit: Fruit) -> (piece: Piece)
    ensures
        piece == fresh_piece(
            id,
            fruit,
            x_in_bounds(pos_x as int, known_size(fruit@)),
            pos_y as int,
        ),
{
    let size = fruit.size();
    let x = pos_x_in_bounds(pos_x, size);
    spawn_result(id, fruit, x, pos_y)
}

/// A new fruit at exactly the given position.
pub fn spawn_result(id: u64, fruit: Fruit, x: i32, y: i32) -> (piece: Piece)
    ensures
        piece == fresh_piece(id, fruit, x as int, y as int),
{
    Piece {
        id,
        fruit,
        x,
        y,
        vx: 0,
        vy: 0,
        mass: MASS,
        phase: Phase::Spawning,
        time_since_spawn: TimeSinceSpawn { timer: Timer::from_micros(GRACE_PERIOD) },
        mark_for_delete: false,
    }
}

} // verus!
