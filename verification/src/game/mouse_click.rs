//! Spawning a fruit on a click.

use vstd::prelude::*;
use crate::constants::{known_size, CLICK_DELAY, SPAWNABLE_TYPE_COUNT, SPAWN_HEIGHT, SPAWN_JITTER};
use crate::game::{create_fruit_bundle, fresh_piece, x_in_bounds, Piece};
use crate::resources::{
    random_in_range, random_spawnable_fruit, Fruit, NextGenerator, SpawnTime, Timer,
};

verus! {

/// Whether a click spawns: there is one, and the cooldown is over once `delta`
/// microseconds have passed.
pub open spec fn click_spawns(click_buffer: SpawnTime, delta: u64, click: Option<i32>) -> bool {
    click is Some && Timer::remaining_after(
        click_buffer.timer.remaining as int,
        delta as int,
    ) == 0
}

/// The cooldown once `delta` microseconds have passed and `click` was handled.
pub open spec fn gate_after(click_buffer: SpawnTime, delta: u64, click: Option<i32>) -> SpawnTime {
    if click_spawns(click_buffer, delta, click) {
        SpawnTime { timer: Timer { remaining: CLICK_DELAY } }
    } else {
        SpawnTime {
            timer: Timer {
                remaining: Timer::remaining_after(
                    click_buffer.timer.remaining as int,
                    delta as int,
                ) as u64,
            },
        }
    }
}

/// The fruit that a spawning click at `x` puts on the field: the current
/// fruit of the generator, at the spawn height, at `x` moved by `jitter` and
/// kept inside the container.
pub open spec fn clicked_fruit(id: u64, x: i32, jitter: int, fruit: Fruit) -> Piece {
    fresh_piece(id, fruit, x_in_bounds(x + jitter, known_size(fruit@)), SPAWN_HEIGHT as int)
}

/// The generator after a spawn that drew `drawn`.
pub open spec fn advanced(generator: NextGenerator, drawn: Fruit) -> NextGenerator {
    NextGenerator {
        current_fruit: generator.next_fruit,
        next_fruit: drawn,
        should_update_previews: true,
    }
}

fn spawn_fruit(
    x: i32,
    id: u64,
    jitter: i32,
    drawn: Fruit,
    click_buffer: &mut SpawnTime,
    next_generator: &mut NextGenerator,
) -> (piece: Piece)
    requires
        -SPAWN_JITTER <= jitter < SPAWN_JITTER,
    ensures
        piece == clicked_fruit(id, x, jitter as int, old(next_generator).current_fruit),
        final(click_buffer).timer.remaining == CLICK_DELAY,
        *final(next_generator) == advanced(*old(next_generator), drawn),
{
    click_buffer.start_new_timer();
    let fruit = next_generator.current_fruit.clone();
    next_generator.advance(drawn);
    create_fruit_bundle(id, x as i64 + jitter as i64, SPAWN_HEIGHT, fruit)
}

/// The spawn stage with the two random draws given: `jitter` moves the fruit
/// sideways and `drawn` becomes the new preview.
///
/// The cooldown advances by `delta`. A click while it is still running is
/// dropped, not kept for later. A click once it is over spawns the current
/// fruit under the id `id`, restarts the cooldown and advances the generator;
/// without a spawn the generator stays as it is.
pub fn mouse_click_with(
    click: Option<i32>,
    id: u64,
    delta: u64,
    jitter: i32,
    drawn: Fruit,
    click_buffer: &mut SpawnTime,
    next_generator: &mut NextGenerator,
) -> (spawned: Option<Piece>)
    requires
        -SPAWN_JITTER <= jitter < SPAWN_JITTER,
    ensures
        *final(click_buffer) == gate_after(*old(click_buffer), delta, click),
        spawned is Some <==> click_spawns(*old(click_buffer), delta, click),
        spawned is Some ==> spawned.unwrap() == clicked_fruit(
            id,
            click.unwrap(),
            jitter as int,
            old(next_generator).current_fruit,
        ) && *final(next_generator) == advanced(*old(next_generator), drawn),
        spawned is None ==> *final(next_generator) == *old(next_generator),
{
    click_buffer.timer.tick(delta);
    if !click_buffer.timer.finished() {
        return None;
    }
    match click {
        None => None,
        Some(x) => Some(spawn_fruit(x, id, jitter, drawn, click_buffer, next_generator)),
    }
}

/// The spawn stage. As `mouse_click_with`, with a sideways offset drawn at
/// random from `-SPAWN_JITTER..SPAWN_JITTER` and a preview drawn at random
/// from the spawnable tiers.
pub fn mouse_click(
    click: Option<i32>,
    id: u64,
    delta: u64,
    click_buffer: &mut SpawnTime,
    next_generator: &mut NextGenerator,
) -> (spawned: Option<Piece>)
    ensures
        *final(click_buffer) == gate_after(*old(click_buffer), delta, click),
        spawned is Some <==> click_spawns(*old(click_buffer), delta, click),
        spawned is Some ==> exists|jitter: int, drawn: Fruit|
            {
                &&& -SPAWN_JITTER <= jitter < SPAWN_JITTER
                &&& 0 <= drawn@ < SPAWNABLE_TYPE_COUNT
                &&& spawned.unwrap() == #[trigger] clicked_fruit(
                    id,
                    click.unwrap(),
                    jitter,
                    old(next_generator).current_fruit,
                )
                &&& *final(next_generator) == #[trigger] advanced(*old(next_generator), drawn)
            },
        spawned is None ==> *final(next_generator) == *old(next_generator),
{
    click_buffer.timer.tick(delta);
    if !click_buffer.timer.finished() {
        return None;
    }
    match click {
        None => None,
        Some(x) => {
            let jitter = random_in_range(-(SPAWN_JITTER as i64), SPAWN_JITTER as i64) as i32;
            let drawn = random_spawnable_fruit();
            let ghost fruit = next_generator.current_fruit;
            let piece = spawn_fruit(x, id, jitter, drawn, click_buffer, next_generator);
            assert(piece == clicked_fruit(id, x, jitter as int, fruit));
            Some(piece)
        },
    }
}

} // verus!
