use vstd::prelude::*;
use crate::bullet::{lands, off, Bullet};
use crate::constants::{
    BURST_COOLDOWN, ENEMY_DIAMETER, ENEMY_EPSILON, ENEMY_HIT_RADIUS, PLAYER_DIAMETER,
    PLAYER_EPSILON, PLAYER_HIT_RADIUS, SHOT_COOLDOWN, START_SHOTS,
};
use crate::enemy::Enemy;
use crate::game::{
    enemies_ticked, fired, friendly_pass, hostile_pass, lemma_live_bullets, lemma_live_enemies_len, live_bullets, State,
    strike_all,
};
use crate::player::{sat_sub, Player};
use crate::vector::{dist_sq, Field, Vector};

verus! {

/// The player after the ticks `dts`, in order.
pub open spec fn ticks(p: Player, dts: Seq<u64>, f: Field) -> Player
    decreases dts.len(),
{
    if dts.len() == 0 {
        p
    } else {
        ticks(p, dts.drop_last(), f).ticked(dts.last(), f)
    }
}

/// A friendly projectile outside the field is dead after its next tick, and
/// no collection of projectiles keeps it after pruning.
pub proof fn lemma_friendly_leaves_field(b: Bullet, dt: u64, f: Field, s: Seq<Bullet>)
    requires
        b.friendly,
        !f.contains(b.pos),
    ensures
        !b.ticked(dt, f).alive,
        !live_bullets(s).contains(b.ticked(dt, f)),
{
    lemma_live_bullets(s);
    let t = b.ticked(dt, f);
    let l = live_bullets(s);
    assert forall|i: int| 0 <= i < l.len() implies (#[trigger] l[i]) != t by {
        assert(l[i].alive);
    }
}

/// A hostile projectile turns back along each axis on which it is outside the
/// field, once per tick, and never dies of it.
pub proof fn lemma_bounce(b: Bullet, dt: u64, f: Field)
    requires
        !b.friendly,
        b.wf(),
    ensures
        b.ticked(dt, f).vel.x == if off(b.pos.x as int, f.width as int) {
            -b.vel.x
        } else {
            b.vel.x as int
        },
        b.ticked(dt, f).vel.y == if off(b.pos.y as int, f.height as int) {
            -b.vel.y
        } else {
            b.vel.y as int
        },
        b.ticked(dt, f).alive == b.alive,
        b.ticked(dt, f).friendly == b.friendly,
{
}

/// A projectile hits an enemy exactly when both are alive and it is closer to
/// the center than the body radius less the hit epsilon; the hit takes one
/// health point and kills the projectile. A dead projectile changes nothing.
pub proof fn lemma_enemy_hit(e: Enemy, b: Bullet)
    ensures
        ENEMY_HIT_RADIUS == ENEMY_DIAMETER / 2 - ENEMY_EPSILON,
        e.is_hit_by(b) == (e.alive() && b.alive && dist_sq(e.pos, b.pos) < ENEMY_HIT_RADIUS
            * ENEMY_HIT_RADIUS),
        e.is_hit_by(b) ==> e.struck(b) == (Enemy { health: (e.health - 1) as u32, ..e }, Bullet {
            alive: false,
            ..b
        }),
        !e.is_hit_by(b) ==> e.struck(b) == (e, b),
        !b.alive ==> e.struck(b) == (e, b),
{
}

/// A projectile hits the player exactly when both are alive and it is closer
/// to the center than the body radius less the hit epsilon; the hit takes one
/// health point and kills the projectile. A dead projectile changes nothing.
pub proof fn lemma_player_hit(p: Player, b: Bullet)
    ensures
        PLAYER_HIT_RADIUS == PLAYER_DIAMETER / 2 - PLAYER_EPSILON,
        p.is_hit_by(b) == (p.alive() && b.alive && dist_sq(p.pos, b.pos) < PLAYER_HIT_RADIUS
            * PLAYER_HIT_RADIUS),
        p.is_hit_by(b) ==> p.struck(b) == (Player { health: (p.health - 1) as u32, ..p }, Bullet {
            alive: false,
            ..b
        }),
        !p.is_hit_by(b) ==> p.struck(b) == (p, b),
        !b.alive ==> p.struck(b) == (p, b),
{
}

proof fn lemma_hostile_pass_health(p: Player, bs: Seq<Bullet>, dt: u64, f: Field)
    ensures
        hostile_pass(p, bs, dt, f).0.health <= p.health,
        hostile_pass(p, bs, dt, f).1.len() == bs.len(),
    decreases bs.len(),
{
    if bs.len() > 0 {
        lemma_hostile_pass_health(p, bs.drop_last(), dt, f);
    }
}

proof fn lemma_strike_all_health(es: Seq<Enemy>, b: Bullet)
    ensures
        strike_all(es, b).0.len() == es.len(),
        forall|i: int|
            0 <= i < es.len() ==> #[trigger] strike_all(es, b).0[i].health <= es[i].health,
    decreases es.len(),
{
    if es.len() > 0 {
        lemma_strike_all_health(es.drop_last(), b);
        let r = strike_all(es.drop_last(), b);
        let (e, b2) = es.last().struck(r.1);
        assert forall|i: int| 0 <= i < es.len() implies #[trigger] strike_all(es, b).0[i].health
            <= es[i].health by {
            if i < es.len() - 1 {
                assert(strike_all(es, b).0[i] == r.0[i]);
                assert(es.drop_last()[i] == es[i]);
            }
        }
    }
}

proof fn lemma_friendly_pass_health(es: Seq<Enemy>, bs: Seq<Bullet>, dt: u64, f: Field)
    ensures
        friendly_pass(es, bs, dt, f).0.len() == es.len(),
        forall|i: int|
            0 <= i < es.len() ==> #[trigger] friendly_pass(es, bs, dt, f).0[i].health
                <= es[i].health,
    decreases bs.len(),
{
    if bs.len() > 0 {
        lemma_friendly_pass_health(es, bs.drop_last(), dt, f);
        let r = friendly_pass(es, bs.drop_last(), dt, f);
        lemma_strike_all_health(r.0, bs.last().ticked(dt, f));
        assert forall|i: int| 0 <= i < es.len() implies #[trigger] friendly_pass(
            es,
            bs,
            dt,
            f,
        ).0[i].health <= es[i].health by {
            assert(r.0[i].health <= es[i].health);
        }
    }
}

/// Over the combat of a tick no health grows: neither the player's nor that
/// of any enemy.
pub proof fn lemma_combat_never_heals(s: State, dt: u64, errors: Seq<int>)
    ensures
        s.fought(dt, errors).player.health <= s.player.health,
        s.fought(dt, errors).enemies.len() == s.enemies.len(),
        forall|i: int|
            0 <= i < s.enemies.len() ==> #[trigger] s.fought(dt, errors).enemies[i].health
                <= s.enemies[i].health,
{
    let f = s.field;
    lemma_hostile_pass_health(s.player.ticked(dt, f), s.hostile, dt, f);
    let p = hostile_pass(s.player.ticked(dt, f), s.hostile, dt, f).0;
    let friendly0 = match s.player.shot(dt, f) {
        Some(b) => s.friendly.push(b),
        None => s.friendly,
    };
    let es1 = enemies_ticked(s.enemies, p.pos, dt, f);
    lemma_friendly_pass_health(es1, friendly0, dt, f);
}

/// Over a whole tick the player gains at most one health point per kill, and
/// every enemy of the combat has at most the health it had before.
pub proof fn lemma_health_monotone(s: State, dt: u64, errors: Seq<int>, new: State)
    requires
        s.follows(dt, errors, new),
    ensures
        new.player.health <= s.player.health + s.fought(dt, errors).kills_made(),
        forall|i: int|
            0 <= i < s.enemies.len() ==> #[trigger] s.fought(dt, errors).enemies[i].health
                <= s.enemies[i].health,
{
    lemma_combat_never_heals(s, dt, errors);
    lemma_live_enemies_len(s.fought(dt, errors).enemies);
}

/// When the kills of a tick bring the kills of the level to exactly the level
/// `L`, the tick ends on level `L + 1`, with no kills on it and exactly one enemy.
pub proof fn lemma_level_advance(s: State, dt: u64, errors: Seq<int>, new: State)
    requires
        s.follows(dt, errors, new),
        !s.fought(dt, errors).game_over,
        s.fought(dt, errors).kills_made() > 0,
        s.kills + s.fought(dt, errors).kills_made() == s.level,
        s.level < u32::MAX,
    ensures
        new.level == s.level + 1,
        new.kills == 0,
        new.enemies.len() == 1,
        s.score + s.fought(dt, errors).kills_made() <= u32::MAX ==> new.score == s.score
            + s.fought(dt, errors).kills_made(),
{
}

/// Once the session is over, ticks change nothing: neither the score, the
/// level, the kills of the level, nor anything else.
pub proof fn lemma_game_over_freezes(s: State, dt: u64, new: State)
    requires
        s.game_over,
        s.advanced(dt, new),
    ensures
        new == s,
        new.score == s.score,
        new.level == s.level,
        new.kills == s.kills,
{
}

proof fn lemma_strike_all_dead(es: Seq<Enemy>, b: Bullet)
    requires
        !b.alive,
    ensures
        strike_all(es, b).1 == b,
    decreases es.len(),
{
    if es.len() > 0 {
        lemma_strike_all_dead(es.drop_last(), b);
    }
}

/// A projectile tested against the enemies in order damages at most one of
/// them, by one health point, and is dead afterwards if it did.
pub proof fn lemma_strike_at_most_one(es: Seq<Enemy>, b: Bullet)
    ensures
        strike_all(es, b).0.len() == es.len(),
        forall|i: int|
            0 <= i < es.len() ==> #[trigger] strike_all(es, b).0[i].health == es[i].health
                || strike_all(es, b).0[i].health == es[i].health - 1,
        forall|i: int, j: int|
            0 <= i < j < es.len() && #[trigger] strike_all(es, b).0[i].health != es[i].health
                ==> #[trigger] strike_all(es, b).0[j].health == es[j].health,
        forall|i: int|
            0 <= i < es.len() && #[trigger] strike_all(es, b).0[i].health != es[i].health
                ==> !strike_all(es, b).1.alive,
    decreases es.len(),
{
    if es.len() > 0 {
        let d = es.drop_last();
        lemma_strike_at_most_one(d, b);
        let r = strike_all(d, b);
        let n = es.len() - 1;
        let out = strike_all(es, b);
        assert forall|i: int| 0 <= i < n implies out.0[i] == r.0[i] && d[i] == es[i] by {}
        if exists|i: int| 0 <= i < n && #[trigger] r.0[i].health != d[i].health {
            assert(!r.1.alive);
            assert(out.0[n] == es.last());
        }
        assert forall|i: int, j: int|
            0 <= i < j < es.len() && #[trigger] out.0[i].health != es[i].health
                implies #[trigger] out.0[j].health == es[j].health by {
            if j == n {
                assert(r.0[i].health != d[i].health);
            }
        }
    }
}

proof fn lemma_friendly_pass_slot(es: Seq<Enemy>, bs: Seq<Bullet>, dt: u64, f: Field, i: int)
    requires
        0 <= i < bs.len(),
        !bs[i].ticked(dt, f).alive,
    ensures
        friendly_pass(es, bs, dt, f).1.len() == bs.len(),
        !friendly_pass(es, bs, dt, f).1[i].alive,
    decreases bs.len(),
{
    let d = bs.drop_last();
    let r = friendly_pass(es, d, dt, f);
    if i == bs.len() - 1 {
        lemma_friendly_pass_len(es, d, dt, f);
        lemma_strike_all_dead(r.0, bs.last().ticked(dt, f));
    } else {
        assert(d[i] == bs[i]);
        lemma_friendly_pass_slot(es, d, dt, f, i);
    }
}

proof fn lemma_friendly_pass_len(es: Seq<Enemy>, bs: Seq<Bullet>, dt: u64, f: Field)
    ensures
        friendly_pass(es, bs, dt, f).1.len() == bs.len(),
    decreases bs.len(),
{
    if bs.len() > 0 {
        lemma_friendly_pass_len(es, bs.drop_last(), dt, f);
    }
}

/// In a session tick that the player survives, a friendly projectile that
/// starts the tick outside the field leaves the combat dead in its slot, and
/// the friendly projectiles kept are exactly the live ones of the combat.
pub proof fn lemma_session_drops_friendly_outside(s: State, dt: u64, errors: Seq<int>, i: int)
    requires
        s.wf(),
        0 <= i < s.friendly.len(),
        !s.field.contains(s.friendly[i].pos),
        !s.fought(dt, errors).game_over,
    ensures
        ({
            let f = s.field;
            let p = hostile_pass(s.player.ticked(dt, f), s.hostile, dt, f).0;
            let friendly0 = match s.player.shot(dt, f) {
                Some(b) => s.friendly.push(b),
                None => s.friendly,
            };
            let tested = friendly_pass(enemies_ticked(s.enemies, p.pos, dt, f), friendly0, dt, f).1;
            &&& tested.len() == friendly0.len()
            &&& friendly0[i] == s.friendly[i]
            &&& !tested[i].alive
            &&& s.fought(dt, errors).friendly == live_bullets(tested)
            &&& !live_bullets(tested).contains(tested[i])
        }),
{
    let f = s.field;
    let p = hostile_pass(s.player.ticked(dt, f), s.hostile, dt, f).0;
    let friendly0 = match s.player.shot(dt, f) {
        Some(b) => s.friendly.push(b),
        None => s.friendly,
    };
    assert(friendly0[i] == s.friendly[i]);
    assert(s.friendly[i].friendly);
    let es = enemies_ticked(s.enemies, p.pos, dt, f);
    lemma_friendly_pass_slot(es, friendly0, dt, f, i);
    let tested = friendly_pass(es, friendly0, dt, f).1;
    lemma_live_bullets(tested);
    let l = live_bullets(tested);
    assert forall|j: int| 0 <= j < l.len() implies (#[trigger] l[j]) != tested[i] by {
        assert(l[j].alive);
    }
}

proof fn lemma_hostile_pass_slot(p: Player, bs: Seq<Bullet>, dt: u64, f: Field, i: int)
    requires
        0 <= i < bs.len(),
    ensures
        hostile_pass(p, bs, dt, f).1.len() == bs.len(),
        hostile_pass(p, bs, dt, f).0 == (Player { health: hostile_pass(p, bs, dt, f).0.health, ..p }),
        !lands(p.pos, bs[i].ticked(dt, f), PLAYER_HIT_RADIUS as int) ==> hostile_pass(p, bs, dt, f).1[i]
            == bs[i].ticked(dt, f),
    decreases bs.len(),
{
    let d = bs.drop_last();
    if i == bs.len() - 1 {
        if d.len() > 0 {
            lemma_hostile_pass_slot(p, d, dt, f, 0);
        }
    } else {
        assert(d[i] == bs[i]);
        lemma_hostile_pass_slot(p, d, dt, f, i);
    }
}

proof fn lemma_live_keeps(s: Seq<Bullet>, i: int)
    requires
        0 <= i < s.len(),
        s[i].alive,
    ensures
        live_bullets(s).contains(s[i]),
    decreases s.len(),
{
    let d = s.drop_last();
    if i == s.len() - 1 {
        assert(live_bullets(s).last() == s[i]);
    } else {
        assert(d[i] == s[i]);
        lemma_live_keeps(d, i);
        let j = choose|j: int| 0 <= j < live_bullets(d).len() && live_bullets(d)[j] == s[i];
        if s.last().alive {
            assert(live_bullets(s)[j] == s[i]);
        }
    }
}

/// In a session tick, a hostile projectile that its move leaves farther from
/// the player than the hit radius comes out of the tick moved (bounced where
/// it was outside the field), alive, and still among the hostile projectiles.
pub proof fn lemma_session_keeps_hostile(s: State, dt: u64, errors: Seq<int>, i: int)
    requires
        s.wf(),
        !s.game_over,
        0 <= i < s.hostile.len(),
        !lands(s.player.ticked(dt, s.field).pos, s.hostile[i].ticked(dt, s.field), PLAYER_HIT_RADIUS as int),
    ensures
        s.hostile[i].ticked(dt, s.field).alive,
        !s.hostile[i].ticked(dt, s.field).friendly,
        s.fought(dt, errors).hostile.contains(s.hostile[i].ticked(dt, s.field)),
{
    let f = s.field;
    let b = s.hostile[i].ticked(dt, f);
    assert(s.hostile[i].wf());
    assert(s.hostile[i].friendly == false);
    assert(s.hostile[i].alive);
    lemma_hostile_pass_slot(s.player.ticked(dt, f), s.hostile, dt, f, i);
    let (p, hostile1) = hostile_pass(s.player.ticked(dt, f), s.hostile, dt, f);
    if !p.alive() {
        lemma_live_keeps(hostile1, i);
    } else {
        let hostile2 = hostile1 + fired(s.enemies, errors, p.pos, dt, f);
        assert(hostile2[i] == hostile1[i]);
        lemma_live_keeps(hostile2, i);
    }
}

/// A tick that fires spends exactly one shot of the burst and restarts the
/// shot cooldown.
pub proof fn lemma_fire_spends_shot(p: Player, dt: u64, f: Field)
    requires
        p.fires(dt),
    ensures
        p.ticked(dt, f).shots == p.shots - 1,
        p.ticked(dt, f).scooldown == SHOT_COOLDOWN,
        p.shot(dt, f) is Some,
{
}

/// The tick after the last shot of a burst starts the recovery: the burst
/// cooldown is set, the burst refilled, and nothing is fired.
pub proof fn lemma_empty_burst_recovers(p: Player, dt: u64, f: Field)
    requires
        p.shots == 0,
    ensures
        p.ticked(dt, f).bcooldown == BURST_COOLDOWN,
        p.ticked(dt, f).shots == START_SHOTS,
        p.ticked(dt, f).scooldown == 0,
        p.shot(dt, f) is None,
{
}

/// While the burst cooldown runs, nothing is fired and it counts down.
pub proof fn lemma_recovery_blocks_fire(p: Player, dt: u64, f: Field)
    requires
        p.shots > 0,
        p.bcooldown > 0,
    ensures
        p.shot(dt, f) is None,
        p.ticked(dt, f).bcooldown == sat_sub(p.bcooldown, dt),
        p.ticked(dt, f).shots == p.shots,
{
}

/// Total length of the ticks `dts`.
pub open spec fn total(dts: Seq<u64>) -> int
    decreases dts.len(),
{
    if dts.len() == 0 {
        0
    } else {
        total(dts.drop_last()) + dts.last()
    }
}

/// During a recovery, as long as the ticks add up to less than the burst
/// cooldown left, no tick fires, the cooldown counts down by the time
/// spent, and the burst stays as it is.
pub proof fn lemma_recovery_holds_fire(p: Player, dts: Seq<u64>, f: Field, j: int)
    requires
        p.shots > 0,
        0 <= j < dts.len(),
        total(dts) < p.bcooldown,
    ensures
        ticks(p, dts.take(j), f).bcooldown == p.bcooldown - total(dts.take(j)),
        ticks(p, dts.take(j), f).shots == p.shots,
        ticks(p, dts.take(j), f).shot(dts[j], f) is None,
    decreases j,
{
    lemma_total_prefix(dts, j + 1);
    if j > 0 {
        lemma_recovery_holds_fire(p, dts, f, j - 1);
        assert(dts.take(j).drop_last() =~= dts.take(j - 1));
        lemma_total_prefix(dts, j);
    } else {
        assert(dts.take(0) =~= Seq::<u64>::empty());
    }
    assert(dts.take(j + 1).drop_last() =~= dts.take(j));
}

proof fn lemma_total_prefix(dts: Seq<u64>, j: int)
    requires
        0 <= j <= dts.len(),
    ensures
        0 <= total(dts.take(j)) <= total(dts),
    decreases dts.len(),
{
    if j == dts.len() {
        assert(dts.take(j) =~= dts);
        lemma_total_nonneg(dts);
    } else {
        assert(dts.drop_last().take(j) =~= dts.take(j));
        lemma_total_prefix(dts.drop_last(), j);
    }
}

proof fn lemma_total_nonneg(dts: Seq<u64>)
    ensures
        total(dts) >= 0,
    decreases dts.len(),
{
    if dts.len() > 0 {
        lemma_total_nonneg(dts.drop_last());
    }
}

proof fn lemma_shots_count_down(p: Player, dts: Seq<u64>, f: Field, i: int)
    requires
        0 <= i <= dts.len(),
        dts.len() <= p.shots,
        forall|j: int| 0 <= j < dts.len() ==> #[trigger] ticks(p, dts.take(j), f).fires(dts[j]),
    ensures
        ticks(p, dts.take(i), f).shots == p.shots - i,
    decreases i,
{
    if i > 0 {
        lemma_shots_count_down(p, dts, f, i - 1);
        assert(dts.take(i).drop_last() =~= dts.take(i - 1));
        assert(ticks(p, dts.take(i - 1), f).fires(dts[i - 1]));
    } else {
        assert(dts.take(0) =~= Seq::<u64>::empty());
    }
}

/// Starting from a full burst, after as many firing ticks as the burst holds
/// the burst is empty, and the next tick starts the recovery: the burst
/// cooldown is set, the burst refilled, and nothing is fired.
pub proof fn lemma_burst_fire(p: Player, dts: Seq<u64>, f: Field, dt: u64)
    requires
        p.shots == START_SHOTS,
        dts.len() == START_SHOTS,
        forall|j: int| 0 <= j < dts.len() ==> #[trigger] ticks(p, dts.take(j), f).fires(dts[j]),
    ensures
        ticks(p, dts, f).shots == 0,
        ticks(p, dts, f).ticked(dt, f).bcooldown == BURST_COOLDOWN,
        ticks(p, dts, f).ticked(dt, f).shots == START_SHOTS,
        ticks(p, dts, f).shot(dt, f) is None,
{
    lemma_shots_count_down(p, dts, f, dts.len() as int);
    assert(dts.take(dts.len() as int) =~= dts);
}

} // verus!
