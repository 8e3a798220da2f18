use vstd::prelude::*;
use crate::bullet::Bullet;
use crate::constants::{COORD_LIMIT, FORWARD_ODDS, SHOOTING_ERROR};
use crate::enemy::Enemy;
use crate::player::Player;
use crate::random::{forward_of_spec, random_coord, random_forward};
use crate::vector::{Field, Vector};

verus! {

/// Keys the session reacts to.
#[derive(Clone, Copy, Debug, PartialEq, Eq, Structural)]
pub enum Key {
    /// Starts shooting while pressed
    Space,
    /// Resets the session
    R,
    /// Any other key
    Other,
}

/// `a + k`, saturated at the largest `u32`.
pub open spec fn sat_add(a: u32, k: int) -> u32 {
    if a + k > u32::MAX {
        u32::MAX
    } else {
        (a + k) as u32
    }
}

/// The projectiles of `s` that are alive, in order.
pub open spec fn live_bullets(s: Seq<Bullet>) -> Seq<Bullet>
    decreases s.len(),
{
    if s.len() == 0 {
        s
    } else if s.last().alive {
        live_bullets(s.drop_last()).push(s.last())
    } else {
        live_bullets(s.drop_last())
    }
}

/// The enemies of `s` that are alive, in order.
pub open spec fn live_enemies(s: Seq<Enemy>) -> Seq<Enemy>
    decreases s.len(),
{
    if s.len() == 0 {
        s
    } else if s.last().alive() {
        live_enemies(s.drop_last()).push(s.last())
    } else {
        live_enemies(s.drop_last())
    }
}

/// Hostile projectiles move in order, each then tested against the player.
pub open spec fn hostile_pass(p: Player, bs: Seq<Bullet>, dt: u64, f: Field) -> (Player, Seq<
    Bullet,
>)
    decreases bs.len(),
{
    if bs.len() == 0 {
        (p, bs)
    } else {
        let (q, done) = hostile_pass(p, bs.drop_last(), dt, f);
        let (r, b) = q.struck(bs.last().ticked(dt, f));
        (r, done.push(b))
    }
}

/// The projectile `b` tested against each enemy in order.
pub open spec fn strike_all(es: Seq<Enemy>, b: Bullet) -> (Seq<Enemy>, Bullet)
    decreases es.len(),
{
    if es.len() == 0 {
        (es, b)
    } else {
        let (done, b1) = strike_all(es.drop_last(), b);
        let (e, b2) = es.last().struck(b1);
        (done.push(e), b2)
    }
}

/// Friendly projectiles move in order, each then tested against every enemy.
pub open spec fn friendly_pass(es: Seq<Enemy>, bs: Seq<Bullet>, dt: u64, f: Field) -> (Seq<
    Enemy,
>, Seq<Bullet>)
    decreases bs.len(),
{
    if bs.len() == 0 {
        (es, bs)
    } else {
        let (es1, done) = friendly_pass(es, bs.drop_last(), dt, f);
        let (es2, b) = strike_all(es1, bs.last().ticked(dt, f));
        (es2, done.push(b))
    }
}

/// The projectiles fired by the enemies `es` aiming at `target`, where the
/// enemy at index `i` has aim error `errors[i]`.
pub open spec fn fired(es: Seq<Enemy>, errors: Seq<int>, target: Vector, dt: u64, f: Field) -> Seq<
    Bullet,
>
    decreases es.len(),
{
    if es.len() == 0 || errors.len() == 0 {
        Seq::empty()
    } else {
        let rest = fired(es.drop_last(), errors.drop_last(), target, dt, f);
        match es.last().shot(dt, target, f, errors.last()) {
            Some(b) => rest.push(b),
            None => rest,
        }
    }
}

/// The enemies `es` after a tick spent aiming at `target`.
pub open spec fn enemies_ticked(es: Seq<Enemy>, target: Vector, dt: u64, f: Field) -> Seq<Enemy> {
    Seq::new(es.len(), |i: int| es[i].ticked(dt, target, f))
}

/// Every enemy of `s` is well formed.
pub open spec fn enemies_wf(s: Seq<Enemy>) -> bool {
    forall|i: int| 0 <= i < s.len() ==> #[trigger] s[i].wf()
}

/// Every projectile of `s` is well formed and alive.
pub open spec fn bullets_live(s: Seq<Bullet>) -> bool {
    forall|i: int| 0 <= i < s.len() ==> #[trigger] s[i].wf() && s[i].alive
}

/// Every projectile of `s` has allegiance `friendly`.
pub open spec fn bullets_side(s: Seq<Bullet>, friendly: bool) -> bool {
    forall|i: int| 0 <= i < s.len() ==> #[trigger] s[i].friendly == friendly
}

/// Every enemy of `s` is alive.
pub open spec fn enemies_live(s: Seq<Enemy>) -> bool {
    forall|i: int| 0 <= i < s.len() ==> #[trigger] s[i].alive()
}

/// A newly spawned enemy on the field `f`: placed in `[0, width) x [0, height)`,
/// or on the edge of a side of length zero.
pub open spec fn spawned(e: Enemy, f: Field) -> bool {
    &&& f.contains(e.pos)
    &&& (f.width > 0 ==> e.pos.x < f.width)
    &&& (f.height > 0 ==> e.pos.y < f.height)
    &&& e == Enemy::fresh(e.pos.x, e.pos.y, e.forward)
}

/// What a session holds.
pub struct State {
    pub player: Player,
    pub enemies: Seq<Enemy>,
    pub friendly: Seq<Bullet>,
    pub hostile: Seq<Bullet>,
    pub field: Field,
    pub score: u32,
    pub level: u32,
    pub kills: u32,
    pub game_over: bool,
}

impl State {
    pub open spec fn wf(self) -> bool {
        &&& self.field.wf()
        &&& self.player.wf()
        &&& enemies_wf(self.enemies)
        &&& enemies_live(self.enemies)
        &&& bullets_live(self.friendly)
        &&& bullets_live(self.hostile)
        &&& bullets_side(self.friendly, true)
        &&& bullets_side(self.hostile, false)
        &&& 1 <= self.level
        &&& self.kills < self.level
        &&& self.game_over == !self.player.alive()
    }

    /// The session after the combat of a tick of `dt` microseconds, before dead
    /// enemies are removed, where the enemy at index `i` has aim error
    /// `errors[i]`. The player moves and may fire; hostile projectiles move and
    /// are tested against the player; if the player died the session is over
    /// and nothing else moves. Otherwise each enemy moves, aiming at the
    /// player, and may fire; friendly projectiles move and are tested against
    /// the enemies. Dead projectiles are removed.
    pub open spec fn fought(self, dt: u64, errors: Seq<int>) -> State {
        let f = self.field;
        let friendly0 = match self.player.shot(dt, f) {
            Some(b) => self.friendly.push(b),
            None => self.friendly,
        };
        let (p, hostile1) = hostile_pass(self.player.ticked(dt, f), self.hostile, dt, f);
        if !p.alive() {
            State {
                player: p,
                friendly: live_bullets(friendly0),
                hostile: live_bullets(hostile1),
                game_over: true,
                ..self
            }
        } else {
            let hostile2 = hostile1 + fired(self.enemies, errors, p.pos, dt, f);
            let (es, friendly1) = friendly_pass(
                enemies_ticked(self.enemies, p.pos, dt, f),
                friendly0,
                dt,
                f,
            );
            State {
                player: p,
                enemies: es,
                friendly: live_bullets(friendly1),
                hostile: live_bullets(hostile2),
                ..self
            }
        }
    }

    /// The enemies left alive.
    pub open spec fn survivors(self) -> Seq<Enemy> {
        live_enemies(self.enemies)
    }

    /// The number of dead enemies.
    pub open spec fn kills_made(self) -> int {
        self.enemies.len() - self.survivors().len()
    }

    /// `new` is this state reset: no projectile, the single enemy `new.enemies[0]`
    /// newly spawned, the player back at the center of the field with full
    /// health and burst (keeping its shooting intent), score and kills at 0,
    /// level 1, the session running on the same field.
    pub open spec fn reset_to(self, new: State) -> bool {
        &&& new.player == (Player {
            is_shooting: self.player.is_shooting,
            ..Player::fresh(
                (self.field.width / 2) as i64,
                (self.field.height / 2) as i64,
                Vector { x: 0, y: 0 },
            )
        })
        &&& new.enemies.len() == 1
        &&& spawned(new.enemies[0], self.field)
        &&& new.friendly.len() == 0
        &&& new.hostile.len() == 0
        &&& new.field == self.field
        &&& new.score == 0
        &&& new.level == 1
        &&& new.kills == 0
        &&& new.game_over == false
    }

    /// Whether the kills complete the level: the kills of the level reach
    /// the level or, where several kills land in one tick, pass it.
    pub open spec fn levels_up(self) -> bool {
        self.kills_made() > 0 && sat_add(self.kills, self.kills_made()) >= self.level
    }

    /// `new` is this state after its dead enemies are removed and the kills
    /// are counted: each kill adds one to the score, to the player's health
    /// and to the kills of the level. Once these reach (or pass) the level, all enemies
    /// give way to one new enemy and the next level starts; otherwise each
    /// kill brings two new enemies.
    pub open spec fn settled(self, new: State) -> bool {
        let k = self.kills_made();
        let sv = self.survivors();
        &&& new.player == Player { health: sat_add(self.player.health, k), ..self.player }
        &&& new.friendly == self.friendly
        &&& new.hostile == self.hostile
        &&& new.field == self.field
        &&& new.game_over == self.game_over
        &&& new.score == sat_add(self.score, k)
        &&& if self.levels_up() {
            &&& new.level == sat_add(self.level, 1)
            &&& new.kills == 0
            &&& new.enemies.len() == 1
            &&& spawned(new.enemies[0], self.field)
        } else {
            &&& new.level == self.level
            &&& new.kills == sat_add(self.kills, k)
            &&& new.enemies.len() == sv.len() + 2 * k
            &&& new.enemies.subrange(0, sv.len() as int) == sv
            &&& forall|i: int|
                sv.len() <= i < new.enemies.len() ==> spawned(#[trigger] new.enemies[i], self.field)
        }
    }

    /// `new` follows this state after one tick of `dt` microseconds in which
    /// the enemy at index `i` had aim error `errors[i]`: the combat is fought
    /// and, unless it ended the session, the kills settled.
    pub open spec fn follows(self, dt: u64, errors: Seq<int>, new: State) -> bool {
        &&& errors.len() == self.enemies.len()
        &&& forall|i: int|
            0 <= i < errors.len() ==> -SHOOTING_ERROR <= #[trigger] errors[i] <= SHOOTING_ERROR
        &&& {
            let c = self.fought(dt, errors);
            if c.game_over {
                new == c
            } else {
                c.settled(new)
            }
        }
    }

    /// `new` follows this state after one tick of `dt` microseconds: nothing
    /// changes once the session is over; otherwise it follows for some aim errors.
    pub open spec fn advanced(self, dt: u64, new: State) -> bool {
        if self.game_over {
            new == self
        } else {
            exists|errors: Seq<int>| #[trigger] self.follows(dt, errors, new)
        }
    }
}

/// Contains Game State
pub struct Game {
    /// User controlled player. controlled with mouse and keyboard
    pub player: Player,
    /// Enemies that have to be killed
    pub enemies: Vec<Enemy>,
    /// Bullets shot by the player
    pub player_bullets: Vec<Bullet>,
    /// Bullets shot by the enemies
    pub enemy_bullets: Vec<Bullet>,
    /// Dimensions of the game field
    pub dimensions: Field,
    /// Score of the game.
    pub score: u32,
    /// Current level of the game.
    pub level: u32,
    /// Kills made during this level
    pub current_kills: u32,
    /// Whether the player has died
    pub game_over: bool,
}

impl View for Game {
    type V = State;

    open spec fn view(&self) -> State {
        State {
            player: self.player,
            enemies: self.enemies@,
            friendly: self.player_bullets@,
            hostile: self.enemy_bullets@,
            field: self.dimensions,
            score: self.score,
            level: self.level,
            kills: self.current_kills,
            game_over: self.game_over,
        }
    }
}

impl Game {
    /// Returns a game on a `width` by `height` field, with the player at its
    /// center and no enemy yet
    pub fn new(width: i64, height: i64) -> (g: Game)
        requires
            0 <= width <= COORD_LIMIT,
            0 <= height <= COORD_LIMIT,
        ensures
            g@ == (State {
                player: Player::fresh(
                    (width / 2) as i64,
                    (height / 2) as i64,
                    Vector { x: (width / 2) as i64, y: (height / 2) as i64 },
                ),
                enemies: Seq::empty(),
                friendly: Seq::empty(),
                hostile: Seq::empty(),
                field: Field { width, height },
                score: 0,
                level: 1,
                kills: 0,
                game_over: false,
            }),
            g@.wf(),
    {
        Game {
            player: Player::new(width / 2, height / 2),
            enemies: Vec::new(),
            player_bullets: Vec::new(),
            enemy_bullets: Vec::new(),
            dimensions: Field::new(width, height),
            score: 0,
            level: 1,
            current_kills: 0,
            game_over: false,
        }
    }

    /// Updates all the things in the game for a tick of `dt` microseconds
    pub fn on_update(&mut self, dt: u64)
        requires
            old(self)@.wf(),
        ensures
            old(self)@.advanced(dt, final(self)@),
            final(self)@.wf(),
    {
        if self.game_over {
            return ;
        }
        let ghost s0 = self@;
        let ghost f = self.dimensions;
        // the player moves and may fire
        let shot = self.player.update(dt, &self.dimensions);
        match shot {
            Some(b) => self.player_bullets.push(b),
            None => {},
        }
        let ghost friendly0 = self.player_bullets@;
        assert(bullets_side(friendly0, true)) by {
            assert forall|i: int| 0 <= i < friendly0.len() implies #[trigger] friendly0[i].friendly
                == true by {
                if i < s0.friendly.len() {
                    assert(friendly0[i] == s0.friendly[i]);
                }
            }
        }
        assert(friendly0 == match s0.player.shot(dt, f) {
            Some(b) => s0.friendly.push(b),
            None => s0.friendly,
        });
        // hostile projectiles move and may hit the player
        self.hostile_phase(dt);
        let ghost hostile1 = self.enemy_bullets@;
        assert(bullets_side(hostile1, false)) by {
            assert forall|i: int| 0 <= i < hostile1.len() implies #[trigger] hostile1[i].friendly
                == false by {
                assert(hostile1[i].friendly == s0.hostile[i].friendly);
            }
        }
        if !self.player.get_alive() {
            self.game_over = true;
            self.player_bullets = keep_live_bullets(&self.player_bullets);
            self.enemy_bullets = keep_live_bullets(&self.enemy_bullets);
            proof {
                lemma_live_bullets_wf(friendly0);
                lemma_live_bullets_wf(hostile1);
                let errors = Seq::new(s0.enemies.len(), |i: int| 0int);
                assert(s0.fought(dt, errors) == self@);
                assert(s0.follows(dt, errors, self@));
            }
            return ;
        }
        // enemies aim at the player, move and may fire
        let errors = self.enemy_phase(dt);
        // friendly projectiles move and may hit enemies
        let ghost friendly_before = self.player_bullets@;
        self.friendly_phase(dt);
        assert(bullets_side(self.player_bullets@, true)) by {
            assert forall|i: int| 0 <= i < self.player_bullets@.len() implies #[trigger] self.player_bullets@[i].friendly
                == true by {
                assert(self.player_bullets@[i].friendly == friendly_before[i].friendly);
            }
        }
        proof {
            lemma_live_bullets_wf(self.player_bullets@);
            lemma_live_bullets_wf(self.enemy_bullets@);
        }
        self.player_bullets = keep_live_bullets(&self.player_bullets);
        self.enemy_bullets = keep_live_bullets(&self.enemy_bullets);
        let ghost c = self@;
        assert(c == s0.fought(dt, errors@));
        // dead enemies leave and the kills are counted
        let before = self.enemies.len();
        self.enemies = keep_live_enemies(&self.enemies);
        proof {
            lemma_live_enemies_len(c.enemies);
            lemma_live_enemies_wf(c.enemies);
        }
        let kills = before - self.enemies.len();
        self.settle(kills);
        assert(s0.follows(dt, errors@, self@));
    }

    /// Hostile projectiles move and are tested against the player.
    fn hostile_phase(&mut self, dt: u64)
        requires
            old(self).player.wf(),
            old(self).dimensions.wf(),
            forall|i: int|
                0 <= i < old(self).enemy_bullets@.len() ==> #[trigger] old(self).enemy_bullets@[i].wf(),
        ensures
            (final(self).player, final(self).enemy_bullets@) == hostile_pass(
                old(self).player,
                old(self).enemy_bullets@,
                dt,
                old(self).dimensions,
            ),
            final(self).player.wf(),
            final(self).enemy_bullets@.len() == old(self).enemy_bullets@.len(),
            forall|i: int|
                0 <= i < final(self).enemy_bullets@.len() ==> #[trigger] final(self).enemy_bullets@[i].friendly
                    == old(self).enemy_bullets@[i].friendly,
            forall|i: int|
                0 <= i < final(self).enemy_bullets@.len() ==> #[trigger] final(self).enemy_bullets@[i].wf(),
            final(self).enemies == old(self).enemies,
            final(self).player_bullets == old(self).player_bullets,
            final(self).dimensions == old(self).dimensions,
            final(self).score == old(self).score,
            final(self).level == old(self).level,
            final(self).current_kills == old(self).current_kills,
            final(self).game_over == old(self).game_over,
    {
        let n = self.enemy_bullets.len();
        let ghost p0 = self.player;
        let ghost bs0 = self.enemy_bullets@;
        let mut i: usize = 0;
        while i < n
            invariant
                0 <= i <= n,
                n == bs0.len(),
                self.enemy_bullets@.len() == n,
                (self.player, self.enemy_bullets@.subrange(0, i as int)) == hostile_pass(
                    p0,
                    bs0.subrange(0, i as int),
                    dt,
                    self.dimensions,
                ),
                forall|j: int| i <= j < n ==> #[trigger] self.enemy_bullets@[j] == bs0[j],
                forall|j: int| 0 <= j < n ==> #[trigger] self.enemy_bullets@[j].wf(),
                forall|j: int| 0 <= j < n ==> #[trigger] self.enemy_bullets@[j].friendly == bs0[j].friendly,
                self.player.wf(),
                p0 == old(self).player,
                bs0 == old(self).enemy_bullets@,
                self.enemies == old(self).enemies,
                self.player_bullets == old(self).player_bullets,
                self.dimensions == old(self).dimensions,
                self.score == old(self).score,
                self.level == old(self).level,
                self.current_kills == old(self).current_kills,
                self.game_over == old(self).game_over,
            decreases n - i,
        {
            let mut b = self.enemy_bullets[i];
            b.update(dt, &self.dimensions);
            self.player.hit(&mut b);
            let ghost prev = self.enemy_bullets@.subrange(0, i as int);
            self.enemy_bullets.set(i, b);
            proof {
                assert(bs0.subrange(0, i + 1).drop_last() =~= bs0.subrange(0, i as int));
                assert(self.enemy_bullets@.subrange(0, i + 1) =~= prev.push(b));
            }
            i += 1;
        }
        assert(bs0.subrange(0, n as int) =~= bs0);
        assert(self.enemy_bullets@.subrange(0, n as int) =~= self.enemy_bullets@);
    }

    /// Each enemy aims at the player, moves and may fire. Returns the aim errors.
    fn enemy_phase(&mut self, dt: u64) -> (errors: Ghost<Seq<int>>)
        requires
            old(self).player.wf(),
            old(self).dimensions.wf(),
            forall|i: int|
                0 <= i < old(self).enemies@.len() ==> #[trigger] old(self).enemies@[i].wf(),
            forall|i: int|
                0 <= i < old(self).enemy_bullets@.len() ==> #[trigger] old(self).enemy_bullets@[i].wf(),
        ensures
            errors@.len() == old(self).enemies@.len(),
            forall|i: int|
                0 <= i < errors@.len() ==> -SHOOTING_ERROR <= #[trigger] errors@[i]
                    <= SHOOTING_ERROR,
            final(self).enemies@ == enemies_ticked(
                old(self).enemies@,
                old(self).player.pos,
                dt,
                old(self).dimensions,
            ),
            final(self).enemy_bullets@ == old(self).enemy_bullets@ + fired(
                old(self).enemies@,
                errors@,
                old(self).player.pos,
                dt,
                old(self).dimensions,
            ),
            forall|i: int|
                0 <= i < final(self).enemies@.len() ==> #[trigger] final(self).enemies@[i].wf(),
            forall|i: int|
                0 <= i < final(self).enemy_bullets@.len() ==> #[trigger] final(self).enemy_bullets@[i].wf(),
            bullets_side(old(self).enemy_bullets@, false) ==> bullets_side(final(self).enemy_bullets@, false),
            final(self).player == old(self).player,
            final(self).player_bullets == old(self).player_bullets,
            final(self).dimensions == old(self).dimensions,
            final(self).score == old(self).score,
            final(self).level == old(self).level,
            final(self).current_kills == old(self).current_kills,
            final(self).game_over == old(self).game_over,
    {
        let n = self.enemies.len();
        let ghost es0 = self.enemies@;
        let ghost hs0 = self.enemy_bullets@;
        let ghost target = self.player.pos;
        let ghost mut errors: Seq<int> = Seq::empty();
        let tx = self.player.pos.x;
        let ty = self.player.pos.y;
        let mut i: usize = 0;
        while i < n
            invariant
                0 <= i <= n,
                n == es0.len(),
                self.enemies@.len() == n,
                errors.len() == i,
                forall|j: int|
                    0 <= j < errors.len() ==> -SHOOTING_ERROR <= #[trigger] errors[j]
                        <= SHOOTING_ERROR,
                forall|j: int|
                    0 <= j < i ==> #[trigger] self.enemies@[j] == es0[j].ticked(
                        dt,
                        target,
                        self.dimensions,
                    ),
                forall|j: int| i <= j < n ==> #[trigger] self.enemies@[j] == es0[j],
                forall|j: int| 0 <= j < n ==> #[trigger] self.enemies@[j].wf(),
                self.enemy_bullets@ == hs0 + fired(
                    es0.subrange(0, i as int),
                    errors,
                    target,
                    dt,
                    self.dimensions,
                ),
                forall|j: int|
                    0 <= j < self.enemy_bullets@.len() ==> #[trigger] self.enemy_bullets@[j].wf(),
                bullets_side(hs0, false) ==> bullets_side(self.enemy_bullets@, false),
                target == (Vector { x: tx, y: ty }),
                target.valid(),
                es0 == old(self).enemies@,
                hs0 == old(self).enemy_bullets@,
                target == old(self).player.pos,
                self.player == old(self).player,
                self.player_bullets == old(self).player_bullets,
                self.dimensions == old(self).dimensions,
                self.score == old(self).score,
                self.level == old(self).level,
                self.current_kills == old(self).current_kills,
                self.game_over == old(self).game_over,
            decreases n - i,
        {
            let mut e = self.enemies[i];
            let ghost e0 = e;
            let shot = e.update(dt, tx, ty, &self.dimensions);
            let ghost err = choose|err: int|
                -SHOOTING_ERROR <= err <= SHOOTING_ERROR && shot == e0.shot(
                    dt,
                    target,
                    self.dimensions,
                    err,
                );
            let ghost prev = self.enemy_bullets@;
            self.enemies.set(i, e);
            match shot {
                Some(b) => self.enemy_bullets.push(b),
                None => {},
            }
            proof {
                let es = es0.subrange(0, i + 1);
                let errs = errors.push(err);
                assert(es.drop_last() =~= es0.subrange(0, i as int));
                assert(errs.drop_last() =~= errors);
                assert(es.last() == e0);
                errors = errs;
                assert(fired(es, errors, target, dt, self.dimensions) == match e0.shot(
                    dt,
                    target,
                    self.dimensions,
                    err,
                ) {
                    Some(b) => fired(es0.subrange(0, i as int), errors.drop_last(), target, dt, self.dimensions).push(b),
                    None => fired(es0.subrange(0, i as int), errors.drop_last(), target, dt, self.dimensions),
                });
                match shot {
                    Some(b) => {
                        assert(self.enemy_bullets@ =~= hs0 + fired(es, errors, target, dt, self.dimensions));
                    },
                    None => {},
                }
            }
            i += 1;
        }
        assert(es0.subrange(0, n as int) =~= es0);
        assert(self.enemies@ =~= enemies_ticked(es0, target, dt, self.dimensions));
        Ghost(errors)
    }

    /// The projectile `b` is tested against each enemy in order.
    fn strike_enemies(&mut self, b: &mut Bullet)
        requires
            old(b).wf(),
            forall|i: int|
                0 <= i < old(self).enemies@.len() ==> #[trigger] old(self).enemies@[i].wf(),
        ensures
            (final(self).enemies@, *final(b)) == strike_all(old(self).enemies@, *old(b)),
            final(b).wf(),
            final(b).friendly == old(b).friendly,
            forall|i: int|
                0 <= i < final(self).enemies@.len() ==> #[trigger] final(self).enemies@[i].wf(),
            final(self).player == old(self).player,
            final(self).player_bullets == old(self).player_bullets,
            final(self).enemy_bullets == old(self).enemy_bullets,
            final(self).dimensions == old(self).dimensions,
            final(self).score == old(self).score,
            final(self).level == old(self).level,
            final(self).current_kills == old(self).current_kills,
            final(self).game_over == old(self).game_over,
    {
        let n = self.enemies.len();
        let ghost es0 = self.enemies@;
        let ghost b0 = *b;
        let mut j: usize = 0;
        while j < n
            invariant
                0 <= j <= n,
                n == es0.len(),
                self.enemies@.len() == n,
                (self.enemies@.subrange(0, j as int), *b) == strike_all(
                    es0.subrange(0, j as int),
                    b0,
                ),
                forall|k: int| j <= k < n ==> #[trigger] self.enemies@[k] == es0[k],
                forall|k: int| 0 <= k < n ==> #[trigger] self.enemies@[k].wf(),
                b.wf(),
                b.friendly == b0.friendly,
                es0 == old(self).enemies@,
                b0 == *old(b),
                self.player == old(self).player,
                self.player_bullets == old(self).player_bullets,
                self.enemy_bullets == old(self).enemy_bullets,
                self.dimensions == old(self).dimensions,
                self.score == old(self).score,
                self.level == old(self).level,
                self.current_kills == old(self).current_kills,
                self.game_over == old(self).game_over,
            decreases n - j,
        {
            let mut e = self.enemies[j];
            assert(e.wf());
            let ghost e0 = e;
            e.hit(b);
            assert(e.health == e0.health || e.health == e0.health - 1);
            assert(e == (Enemy { health: e.health, ..e0 }));
            assert(e.wf());
            let ghost prev = self.enemies@.subrange(0, j as int);
            let ghost whole = self.enemies@;
            self.enemies.set(j, e);
            proof {
                assert forall|k: int| 0 <= k < n implies #[trigger] self.enemies@[k].wf() by {
                    if k != j {
                        assert(self.enemies@[k] == whole[k]);
                    }
                }
                assert(es0.subrange(0, j + 1).drop_last() =~= es0.subrange(0, j as int));
                assert(self.enemies@.subrange(0, j + 1) =~= prev.push(e));
            }
            j += 1;
        }
        assert(es0.subrange(0, n as int) =~= es0);
        assert(self.enemies@.subrange(0, n as int) =~= self.enemies@);
    }

    /// Friendly projectiles move and are tested against every enemy.
    fn friendly_phase(&mut self, dt: u64)
        requires
            old(self).dimensions.wf(),
            forall|i: int|
                0 <= i < old(self).enemies@.len() ==> #[trigger] old(self).enemies@[i].wf(),
            forall|i: int|
                0 <= i < old(self).player_bullets@.len() ==> #[trigger] old(self).player_bullets@[i].wf(),
        ensures
            (final(self).enemies@, final(self).player_bullets@) == friendly_pass(
                old(self).enemies@,
                old(self).player_bullets@,
                dt,
                old(self).dimensions,
            ),
            forall|i: int|
                0 <= i < final(self).enemies@.len() ==> #[trigger] final(self).enemies@[i].wf(),
            forall|i: int|
                0 <= i < final(self).player_bullets@.len() ==> #[trigger] final(self).player_bullets@[i].wf(),
            final(self).player_bullets@.len() == old(self).player_bullets@.len(),
            forall|i: int|
                0 <= i < final(self).player_bullets@.len() ==> #[trigger] final(self).player_bullets@[i].friendly
                    == old(self).player_bullets@[i].friendly,
            final(self).player == old(self).player,
            final(self).enemy_bullets == old(self).enemy_bullets,
            final(self).dimensions == old(self).dimensions,
            final(self).score == old(self).score,
            final(self).level == old(self).level,
            final(self).current_kills == old(self).current_kills,
            final(self).game_over == old(self).game_over,
    {
        let n = self.player_bullets.len();
        let ghost es0 = self.enemies@;
        let ghost bs0 = self.player_bullets@;
        let mut i: usize = 0;
        while i < n
            invariant
                0 <= i <= n,
                n == bs0.len(),
                self.player_bullets@.len() == n,
                (self.enemies@, self.player_bullets@.subrange(0, i as int)) == friendly_pass(
                    es0,
                    bs0.subrange(0, i as int),
                    dt,
                    self.dimensions,
                ),
                forall|j: int| i <= j < n ==> #[trigger] self.player_bullets@[j] == bs0[j],
                forall|j: int| 0 <= j < n ==> #[trigger] self.player_bullets@[j].wf(),
                forall|j: int| 0 <= j < n ==> #[trigger] self.player_bullets@[j].friendly == bs0[j].friendly,
                forall|j: int|
                    0 <= j < self.enemies@.len() ==> #[trigger] self.enemies@[j].wf(),
                es0 == old(self).enemies@,
                bs0 == old(self).player_bullets@,
                self.player == old(self).player,
                self.enemy_bullets == old(self).enemy_bullets,
                self.dimensions == old(self).dimensions,
                self.score == old(self).score,
                self.level == old(self).level,
                self.current_kills == old(self).current_kills,
                self.game_over == old(self).game_over,
            decreases n - i,
        {
            let mut b = self.player_bullets[i];
            b.update(dt, &self.dimensions);
            self.strike_enemies(&mut b);
            let ghost prev = self.player_bullets@.subrange(0, i as int);
            self.player_bullets.set(i, b);
            proof {
                assert(bs0.subrange(0, i + 1).drop_last() =~= bs0.subrange(0, i as int));
                assert(self.player_bullets@.subrange(0, i + 1) =~= prev.push(b));
            }
            i += 1;
        }
        assert(bs0.subrange(0, n as int) =~= bs0);
        assert(self.player_bullets@.subrange(0, n as int) =~= self.player_bullets@);
    }

    /// Counts `kills` enemy deaths: each adds one to the score, to the
    /// player's health and to the kills of the level; then the level may end,
    /// else each kill brings two new enemies.
    fn settle(&mut self, kills: usize)
        requires
            old(self).dimensions.wf(),
            1 <= old(self).level,
            old(self).current_kills < old(self).level,
            forall|i: int|
                0 <= i < old(self).enemies@.len() ==> #[trigger] old(self).enemies@[i].wf(),
            enemies_live(old(self).enemies@),
        ensures
            final(self).player == (Player {
                health: sat_add(old(self).player.health, kills as int),
                ..old(self).player
            }),
            final(self).player_bullets == old(self).player_bullets,
            final(self).enemy_bullets == old(self).enemy_bullets,
            final(self).dimensions == old(self).dimensions,
            final(self).game_over == old(self).game_over,
            final(self).score == sat_add(old(self).score, kills as int),
            if kills > 0 && sat_add(old(self).current_kills, kills as int) >= old(self).level {
                &&& final(self).level == sat_add(old(self).level, 1)
                &&& final(self).current_kills == 0
                &&& final(self).enemies@.len() == 1
                &&& spawned(final(self).enemies@[0], old(self).dimensions)
            } else {
                &&& final(self).level == old(self).level
                &&& final(self).current_kills == sat_add(old(self).current_kills, kills as int)
                &&& final(self).enemies@.len() == old(self).enemies@.len() + 2 * kills
                &&& final(self).enemies@.subrange(0, old(self).enemies@.len() as int) == old(self).enemies@
                &&& forall|i: int|
                    old(self).enemies@.len() <= i < final(self).enemies@.len() ==> spawned(
                        #[trigger] final(self).enemies@[i],
                        old(self).dimensions,
                    )
            },
            forall|i: int|
                0 <= i < final(self).enemies@.len() ==> #[trigger] final(self).enemies@[i].wf(),
            enemies_live(final(self).enemies@),
            1 <= final(self).level,
            final(self).current_kills < final(self).level,
    {
        if kills == 0 {
            assert(self.enemies@.subrange(0, self.enemies@.len() as int) =~= self.enemies@);
            return ;
        }
        self.player.health = add_saturating(self.player.health, kills);
        self.score = add_saturating(self.score, kills);
        self.current_kills = add_saturating(self.current_kills, kills);
        if self.current_kills >= self.level {
            self.enemies.clear();
            self.add_enemy();
            self.level = add_saturating(self.level, 1);
            self.current_kills = 0;
        } else {
            let ghost base = self.enemies@;
            let mut j: usize = 0;
            while j < kills
                invariant
                    0 <= j <= kills,
                    self.enemies@.len() == base.len() + 2 * j,
                    self.enemies@.subrange(0, base.len() as int) == base,
                    forall|i: int|
                        base.len() <= i < self.enemies@.len() ==> spawned(
                            #[trigger] self.enemies@[i],
                            self.dimensions,
                        ),
                    forall|i: int|
                        0 <= i < self.enemies@.len() ==> #[trigger] self.enemies@[i].wf(),
                    enemies_live(self.enemies@),
                    self.dimensions.wf(),
                    self.dimensions == old(self).dimensions,
                    base == old(self).enemies@,
                    self.player == (Player {
                        health: sat_add(old(self).player.health, kills as int),
                        ..old(self).player
                    }),
                    self.player_bullets == old(self).player_bullets,
                    self.enemy_bullets == old(self).enemy_bullets,
                    self.game_over == old(self).game_over,
                    self.score == sat_add(old(self).score, kills as int),
                    self.level == old(self).level,
                    self.current_kills == sat_add(old(self).current_kills, kills as int),
                decreases kills - j,
            {
                let ghost before = self.enemies@;
                self.add_enemy();
                self.add_enemy();
                proof {
                    assert forall|i: int| base.len() <= i < self.enemies@.len() implies spawned(
                        #[trigger] self.enemies@[i],
                        self.dimensions,
                    ) by {
                        if i < before.len() {
                            assert(self.enemies@[i] == before[i]);
                        }
                    }
                    assert forall|i: int| 0 <= i < self.enemies@.len() implies #[trigger] self.enemies@[i].wf() by {
                        if i < before.len() {
                            assert(self.enemies@[i] == before[i]);
                        }
                    }
                    assert forall|i: int| 0 <= i < self.enemies@.len() implies #[trigger] self.enemies@[i].alive() by {
                        if i < before.len() {
                            assert(self.enemies@[i] == before[i]);
                        }
                    }
                    assert(self.enemies@.subrange(0, base.len() as int) =~= before.subrange(
                        0,
                        base.len() as int,
                    ));
                }
                j += 1;
            }
        }
    }

    /// Adds an enemy at a random place of the field; one in `FORWARD_ODDS`
    /// may move forward
    pub fn add_enemy(&mut self)
        requires
            old(self).dimensions.wf(),
        ensures
            final(self).enemies@.len() == old(self).enemies@.len() + 1,
            final(self).enemies@.drop_last() == old(self).enemies@,
            spawned(final(self).enemies@.last(), old(self).dimensions),
            exists|draw: u64|
                draw < FORWARD_ODDS && final(self).enemies@.last().forward == forward_of_spec(
                    draw as int,
                ),
            final(self).enemies@.last().wf(),
            final(self).player == old(self).player,
            final(self).player_bullets == old(self).player_bullets,
            final(self).enemy_bullets == old(self).enemy_bullets,
            final(self).dimensions == old(self).dimensions,
            final(self).score == old(self).score,
            final(self).level == old(self).level,
            final(self).current_kills == old(self).current_kills,
            final(self).game_over == old(self).game_over,
    {
        let x = random_coord(self.dimensions.width);
        let y = random_coord(self.dimensions.height);
        let forward = random_forward();
        self.add_enemy_at(x, y, forward);
    }

    /// Adds an enemy at `(x, y)`; `forward` tells whether it may move forward
    pub fn add_enemy_at(&mut self, x: i64, y: i64, forward: bool)
        requires
            (Vector { x, y }).valid(),
        ensures
            final(self).enemies@ == old(self).enemies@.push(Enemy::fresh(x, y, forward)),
            final(self).enemies@.last().wf(),
            final(self).player == old(self).player,
            final(self).player_bullets == old(self).player_bullets,
            final(self).enemy_bullets == old(self).enemy_bullets,
            final(self).dimensions == old(self).dimensions,
            final(self).score == old(self).score,
            final(self).level == old(self).level,
            final(self).current_kills == old(self).current_kills,
            final(self).game_over == old(self).game_over,
    {
        self.enemies.push(Enemy::new(x, y, forward));
        assert(self.enemies@.drop_last() =~= old(self).enemies@);
    }

    /// Resets the game: no projectile, one new enemy, the player back at the
    /// center with full health, score and kills at 0 and level 1
    pub fn reset(&mut self)
        requires
            old(self)@.wf(),
        ensures
            old(self)@.reset_to(final(self)@),
            final(self)@.wf(),
    {
        self.enemies.clear();
        self.player_bullets.clear();
        self.enemy_bullets.clear();
        self.score = 0;
        self.level = 1;
        self.current_kills = 0;
        self.player.reset(self.dimensions.width, self.dimensions.height);
        self.add_enemy();
        self.game_over = false;
    }

    /// Updates the size of the field when the window is resized; ignored once
    /// the game is over
    pub fn on_resize(&mut self, width: i64, height: i64)
        requires
            old(self)@.wf(),
            0 <= width <= COORD_LIMIT,
            0 <= height <= COORD_LIMIT,
        ensures
            final(self)@ == (if old(self).game_over {
                old(self)@
            } else {
                State { field: Field { width, height }, ..old(self)@ }
            }),
            final(self)@.wf(),
    {
        if !self.game_over {
            self.dimensions = Field::new(width, height);
        }
    }

    /// Updates the player's desired position when the mouse moves; ignored
    /// once the game is over
    pub fn on_mouse_mov(&mut self, x: i64, y: i64)
        requires
            old(self)@.wf(),
            (Vector { x, y }).valid(),
        ensures
            final(self)@ == (if old(self).game_over {
                old(self)@
            } else {
                State { player: old(self).player.aimed(Vector { x, y }), ..old(self)@ }
            }),
            final(self)@.wf(),
    {
        if !self.game_over {
            self.player.desired_update(x, y);
        }
    }

    /// Space starts shooting unless the game is over; R resets the game
    pub fn on_key_press(&mut self, key: Key)
        requires
            old(self)@.wf(),
        ensures
            key == Key::Space ==> final(self)@ == (if old(self).game_over {
                old(self)@
            } else {
                State { player: Player { is_shooting: true, ..old(self).player }, ..old(self)@ }
            }),
            key == Key::R ==> old(self)@.reset_to(final(self)@),
            key == Key::Other ==> final(self)@ == old(self)@,
            final(self)@.wf(),
    {
        match key {
            Key::Space => {
                if !self.game_over {
                    self.player.start_shooting();
                }
            },
            Key::R => {
                self.reset();
            },
            Key::Other => {},
        }
    }

    /// Space stops shooting unless the game is over
    pub fn on_key_release(&mut self, key: Key)
        requires
            old(self)@.wf(),
        ensures
            final(self)@ == (if key == Key::Space && !old(self).game_over {
                State { player: Player { is_shooting: false, ..old(self).player }, ..old(self)@ }
            } else {
                old(self)@
            }),
            final(self)@.wf(),
    {
        if key == Key::Space && !self.game_over {
            self.player.stop_shooting();
        }
    }

    /// Returns the current score
    pub fn get_score(&self) -> (r: u32)
        ensures
            r == self.score,
    {
        self.score
    }

    /// Returns the current level
    pub fn get_level(&self) -> (r: u32)
        ensures
            r == self.level,
    {
        self.level
    }

    /// Returns the amount of kills in the current level
    pub fn get_kills(&self) -> (r: u32)
        ensures
            r == self.current_kills,
    {
        self.current_kills
    }

    /// Returns whether the kills of this level complete it: they reach or
    /// pass the level
    pub fn new_level(&self) -> (r: bool)
        ensures
            r == (self.current_kills >= self.level),
    {
        self.current_kills >= self.level
    }

    /// Returns whether the game is over
    pub fn get_game_over(&self) -> (r: bool)
        ensures
            r == self.game_over,
    {
        self.game_over
    }

    /// Returns the player
    pub fn get_player(&self) -> (r: &Player)
        ensures
            *r == self.player,
    {
        &self.player
    }

    /// Returns the enemies
    pub fn get_enemies(&self) -> (r: &Vec<Enemy>)
        ensures
            r@ == self.enemies@,
    {
        &self.enemies
    }

    /// Returns the bullets shot by the player
    pub fn get_player_bullets(&self) -> (r: &Vec<Bullet>)
        ensures
            r@ == self.player_bullets@,
    {
        &self.player_bullets
    }

    /// Returns the bullets shot by the enemies
    pub fn get_enemy_bullets(&self) -> (r: &Vec<Bullet>)
        ensures
            r@ == self.enemy_bullets@,
    {
        &self.enemy_bullets
    }

    /// Returns the field
    pub fn get_dimensions(&self) -> (r: Field)
        ensures
            r == self.dimensions,
    {
        self.dimensions
    }
}

/// Every projectile kept by pruning is alive and comes from the pruned sequence.
pub proof fn lemma_live_bullets(s: Seq<Bullet>)
    ensures
        forall|i: int|
            0 <= i < live_bullets(s).len() ==> (#[trigger] live_bullets(s)[i]).alive
                && s.contains(live_bullets(s)[i]),
    decreases s.len(),
{
    if s.len() > 0 {
        let d = s.drop_last();
        lemma_live_bullets(d);
        let l = live_bullets(d);
        assert forall|i: int| 0 <= i < l.len() implies s.contains(#[trigger] l[i]) by {
            let j = choose|j: int| 0 <= j < d.len() && d[j] == l[i];
            assert(s[j] == l[i]);
        }
        assert(s[s.len() - 1] == s.last());
        if s.last().alive {
            let m = l.push(s.last());
            assert forall|i: int| 0 <= i < m.len() implies (#[trigger] m[i]).alive && s.contains(m[i]) by {
                if i < l.len() {
                    assert(m[i] == l[i]);
                }
            }
        }
    }
}

/// Pruning a sequence of well formed projectiles leaves well formed, live ones.
proof fn lemma_live_bullets_wf(s: Seq<Bullet>)
    requires
        forall|j: int| 0 <= j < s.len() ==> #[trigger] s[j].wf(),
    ensures
        bullets_live(live_bullets(s)),
{
    lemma_live_bullets(s);
    let l = live_bullets(s);
    assert forall|i: int| 0 <= i < l.len() implies #[trigger] l[i].wf() && l[i].alive by {
        assert(s.contains(l[i]));
        let j = choose|j: int| 0 <= j < s.len() && s[j] == l[i];
        assert(s[j].wf());
    }
}

proof fn lemma_live_enemies_wf(s: Seq<Enemy>)
    requires
        forall|j: int| 0 <= j < s.len() ==> #[trigger] s[j].wf(),
    ensures
        forall|i: int|
            0 <= i < live_enemies(s).len() ==> (#[trigger] live_enemies(s)[i]).wf()
                && live_enemies(s)[i].alive(),
    decreases s.len(),
{
    if s.len() > 0 {
        let d = s.drop_last();
        assert forall|j: int| 0 <= j < d.len() implies #[trigger] d[j].wf() by {
            assert(d[j] == s[j]);
        }
        lemma_live_enemies_wf(d);
        assert(s[s.len() - 1].wf());
        let l = live_enemies(d);
        if s.last().alive() {
            let m = l.push(s.last());
            assert forall|i: int| 0 <= i < m.len() implies #[trigger] m[i].wf() && m[i].alive() by {
                if i < l.len() {
                    assert(m[i] == l[i]);
                }
            }
        }
    }
}

pub proof fn lemma_live_enemies_len(s: Seq<Enemy>)
    ensures
        live_enemies(s).len() <= s.len(),
        live_enemies(s).len() == s.len() <==> forall|i: int| 0 <= i < s.len() ==> #[trigger] s[i].alive(),
    decreases s.len(),
{
    if s.len() > 0 {
        lemma_live_enemies_len(s.drop_last());
        assert(forall|j: int| 0 <= j < s.drop_last().len() ==> s.drop_last()[j] == s[j]);
        if !s.last().alive() {
            assert(!(forall|i: int| 0 <= i < s.len() ==> #[trigger] s[i].alive()) ) by {
                assert(!s[s.len() - 1].alive());
            }
        }
    }
}

/// `a + k`, saturated at the largest `u32`.
fn add_saturating(a: u32, k: usize) -> (r: u32)
    ensures
        r == sat_add(a, k as int),
{
    if k >= (u32::MAX - a) as usize {
        u32::MAX
    } else {
        a + k as u32
    }
}

/// The projectiles of `v` that are alive, in order.
fn keep_live_bullets(v: &Vec<Bullet>) -> (r: Vec<Bullet>)
    ensures
        r@ == live_bullets(v@),
        bullets_side(v@, true) ==> bullets_side(r@, true),
        bullets_side(v@, false) ==> bullets_side(r@, false),
{
    let mut r: Vec<Bullet> = Vec::new();
    let mut i: usize = 0;
    while i < v.len()
        invariant
            0 <= i <= v.len(),
            r@ == live_bullets(v@.subrange(0, i as int)),
        decreases v.len() - i,
    {
        proof {
            assert(v@.subrange(0, i + 1).drop_last() =~= v@.subrange(0, i as int));
        }
        if v[i].alive {
            r.push(v[i]);
        }
        i += 1;
    }
    assert(v@.subrange(0, v.len() as int) =~= v@);
    proof {
        lemma_live_bullets(v@);
        assert forall|i: int| 0 <= i < r@.len() implies exists|j: int| 0 <= j < v@.len() && v@[j] == #[trigger] r@[i] by {
            assert(v@.contains(r@[i]));
        }
    }
    r
}

/// The enemies of `v` that are alive, in order.
fn keep_live_enemies(v: &Vec<Enemy>) -> (r: Vec<Enemy>)
    ensures
        r@ == live_enemies(v@),
{
    let mut r: Vec<Enemy> = Vec::new();
    let mut i: usize = 0;
    while i < v.len()
        invariant
            0 <= i <= v.len(),
            r@ == live_enemies(v@.subrange(0, i as int)),
        decreases v.len() - i,
    {
        proof {
            assert(v@.subrange(0, i + 1).drop_last() =~= v@.subrange(0, i as int));
        }
        if v[i].health != 0 {
            r.push(v[i]);
        }
        i += 1;
    }
    assert(v@.subrange(0, v.len() as int) =~= v@);
    r
}

} // verus!
