use vstd::prelude::*;
use crate::attacks::{
    aged, any_live, attack_collision, attack_lifetime, attack_spawn_pos, attacks_in_world,
    attacks_wf, spawn_attacks, struck, AttackSpawner,
};
use crate::enemy::{
    batch_high, batch_low, capped, despawn_enemies, despawned, enemy_attack, enemy_movement,
    killed, moved_enemy, room_left, spawn_enemies, spawn_interval, touching, AttackTimer,
    SpawnTimer, MAX_ENEMIES, XP_PER_KILL,
};
use crate::entities::{sat_add, sat_sub, Attack, Enemy, Pickup, Player, CONTACT_DAMAGE};
use crate::geometry::Pos;
use crate::grid::{all_in_world, enemy_collision, separated_positions, SpatialGrid};
use crate::pickups::{healed, pickup_collision, pickups_in_world, reached, spawn_pickups};
use crate::player::{
    carried, cue_after, damage_audio_cooldown, facing, gain_level, menu_action, move_player,
    new_hit_cue, upgraded, walked, MenuButtonAction, HIT_CUE_NS,
};
use crate::sampling::in_annulus;
use crate::timer::{Stopwatch, Timer, TimerMode};

verus! {

/// The phase of the game; only `Running` advances the simulation.
#[derive(Clone, Copy, Debug, PartialEq, Eq, Structural)]
pub enum GameState {
    Loading,
    Running,
    GameOver,
    /// Held by the player.
    Paused,
    /// Held until a level-up upgrade is chosen.
    LevelUpScreen,
}

impl GameState {
    /// The simulation is held, by the player or for a level-up choice.
    pub fn is_paused(&self) -> (r: bool)
        ensures
            r == (*self == GameState::Paused || *self == GameState::LevelUpScreen),
    {
        match self {
            GameState::Paused => true,
            GameState::LevelUpScreen => true,
            _ => false,
        }
    }
}

/// What the input layer hands to one tick.
#[derive(Clone, Copy, Debug)]
pub struct TickInput {
    /// Horizontal walking direction: -1, 0 or 1.
    pub move_x: i8,
    /// Vertical walking direction: -1, 0 or 1.
    pub move_y: i8,
    pub pause: bool,
    pub unpause: bool,
    pub restart: bool,
    /// The level-up upgrade chosen on this tick, if any.
    pub choice: Option<MenuButtonAction>,
}

impl TickInput {
    pub open spec fn wf(self) -> bool {
        -1 <= self.move_x <= 1 && -1 <= self.move_y <= 1
    }

    /// No key pressed.
    pub fn idle() -> (r: TickInput)
        ensures
            r.wf(),
            r.move_x == 0 && r.move_y == 0,
            !r.pause && !r.unpause && !r.restart,
            r.choice is None,
    {
        TickInput { move_x: 0, move_y: 0, pause: false, unpause: false, restart: false, choice: None }
    }
}

/// What one tick hands to the audio layer.
#[derive(Clone, Copy, Debug, PartialEq, Eq, Structural)]
pub struct TickEvents {
    /// Play the cue of the player being hit.
    pub hit_cue: bool,
    /// Play the cue of an attack.
    pub attack_cue: bool,
}

/// The player after the end-of-tick checks: a dead player is removed and
/// the run is over; a player at the threshold levels up and the game waits
/// for an upgrade choice.
pub open spec fn settled(p: Player) -> (Option<Player>, GameState) {
    if p.health <= 0 {
        (None, GameState::GameOver)
    } else if p.xp >= p.next_level {
        (
            Some(
                Player {
                    level: sat_add(p.level, 1),
                    next_level: sat_add(p.next_level, p.next_level as int),
                    ..p
                },
            ),
            GameState::LevelUpScreen,
        )
    } else {
        (Some(p), GameState::Running)
    }
}

/// A live player at the threshold, short of the largest values, gains
/// exactly one level, the threshold doubles, and the game waits for an
/// upgrade choice.
pub proof fn lemma_level_up(p: Player)
    requires
        p.health > 0,
        p.xp >= p.next_level,
        p.level < u64::MAX,
        2 * p.next_level <= u64::MAX,
    ensures
        settled(p) == (
            Some(
                Player {
                    level: (p.level + 1) as u64,
                    next_level: (2 * p.next_level) as u64,
                    ..p
                },
            ),
            GameState::LevelUpScreen,
        ),
{
}

/// The end-of-tick checks on the player: death first, then level-up.
pub fn kill_player(p: Player) -> (r: (Option<Player>, GameState))
    ensures
        r == settled(p),
{
    if p.health <= 0 {
        return (None, GameState::GameOver);
    }
    let mut p = p;
    if gain_level(&mut p) {
        (Some(p), GameState::LevelUpScreen)
    } else {
        (Some(p), GameState::Running)
    }
}

/// `batch` is a wave that the spawner may create: empty unless the wave
/// timer completed; otherwise as many fresh enemies on the ring around
/// `center` as a size drawn from the wave range allows under the cap.
pub open spec fn wave_ok(len: nat, due: bool, center: Pos, now: u64, batch: Seq<Enemy>) -> bool {
    if !due {
        batch.len() == 0
    } else {
        &&& exists|d: int|
            batch_low(now) <= d < batch_high(now) && batch.len() == #[trigger] capped(
                d,
                room_left(len),
            )
        &&& forall|k: int|
            0 <= k < batch.len() ==> {
                &&& #[trigger] batch[k] == Enemy::fresh(batch[k].pos)
                &&& in_annulus(center, batch[k].pos)
                &&& batch[k].pos.in_world()
            }
    }
}

/// `pk` holds the one pickup on the ring around `center` when the pickup
/// timer completed, and nothing otherwise.
pub open spec fn pickup_ok(due: bool, center: Pos, pk: Seq<Pickup>) -> bool {
    if due {
        pk.len() == 1 && in_annulus(center, pk[0].pos) && pk[0].pos.in_world()
    } else {
        pk.len() == 0
    }
}

/// One running frame from `o` to `f`, phase by phase, where `batch` is the
/// enemy wave and `pk` the pickup that the random draws produced.
pub open spec fn ran_phases(
    o: World,
    f: World,
    delta: u64,
    input: TickInput,
    ev: TickEvents,
    batch: Seq<Enemy>,
    pk: Seq<Pickup>,
) -> bool {
    let p0 = o.player->0;
    let now = sat_add(o.clock.elapsed_ns, delta as int);
    // the player walks, carrying the attacks along
    let p1 = Player {
        pos: walked(p0, input.move_x as int, input.move_y as int, delta),
        flip_x: facing(p0.flip_x, input.move_x as int),
        ..p0
    };
    let atk1 = o.attacks@.map_values(
        |a: Attack| carried(a, p1.pos.x - p0.pos.x, p1.pos.y - p0.pos.y),
    );
    // spawning
    let st = o.spawn_timer.countdown.ticked(delta);
    let es2 = o.enemies@ + batch;
    let st2 = if st.finished {
        Timer::fresh(spawn_interval(now), TimerMode::Repeating)
    } else {
        st
    };
    let armed = o.attack_spawner.armed(p1.attack_speed_mod, delta);
    let attacking = any_live(es2) && armed.triggered();
    let sp2 = if !any_live(es2) {
        o.attack_spawner
    } else if attacking {
        armed.advanced()
    } else {
        armed
    };
    let atk2 = if attacking {
        atk1.push(Attack::fresh(attack_spawn_pos(es2, p1.pos)))
    } else {
        atk1
    };
    let pt = o.pickup_timer.countdown.ticked(delta);
    let pks2 = o.pickups@ + pk;
    // enemy movement
    let es3 = es2.map_values(|e: Enemy| moved_enemy(e, p1.pos, now, delta));
    // collisions
    let sep = separated_positions(es3, es3.len() as int);
    let es4 = Seq::new(es3.len(), |k: int| Enemy { pos: sep[k], ..es3[k] });
    let es5 = es4.map_values(|e: Enemy| struck(e, atk2, now));
    let at = o.attack_timer.countdown.ticked(delta);
    let hit = at.finished && touching(es5, p1.pos);
    let p2 = if hit {
        Player {
            health: sat_sub(p1.health, CONTACT_DAMAGE),
            recent_damage: true,
            last_damage_ns: now,
            ..p1
        }
    } else {
        p1
    };
    let cue_starts = hit && o.hit_cue is None;
    let cue1 = if cue_starts {
        Some(Timer::fresh(HIT_CUE_NS, TimerMode::Once))
    } else {
        o.hit_cue
    };
    let pks3 = pks2.filter(|q: Pickup| !reached(q, p2.pos));
    let p3 = Player {
        health: healed(
            p2.health,
            p2.max_health,
            pks2.filter(|q: Pickup| reached(q, p2.pos)).len(),
        ),
        ..p2
    };
    // despawning
    let es6 = es5.filter(|e: Enemy| !despawned(e, p3.pos, now));
    let p4 = Player {
        xp: sat_add(p3.xp, XP_PER_KILL * es5.filter(|e: Enemy| killed(e, p3.pos, now)).len()),
        ..p3
    };
    let atk3 = atk2.map_values(|a: Attack| aged(a, delta)).filter(
        |a: Attack| !a.lifetime.finished,
    );
    let after = cue_after(cue1, p4, now, delta);
    &&& wave_ok(o.enemies@.len(), st.finished, p1.pos, now, batch)
    &&& pickup_ok(pt.finished, p1.pos, pk)
    &&& f.clock.elapsed_ns == now
    &&& f.enemies@ == es6
    &&& f.attacks@ == atk3
    &&& f.pickups@ == pks3
    &&& f.spawn_timer.countdown == st2
    &&& f.pickup_timer.countdown == pt
    &&& f.attack_timer.countdown == at
    &&& f.attack_spawner == sp2
    &&& f.hit_cue == after.0
    &&& (f.player, f.state) == settled(after.1)
    &&& ev == (TickEvents { hit_cue: cue_starts, attack_cue: attacking })
}

/// The whole simulation: the player, the entity collections, the timers
/// of each subsystem, the spatial grid and the random source.
pub struct World {
    pub state: GameState,
    /// Run time; advances only while running.
    pub clock: Stopwatch,
    pub player: Option<Player>,
    pub enemies: Vec<Enemy>,
    pub attacks: Vec<Attack>,
    pub pickups: Vec<Pickup>,
    pub spawn_timer: SpawnTimer,
    pub pickup_timer: crate::pickups::SpawnTimer,
    pub attack_timer: AttackTimer,
    pub attack_spawner: AttackSpawner,
    /// The hit cue that is playing, if any.
    pub hit_cue: Option<Timer>,
    pub grid: SpatialGrid,
    pub rng: rand::rngs::SmallRng,
}

impl World {
    pub open spec fn wf(&self) -> bool {
        &&& self.player matches Some(p) ==> p.pos.in_arena()
        &&& self.player is None <==> (self.state == GameState::Loading || self.state
            == GameState::GameOver)
        &&& all_in_world(self.enemies@)
        &&& self.enemies@.len() <= MAX_ENEMIES
        &&& attacks_in_world(self.attacks@)
        &&& attacks_wf(self.attacks@)
        &&& pickups_in_world(self.pickups@)
        &&& self.spawn_timer.countdown.wf()
        &&& self.pickup_timer.countdown.wf()
        &&& self.attack_timer.countdown.wf()
        &&& self.attack_spawner.wf()
        &&& self.hit_cue matches Some(t) ==> t.wf()
        &&& !self.clock.paused
    }

    /// A world that has not started: no player, no entities, run time zero.
    pub fn new(rng: rand::rngs::SmallRng) -> (r: World)
        ensures
            r.wf(),
            r.state == GameState::Loading,
            r.player is None,
            r.enemies@.len() == 0,
            r.attacks@.len() == 0,
            r.pickups@.len() == 0,
            r.clock.elapsed_ns == 0,
            r.hit_cue is None,
    {
        let mut rng = rng;
        let spawn_timer = SpawnTimer::new(&mut rng);
        let pickup_timer = crate::pickups::SpawnTimer::new(&mut rng);
        World {
            state: GameState::Loading,
            clock: Stopwatch::new(),
            player: None,
            enemies: Vec::new(),
            attacks: Vec::new(),
            pickups: Vec::new(),
            spawn_timer,
            pickup_timer,
            attack_timer: AttackTimer::new(),
            attack_spawner: AttackSpawner::new(),
            hit_cue: None,
            grid: SpatialGrid::new(),
            rng,
        }
    }

    /// A new run: every enemy, attack and pickup goes, the run clock
    /// restarts and a fresh player stands at the origin.
    pub fn restart(&mut self)
        requires
            old(self).wf(),
        ensures
            final(self).wf(),
            final(self).state == GameState::Running,
            final(self).player == Some(Player::fresh()),
            final(self).enemies@.len() == 0,
            final(self).attacks@.len() == 0,
            final(self).pickups@.len() == 0,
            final(self).hit_cue is None,
            final(self).clock.elapsed_ns == 0,
            final(self).spawn_timer == old(self).spawn_timer,
            final(self).pickup_timer == old(self).pickup_timer,
            final(self).attack_timer == old(self).attack_timer,
            final(self).attack_spawner == old(self).attack_spawner,
    {
        self.enemies = Vec::new();
        self.attacks = Vec::new();
        self.pickups = Vec::new();
        self.hit_cue = None;
        self.clock.reset();
        self.player = Some(Player::new());
        self.state = GameState::Running;
    }

    /// Advances the game by one frame of `delta_ns` nanoseconds.
    ///
    /// Out of `Running`, only the state machine moves: `Loading` starts a
    /// run; `GameOver` restarts on `restart`; `Paused` resumes on `unpause`;
    /// `LevelUpScreen` applies the chosen upgrade and resumes. In `Running`,
    /// `pause` holds the game; otherwise the run clock advances and the
    /// phases run in order: player movement, spawning, enemy movement,
    /// collisions, despawning, then the death and level-up checks.
    pub fn tick(&mut self, delta_ns: u64, input: TickInput) -> (events: TickEvents)
        requires
            old(self).wf(),
            input.wf(),
        ensures
            final(self).wf(),
            old(self).state != GameState::Running ==> events == (TickEvents {
                hit_cue: false,
                attack_cue: false,
            }),
            old(self).state == GameState::Loading ==> final(self).state == GameState::Running
                && final(self).player == Some(Player::fresh()),
            old(self).state == GameState::GameOver && input.restart ==> {
                &&& final(self).state == GameState::Running
                &&& final(self).player == Some(Player::fresh())
                &&& final(self).enemies@.len() == 0
                &&& final(self).attacks@.len() == 0
                &&& final(self).pickups@.len() == 0
                &&& final(self).clock.elapsed_ns == 0
            },
            old(self).state == GameState::GameOver && !input.restart ==> final(self).state
                == GameState::GameOver && final(self).enemies@ == old(self).enemies@,
            old(self).state == GameState::Paused ==> final(self).state == if input.unpause {
                GameState::Running
            } else {
                GameState::Paused
            } && final(self).player == old(self).player && final(self).enemies@ == old(self).enemies@,
            old(self).state == GameState::LevelUpScreen ==> match input.choice {
                Some(c) => final(self).state == GameState::Running && final(self).player
                    == Some(upgraded(old(self).player->0, c)),
                None => final(self).state == GameState::LevelUpScreen && final(self).player
                    == old(self).player,
            },
            old(self).state == GameState::Running && input.pause ==> final(self).state
                == GameState::Paused && final(self).player == old(self).player && final(self).enemies@ == old(self).enemies@,
            old(self).state == GameState::Running && !input.pause ==> exists|
                batch: Seq<Enemy>,
                pk: Seq<Pickup>,
            | #[trigger] ran_phases(*old(self), *final(self), delta_ns, input, events, batch, pk),
            old(self).state != GameState::Running || input.pause ==> {
                &&& final(self).spawn_timer == old(self).spawn_timer
                &&& final(self).pickup_timer == old(self).pickup_timer
                &&& final(self).attack_timer == old(self).attack_timer
                &&& final(self).attack_spawner == old(self).attack_spawner
                &&& final(self).clock.elapsed_ns == if old(self).state == GameState::GameOver
                    && input.restart {
                    0
                } else {
                    old(self).clock.elapsed_ns
                }
            },
            old(self).state != GameState::Running && !(old(self).state == GameState::GameOver
                && input.restart) || old(self).state == GameState::Running && input.pause ==> {
                &&& final(self).enemies@ == old(self).enemies@
                &&& final(self).attacks@ == old(self).attacks@
                &&& final(self).pickups@ == old(self).pickups@
                &&& final(self).hit_cue == old(self).hit_cue
            },
    {
        let none = TickEvents { hit_cue: false, attack_cue: false };
        match self.state {
            GameState::Loading => {
                self.player = Some(Player::new());
                self.state = GameState::Running;
                none
            },
            GameState::GameOver => {
                if input.restart {
                    self.restart();
                }
                none
            },
            GameState::Paused => {
                if input.unpause {
                    self.state = GameState::Running;
                }
                none
            },
            GameState::LevelUpScreen => {
                match input.choice {
                    Some(c) => {
                        match self.player {
                            Some(p) => {
                                let mut p = p;
                                menu_action(&mut p, c);
                                self.player = Some(p);
                            },
                            None => {},
                        }
                        self.state = GameState::Running;
                    },
                    None => {},
                }
                none
            },
            GameState::Running => {
                if input.pause {
                    self.state = GameState::Paused;
                    none
                } else {
                    self.run_phases(delta_ns, input)
                }
            },
        }
    }

    /// One running frame, phase by phase.
    fn run_phases(&mut self, delta_ns: u64, input: TickInput) -> (events: TickEvents)
        requires
            old(self).wf(),
            old(self).state == GameState::Running,
            input.wf(),
        ensures
            final(self).wf(),
            exists|batch: Seq<Enemy>, pk: Seq<Pickup>|
                #[trigger] ran_phases(*old(self), *final(self), delta_ns, input, events, batch, pk),
    {
        let ghost o = *self;
        let mut p = match self.player {
            Some(p) => p,
            None => {
                return TickEvents { hit_cue: false, attack_cue: false };
            },
        };
        let ghost p0 = p;
        self.clock.tick(delta_ns);
        let now = self.clock.elapsed_ns;

        move_player(&mut p, &mut self.attacks, input.move_x, input.move_y, delta_ns);
        let ghost p1 = p;
        assert(self.attacks@ =~= o.attacks@.map_values(
            |a: Attack| carried(a, p1.pos.x - p0.pos.x, p1.pos.y - p0.pos.y),
        ));

        spawn_enemies(&mut self.enemies, &mut self.spawn_timer, p.pos, delta_ns, now, &mut self.rng);
        let ghost batch = self.enemies@.subrange(o.enemies@.len() as int, self.enemies@.len() as int);
        assert(self.enemies@ =~= o.enemies@ + batch);
        assert(all_in_world(self.enemies@)) by {
            assert forall|k: int| 0 <= k < self.enemies@.len() implies (
            #[trigger] self.enemies@[k]).pos.in_world() by {
                if k < o.enemies@.len() {
                    assert(self.enemies@[k] == o.enemies@[k]);
                }
            }
        }
        proof {
            if o.spawn_timer.countdown.ticked(delta_ns).finished {
                assert forall|k: int| 0 <= k < batch.len() implies {
                    &&& #[trigger] batch[k] == Enemy::fresh(batch[k].pos)
                    &&& in_annulus(p1.pos, batch[k].pos)
                    &&& batch[k].pos.in_world()
                } by {
                    assert(batch[k] == self.enemies@[o.enemies@.len() + k]);
                }
            }
        }
        let ghost es2 = self.enemies@;
        let ghost atk_before = self.attacks@;
        let attack_cue = spawn_attacks(
            &mut self.attack_spawner,
            &mut self.attacks,
            &p,
            &self.enemies,
            delta_ns,
        );
        proof {
            if self.attacks@ != atk_before {
                crate::attacks::lemma_spawn_pos_in_world(self.enemies@, p.pos);
                assert(self.attacks@.drop_last() =~= atk_before);
                assert(attacks_in_world(self.attacks@)) by {
                    assert forall|k: int| 0 <= k < self.attacks@.len() implies (
                    #[trigger] self.attacks@[k]).pos.in_world() by {
                        if k < atk_before.len() {
                            assert(self.attacks@[k] == atk_before[k]);
                        }
                    }
                }
                assert(attacks_wf(self.attacks@)) by {
                    assert forall|k: int| 0 <= k < self.attacks@.len() implies (
                    #[trigger] self.attacks@[k]).lifetime_wf() by {
                        if k < atk_before.len() {
                            assert(self.attacks@[k] == atk_before[k]);
                        }
                    }
                }
            }
        }
        let ghost atk2 = self.attacks@;
        let ghost pk_before = self.pickups@;
        spawn_pickups(&mut self.pickups, &mut self.pickup_timer, p.pos, delta_ns, &mut self.rng);
        let ghost pk = self.pickups@.subrange(pk_before.len() as int, self.pickups@.len() as int);
        assert(self.pickups@ =~= pk_before + pk);
        assert(pickups_in_world(self.pickups@)) by {
            assert forall|k: int| 0 <= k < self.pickups@.len() implies (
            #[trigger] self.pickups@[k]).pos.in_world() by {
                if k < pk_before.len() && self.pickups@ != pk_before {
                    assert(self.pickups@.drop_last()[k] == self.pickups@[k]);
                }
            }
        }
        proof {
            if self.pickups@ != pk_before {
                assert(pk[0] == self.pickups@.last());
            }
        }

        enemy_movement(&mut self.enemies, p.pos, now, delta_ns);
        let ghost es3 = self.enemies@;
        assert(es3 =~= es2.map_values(|e: Enemy| moved_enemy(e, p1.pos, now, delta_ns)));

        self.grid.rebuild(&self.enemies);
        enemy_collision(&self.grid, &mut self.enemies);
        let ghost sep = separated_positions(es3, es3.len() as int);
        assert(self.enemies@ =~= Seq::new(es3.len(), |k: int| Enemy { pos: sep[k], ..es3[k] }));
        let ghost es4 = self.enemies@;
        attack_collision(&self.attacks, &mut self.enemies, now);
        assert(self.enemies@ =~= es4.map_values(|e: Enemy| struck(e, atk2, now)));
        let had_cue = self.hit_cue.is_some();
        let hit = enemy_attack(&mut p, &self.enemies, &mut self.attack_timer, now, delta_ns);
        let hit_cue = hit && !had_cue;
        if hit_cue {
            self.hit_cue = Some(new_hit_cue());
        }
        let ghost p2 = p;
        let ghost pks2 = self.pickups@;
        pickup_collision(&mut p, &mut self.pickups);
        let ghost p3 = p;
        let ghost es5 = self.enemies@;

        despawn_enemies(&mut self.enemies, &mut p, now);
        let ghost p4 = p;
        attack_lifetime(&mut self.attacks, delta_ns);
        let ghost cue1 = self.hit_cue;
        damage_audio_cooldown(&mut p, &mut self.hit_cue, now, delta_ns);

        let (np, ns) = kill_player(p);
        self.player = np;
        self.state = ns;
        let events = TickEvents { hit_cue, attack_cue };
        proof {
            let ghost f = *self;
            assert(ran_phases(o, f, delta_ns, input, events, batch, pk));
        }
        events
    }
}

} // verus!
