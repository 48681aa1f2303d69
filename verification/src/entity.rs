//! In-game objects and their combat behaviour.
//!
//! Every entity is an [`Object`]: position, glyph, name, and an optional
//! set of capabilities (combat stats, an AI state, an item tag).  The
//! damage, healing and death rules live here, described by spec relations
//! that the rest of the library composes.

use vstd::prelude::*;
use crate::geometry;
use crate::geometry::dist_sq;
use crate::log::Color;
use crate::log::Message;
use crate::log::Messages;

verus! {

/// Bound on every combat statistic, generous against the values the
/// generator hands out; it keeps all damage arithmetic inside `i32`.
pub const STAT_BOUND: i32 = 1000;

/// What happens when a fighter's hit points run out.
#[derive(Debug, Clone, Copy, PartialEq, Eq, Structural)]
pub enum DeathCallback {
    Player,
    Monster,
}

/// Combat capability of an entity.
#[derive(Debug, Clone, Copy, PartialEq, Eq, Structural)]
pub struct Fighter {
    pub max_hp: i32,
    pub hp: i32,
    pub defence: i32,
    pub power: i32,
    pub on_death: DeathCallback,
}

/// AI state of a monster: plain pursuit, or a confusion that remembers
/// what to go back to.
#[derive(Debug, PartialEq)]
pub enum AI {
    Basic,
    Confused { previous_ai: Box<AI>, num_turns: i32 },
}

/// What an item does when used; pure tag, dispatched by the action code.
#[derive(Debug, Clone, Copy, PartialEq, Eq, Structural)]
pub enum Item {
    Heal,
    Lightning,
    Fireball,
    Confuse,
}

/// Whether using an item consumed it.
#[derive(Debug, Clone, Copy, PartialEq, Eq, Structural)]
pub enum UseResult {
    UsedUp,
    Cancelled,
}

/// An in-game object: the player, a monster, an item lying on the floor,
/// or the remains of any of them.
#[derive(Debug)]
pub struct Object {
    pub x: i32,
    pub y: i32,
    pub chr: char,
    pub colour: Color,
    pub name: String,
    pub blocks: bool,
    pub alive: bool,
    pub fighter: Option<Fighter>,
    pub ai: Option<AI>,
    pub item: Option<Item>,
}

/// Attack strength: the fighter's power, or nothing without one.
pub open spec fn power_of(o: Object) -> int {
    if o.fighter is Some {
        o.fighter->0.power as int
    } else {
        0
    }
}

/// Damage soak: the fighter's defence, or nothing without one.
pub open spec fn defence_of(o: Object) -> int {
    if o.fighter is Some {
        o.fighter->0.defence as int
    } else {
        0
    }
}

/// The melee formula: attacker's power less defender's defence.
pub open spec fn attack_damage(attacker: Object, defender: Object) -> int {
    power_of(attacker) - defence_of(defender)
}

/// Hit points after the subtraction step: damage is applied only when
/// positive.
pub open spec fn hp_after(o: Object, damage: int) -> int {
    if damage > 0 {
        o.fighter->0.hp - damage
    } else {
        o.fighter->0.hp as int
    }
}

/// The combat statistics every entity of a well-formed world satisfies.
/// Live fighters have at least one hit point; monsters that still fight
/// are alive (death strips their capabilities at once); hit points never
/// sink further than one blow below zero.
pub open spec fn stats_ok(o: Object) -> bool {
    o.fighter is Some ==> {
        let f = o.fighter->0;
        &&& 1 <= f.max_hp <= STAT_BOUND
        &&& f.hp <= f.max_hp
        &&& f.hp >= 1 - STAT_BOUND
        &&& 0 <= f.power <= STAT_BOUND
        &&& 0 <= f.defence <= STAT_BOUND
        &&& (o.alive ==> f.hp >= 1)
        &&& (f.on_death is Monster ==> o.alive)
    }
}

/// How `take_damage` transforms the object itself: hit points drop, and
/// when they run out the death behaviour fires.  A `Monster` death turns
/// the entity into inert remains; a `Player` death recolours it in place.
pub open spec fn take_damage_obj_post(o0: Object, damage: int, o1: Object) -> bool {
    if o0.fighter is None {
        o1 == o0
    } else {
        let hp1 = hp_after(o0, damage);
        if hp1 > 0 {
            o1 == (Object { fighter: Some(Fighter { hp: hp1 as i32, ..o0.fighter->0 }), ..o0 })
        } else if o0.fighter->0.on_death is Player {
            o1 == (Object {
                alive: false,
                chr: '%',
                colour: Color::DarkRed,
                fighter: Some(Fighter { hp: hp1 as i32, ..o0.fighter->0 }),
                ..o0
            })
        } else {
            &&& o1.x == o0.x
            &&& o1.y == o0.y
            &&& o1.chr == '%'
            &&& o1.colour == Color::DarkRed
            &&& o1.name@ == "remains of "@ + o0.name@
            &&& o1.blocks == false
            &&& o1.alive == false
            &&& o1.fighter is None
            &&& o1.ai is None
            &&& o1.item == o0.item
        }
    }
}

/// The messages `take_damage` appends: one death announcement, or none.
pub open spec fn take_damage_log(o0: Object, damage: int) -> Seq<(Message, Color)> {
    if o0.fighter is Some && hp_after(o0, damage) <= 0 {
        if o0.fighter->0.on_death is Player {
            seq![(Message::PlayerDied, Color::Red)]
        } else {
            seq![(Message::MonsterDied { monster: o0.name }, Color::Orange)]
        }
    } else {
        Seq::empty()
    }
}

/// The messages one melee attack appends: the blow and any death it
/// causes, or a single no-effect line.
pub open spec fn attack_log(a0: Object, d0: Object) -> Seq<(Message, Color)> {
    let dmg = attack_damage(a0, d0);
    if dmg > 0 {
        seq![
            (
                Message::Attack { attacker: a0.name, defender: d0.name, damage: dmg as i32 },
                Color::White,
            ),
        ] + take_damage_log(d0, dmg)
    } else {
        seq![
            (Message::AttackNoEffect { attacker: a0.name, defender: d0.name }, Color::White),
        ]
    }
}

/// How one melee attack transforms the defender.
pub open spec fn attack_obj_post(a0: Object, d0: Object, d1: Object) -> bool {
    if attack_damage(a0, d0) > 0 {
        take_damage_obj_post(d0, attack_damage(a0, d0), d1)
    } else {
        d1 == d0
    }
}

impl Object {
    /// A bare object with no capabilities; not yet alive.
    pub fn new(name: &str, x: i32, y: i32, chr: char, colour: Color, blocks: bool) -> (o: Object)
        ensures
            o.x == x,
            o.y == y,
            o.chr == chr,
            o.colour == colour,
            o.name@ == name@,
            o.blocks == blocks,
            o.alive == false,
            o.fighter is None,
            o.ai is None,
            o.item is None,
    {
        Object {
            x,
            y,
            chr,
            colour,
            name: name.to_owned(),
            blocks,
            alive: false,
            fighter: None,
            ai: None,
            item: None,
        }
    }

    /// The object's cell.
    pub fn pos(&self) -> (p: (i32, i32))
        ensures
            p == (self.x, self.y),
    {
        (self.x, self.y)
    }

    /// Move the object to a cell; nothing else about it changes.
    pub fn set_pos(&mut self, x: i32, y: i32)
        ensures
            *final(self) == (Object { x, y, ..*old(self) }),
    {
        self.x = x;
        self.y = y;
    }

    /// Squared Euclidean distance to another object.
    pub fn distance_to(&self, other: &Object) -> (d: i64)
        requires
            -0x10000 <= self.x <= 0x10000,
            -0x10000 <= self.y <= 0x10000,
            -0x10000 <= other.x <= 0x10000,
            -0x10000 <= other.y <= 0x10000,
        ensures
            d == dist_sq(self.x as int, self.y as int, other.x as int, other.y as int),
    {
        geometry::distance_sq(self.x, self.y, other.x, other.y)
    }

    /// Squared Euclidean distance to a cell.
    pub fn distance(&self, x: i32, y: i32) -> (d: i64)
        requires
            -0x10000 <= self.x <= 0x10000,
            -0x10000 <= self.y <= 0x10000,
            -0x10000 <= x <= 0x10000,
            -0x10000 <= y <= 0x10000,
        ensures
            d == dist_sq(self.x as int, self.y as int, x as int, y as int),
    {
        geometry::distance_sq(self.x, self.y, x, y)
    }

    /// Apply damage and, if hit points run out, the death transition.
    pub fn take_damage(&mut self, damage: i32, messages: &mut Messages)
        requires
            stats_ok(*old(self)),
            damage <= STAT_BOUND,
            old(self).fighter is Some ==> old(self).fighter->0.hp >= 1,
        ensures
            take_damage_obj_post(*old(self), damage as int, *final(self)),
            final(messages)@ == old(messages)@ + take_damage_log(*old(self), damage as int),
            stats_ok(*final(self)),
    {
        if self.fighter.is_some() {
            if damage > 0 {
                match &mut self.fighter {
                    Some(f) => {
                        f.hp = f.hp - damage;
                    },
                    None => {},
                }
            }
            let dead = match &self.fighter {
                Some(f) => f.hp <= 0,
                None => false,
            };
            if dead {
                self.alive = false;
                let on_death = match &self.fighter {
                    Some(f) => f.on_death,
                    None => DeathCallback::Monster,
                };
                match on_death {
                    DeathCallback::Player => {
                        messages.add(Message::PlayerDied, Color::Red);
                        self.chr = '%';
                        self.colour = Color::DarkRed;
                    },
                    DeathCallback::Monster => {
                        messages.add(
                            Message::MonsterDied { monster: self.name.clone() },
                            Color::Orange,
                        );
                        self.chr = '%';
                        self.colour = Color::DarkRed;
                        self.blocks = false;
                        self.fighter = None;
                        self.ai = None;
                        let mut remains: String = "remains of ".to_owned();
                        remains.append(self.name.as_str());
                        self.name = remains;
                    },
                }
            }
        }
    }

    /// Restore hit points, never past the maximum.  Does nothing to an
    /// object without combat stats.
    pub fn heal(&mut self, amount: i32)
        requires
            stats_ok(*old(self)),
            0 <= amount <= STAT_BOUND,
        ensures
            old(self).fighter is None ==> *final(self) == *old(self),
            old(self).fighter is Some ==> *final(self) == (Object {
                fighter: Some(
                    Fighter {
                        hp: (if old(self).fighter->0.hp + amount > old(self).fighter->0.max_hp {
                            old(self).fighter->0.max_hp as int
                        } else {
                            old(self).fighter->0.hp + amount
                        }) as i32,
                        ..old(self).fighter->0
                    },
                ),
                ..*old(self)
            }),
            stats_ok(*final(self)),
    {
        match &mut self.fighter {
            Some(f) => {
                f.hp = f.hp + amount;
                if f.hp > f.max_hp {
                    f.hp = f.max_hp;
                }
            },
            None => {},
        }
    }

    /// One melee blow from `self` against `target`: positive damage is
    /// announced and applied, non-positive damage only announced.
    pub fn attack(&mut self, target: &mut Object, messages: &mut Messages)
        requires
            stats_ok(*old(self)),
            stats_ok(*old(target)),
            old(target).fighter is Some ==> old(target).fighter->0.hp >= 1,
        ensures
            *final(self) == *old(self),
            attack_obj_post(*old(self), *old(target), *final(target)),
            stats_ok(*final(target)),
            final(messages)@ == old(messages)@ + attack_log(*old(self), *old(target)),
    {
        let my_power = match &self.fighter {
            Some(f) => f.power,
            None => 0,
        };
        let their_defence = match &target.fighter {
            Some(f) => f.defence,
            None => 0,
        };
        let damage = my_power - their_defence;
        if damage > 0 {
            messages.add(
                Message::Attack {
                    attacker: self.name.clone(),
                    defender: target.name.clone(),
                    damage,
                },
                Color::White,
            );
            target.take_damage(damage, messages);
        } else {
            messages.add(
                Message::AttackNoEffect {
                    attacker: self.name.clone(),
                    defender: target.name.clone(),
                },
                Color::White,
            );
        }
    }
}

} // verus!
