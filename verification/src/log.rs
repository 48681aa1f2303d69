//! The append-only message log.
//!
//! Every user-facing event is recorded as a structured message together
//! with the colour it is displayed in.  Turning a message into display
//! text is a rendering concern and stays outside the library.

use vstd::prelude::*;

verus! {

/// Display colour of a log entry or an entity glyph.
#[derive(Debug, Clone, Copy, PartialEq, Eq, Structural)]
pub enum Color {
    White,
    Red,
    Green,
    Yellow,
    Orange,
    Violet,
    LightViolet,
    LightYellow,
    LightBlue,
    LightCyan,
    LightGreen,
    DarkRed,
    DesaturatedGreen,
    DarkerGreen,
}

/// One event worth telling the player about.  Each variant carries the
/// data its display text is built from.
#[derive(Debug, Clone, PartialEq)]
pub enum Message {
    /// "{attacker} attacks {defender} for {damage} hp"
    Attack { attacker: String, defender: String, damage: i32 },
    /// "{attacker} attacks {defender} but it has no effect"
    AttackNoEffect { attacker: String, defender: String },
    /// "You died!"
    PlayerDied,
    /// "The {monster} is dead!"
    MonsterDied { monster: String },
    /// "Your inventory is full. Cannot pick up {item}"
    InventoryFull { item: String },
    /// "You have picked up a {item}"
    PickedUp { item: String },
    /// "You dropped a {item}"
    Dropped { item: String },
    /// "The {item} cannot be used"
    CannotUse { item: String },
    /// "Cancelled"
    Cancelled,
    /// "Already at full health"
    AlreadyFullHealth,
    /// "Your wounds start to feel better"
    HealingBegins,
    /// "A lightning bolt strikes the {target} ... {damage} points of damage"
    LightningStrikes { target: String, damage: i32 },
    /// "There are no targets close enough"
    NoTargets,
    /// "Left-click an enemy to confuse it or right-click to cancel"
    ConfusePrompt,
    /// "No enemy close enough to confuse"
    NoEnemyToConfuse,
    /// "The eyes of the {target} glaze over. It looks confused"
    Confused { target: String },
    /// "The {monster} is no longer confused"
    NoLongerConfused { monster: String },
    /// "Left-click a target tile for the fireball, or right click to cancel"
    FireballPrompt,
    /// "The fireball explodes burning everything within {radius} tiles!"
    FireballExplodes { radius: i32 },
    /// "The {target} gets burned for {damage} damage"
    Burned { target: String, damage: i32 },
    /// The greeting shown when a new game starts.
    Welcome,
}

/// Insertion-ordered record of messages; it only ever grows.
#[derive(Debug)]
pub struct Messages {
    pub messages: Vec<(Message, Color)>,
}

impl View for Messages {
    type V = Seq<(Message, Color)>;

    open spec fn view(&self) -> Seq<(Message, Color)> {
        self.messages@
    }
}

impl Messages {
    /// An empty log.
    pub fn new() -> (r: Messages)
        ensures
            r@ == Seq::<(Message, Color)>::empty(),
    {
        Messages { messages: Vec::new() }
    }

    /// Append one message; everything already logged stays in place.
    pub fn add(&mut self, msg: Message, colour: Color)
        ensures
            final(self)@ == old(self)@.push((msg, colour)),
    {
        self.messages.push((msg, colour));
    }

    /// All entries, oldest first.
    pub fn iter(&self) -> (r: &Vec<(Message, Color)>)
        ensures
            r@ == self@,
    {
        &self.messages
    }

    /// How many messages have been logged.
    pub fn len(&self) -> (n: usize)
        ensures
            n == self@.len(),
    {
        self.messages.len()
    }
}

} // verus!
