//! The duel's monsters: posture, element and weakness. The weakness is what
//! makes the player *program*: the posture changes every turn, so a script
//! without a branch cannot win against some of them.

pub mod data;

use vstd::prelude::*;
use crate::inventory::Item as DropItem;
use crate::text::str_eq;
use crate::world::entity::Kind;

verus! {

#[derive(Debug, Clone, Copy, PartialEq, Eq, Structural)]
pub enum Element {
    Fogo,
    Agua,
    Terra,
    Nenhum,
}

/// The element a name stands for (`"fogo"`, `"agua"`, `"terra"`); any other
/// name stands for none.
pub open spec fn element_of(name: Seq<char>) -> Element {
    if name == "fogo"@ {
        Element::Fogo
    } else if name == "agua"@ {
        Element::Agua
    } else if name == "terra"@ {
        Element::Terra
    } else {
        Element::Nenhum
    }
}

impl Element {
    pub fn from_name(name: &str) -> (r: Element)
        ensures
            r == element_of(name@),
    {
        if str_eq(name, "fogo") {
            Element::Fogo
        } else if str_eq(name, "agua") {
            Element::Agua
        } else if str_eq(name, "terra") {
            Element::Terra
        } else {
            Element::Nenhum
        }
    }
}

#[derive(Debug, Clone, Copy, PartialEq, Eq, Structural)]
pub enum Posture {
    Guarda,
    Aberta,
}

pub open spec fn posture_word(p: Posture) -> Seq<char> {
    match p {
        Posture::Guarda => "guarda"@,
        Posture::Aberta => "aberta"@,
    }
}

pub open spec fn posture_toggled(p: Posture) -> Posture {
    match p {
        Posture::Guarda => Posture::Aberta,
        Posture::Aberta => Posture::Guarda,
    }
}

impl Posture {
    pub fn as_str(self) -> (r: &'static str)
        ensures
            r@ == posture_word(self),
    {
        match self {
            Posture::Guarda => "guarda",
            Posture::Aberta => "aberta",
        }
    }

    pub fn toggled(self) -> (r: Posture)
        ensures
            r == posture_toggled(self),
            r != self,
    {
        match self {
            Posture::Guarda => Posture::Aberta,
            Posture::Aberta => Posture::Guarda,
        }
    }
}

/// Toggling the posture twice gives it back: the guard comes every other
/// turn.
pub proof fn lemma_toggle_twice(p: Posture)
    ensures
        posture_toggled(posture_toggled(p)) == p,
{
}

/// What makes a monster take full damage: the right algorithm differs per
/// monster.
#[derive(Debug, Clone, Copy, PartialEq, Eq, Structural)]
pub enum Weakness {
    /// full damage only from one element; other attacks deal reduced damage
    Elemento(Element),
    /// full damage only while the posture is "guarda"
    ExigeGuarda,
    /// full damage only while the executed cycles stay within `max_ciclos`
    Eficiencia { max_ciclos: u32 },
    /// no damage at all until `inspecionar()` ran this turn
    RequerInspecao,
    /// full damage only with posture "guarda" and `inspecionar()` this turn
    DuploSelo,
    /// full damage only when the attack runs inside a player function
    ExigeNomeacao,
    /// full damage only after two `invocar` blocks ran this turn
    ExigeInvocacaoDupla,
}

pub open spec fn weakness_label(w: Weakness) -> Seq<char> {
    match w {
        Weakness::Elemento(Element::Fogo) => "FRAQUEZA FOGO"@,
        Weakness::Elemento(Element::Agua) => "FRAQUEZA AGUA"@,
        Weakness::Elemento(Element::Terra) => "FRAQUEZA TERRA"@,
        Weakness::Elemento(Element::Nenhum) => "SEM ELEMENTO"@,
        Weakness::ExigeGuarda => "EXPOSTO NA GUARDA"@,
        Weakness::Eficiencia { .. } => "PUNE CICLOS ALTOS"@,
        Weakness::RequerInspecao => "OCULTA A FRAQUEZA"@,
        Weakness::DuploSelo => "EXIGE GUARDA E INSPECAO"@,
        Weakness::ExigeNomeacao => "SO RESPEITA GOLPE NOMEADO"@,
        Weakness::ExigeInvocacaoDupla => "EXIGE DUAS INVOCACOES"@,
    }
}

impl Weakness {
    /// Short label for the monster's card on the duel screen.
    pub fn label(self) -> (r: &'static str)
        ensures
            r@ == weakness_label(self),
    {
        match self {
            Weakness::Elemento(Element::Fogo) => "FRAQUEZA FOGO",
            Weakness::Elemento(Element::Agua) => "FRAQUEZA AGUA",
            Weakness::Elemento(Element::Terra) => "FRAQUEZA TERRA",
            Weakness::Elemento(Element::Nenhum) => "SEM ELEMENTO",
            Weakness::ExigeGuarda => "EXPOSTO NA GUARDA",
            Weakness::Eficiencia { .. } => "PUNE CICLOS ALTOS",
            Weakness::RequerInspecao => "OCULTA A FRAQUEZA",
            Weakness::DuploSelo => "EXIGE GUARDA E INSPECAO",
            Weakness::ExigeNomeacao => "SO RESPEITA GOLPE NOMEADO",
            Weakness::ExigeInvocacaoDupla => "EXIGE DUAS INVOCACOES",
        }
    }
}

/// How much the enemy's charge rises each turn, and the level at which the
/// turn's blow becomes the special one.
pub const CHARGE_PER_TURN: u32 = 7;
pub const CHARGE_THRESHOLD: u32 = 20;

#[derive(Debug, Clone, PartialEq)]
pub struct MonsterSpec {
    pub title: &'static str,
    /// the chamber where this monster is met, for the duel's header
    pub room: &'static str,
    pub description: [&'static str; 2],
    pub max_life: i32,
    pub cycle_budget: u32,
    pub weakness: Weakness,
    pub base_damage: i32,
    /// names of the normal blow and of the special one (full charge)
    pub attack_name: &'static str,
    pub special_attack_name: &'static str,
    /// the item this monster always leaves when beaten
    pub drop: DropItem,
}

#[derive(Debug, Clone, PartialEq)]
pub struct MonsterState {
    pub spec: MonsterSpec,
    pub life: i32,
    pub posture: Posture,
    pub inspected_this_turn: bool,
    /// rises every turn; at `CHARGE_THRESHOLD` the turn's blow is the special
    /// one, and the charge is spent
    pub charge: u32,
}

impl MonsterState {
    pub fn new(spec: MonsterSpec) -> (r: MonsterState)
        ensures
            r.spec == spec,
            r.life == spec.max_life,
            r.posture == Posture::Guarda,
            !r.inspected_this_turn,
            r.charge == 0,
    {
        let life = spec.max_life;
        MonsterState { spec, life, posture: Posture::Guarda, inspected_this_turn: false, charge: 0 }
    }

    pub open spec fn is_alive(&self) -> bool {
        self.life > 0
    }

    pub fn alive(&self) -> (r: bool)
        ensures
            r == self.is_alive(),
    {
        self.life > 0
    }

    /// Start of a turn: the posture flips, the inspection is forgotten and
    /// the charge grows, up to its cap at `CHARGE_THRESHOLD`.
    pub fn begin_turn(&mut self)
        ensures
            final(self).spec == old(self).spec,
            final(self).life == old(self).life,
            final(self).posture == posture_toggled(old(self).posture),
            !final(self).inspected_this_turn,
            final(self).charge == charged(old(self).charge as int),
    {
        self.posture = self.posture.toggled();
        self.inspected_this_turn = false;
        if self.charge >= CHARGE_THRESHOLD - CHARGE_PER_TURN {
            self.charge = CHARGE_THRESHOLD;
        } else {
            self.charge = self.charge + CHARGE_PER_TURN;
        }
    }

    pub open spec fn is_special_ready(&self) -> bool {
        self.charge >= CHARGE_THRESHOLD
    }

    /// Whether this turn's blow is the special one.
    pub fn special_ready(&self) -> (r: bool)
        ensures
            r == self.is_special_ready(),
    {
        self.charge >= CHARGE_THRESHOLD
    }

    /// Spends the charge after the special blow happened.
    pub fn consume_charge(&mut self)
        ensures
            final(self).charge == 0,
            final(self).spec == old(self).spec,
            final(self).life == old(self).life,
            final(self).posture == old(self).posture,
            final(self).inspected_this_turn == old(self).inspected_this_turn,
    {
        self.charge = 0;
    }
}

/// The charge after one more turn: `CHARGE_PER_TURN` more, capped at
/// `CHARGE_THRESHOLD`.
pub open spec fn charged(c: int) -> int {
    if c + CHARGE_PER_TURN < CHARGE_THRESHOLD {
        c + CHARGE_PER_TURN
    } else {
        CHARGE_THRESHOLD as int
    }
}

/// From an empty charge, the special blow is ready at the third turn and
/// not before: 7, 14, then 20 (the cap).
pub proof fn lemma_special_every_third_turn()
    ensures
        charged(0) == CHARGE_PER_TURN,
        charged(charged(0)) < CHARGE_THRESHOLD,
        charged(charged(charged(0))) == CHARGE_THRESHOLD,
{
}

/// The charge never goes past its cap, however many turns pass.
pub proof fn lemma_charge_capped(c: int)
    requires
        0 <= c <= CHARGE_THRESHOLD,
    ensures
        0 <= charged(c) <= CHARGE_THRESHOLD,
{
}

/// The number of phases of the campaign, one per monster.
pub const PHASE_COUNT: usize = 7;

/// The overworld kind of the monster of each phase, in the fixed order of
/// the campaign.
pub open spec fn phase_kind(index: int) -> Kind {
    if index == 0 { Kind::Mummy }
    else if index == 1 { Kind::Zombie }
    else if index == 2 { Kind::Beetle }
    else if index == 3 { Kind::Sphinx }
    else if index == 4 { Kind::Guardiao }
    else if index == 5 { Kind::Sentinela }
    else { Kind::Necroguardiao }
}

/// The campaign's phases, in order (Mumia, Zumbi, Escaravelho, Esfinge,
/// Aker, Apagado, Chabti-Mor): the monster's overworld kind and its
/// description. `None` past the last phase.
pub fn phase(index: usize) -> (r: Option<(Kind, MonsterSpec)>)
    ensures
        index < PHASE_COUNT <==> r is Some,
        r matches Some((k, s)) ==> {
            &&& k == phase_kind(index as int)
            &&& data::phase_monster(index as int, s)
            &&& s.title@ == data::phase_title(index as int)
            &&& s.drop.id@ == data::phase_drop_id(index as int)
        },
{
    if index == 0 {
        Some((Kind::Mummy, data::mummy()))
    } else if index == 1 {
        Some((Kind::Zombie, data::zombie()))
    } else if index == 2 {
        Some((Kind::Beetle, data::beetle()))
    } else if index == 3 {
        Some((Kind::Sphinx, data::sphinx()))
    } else if index == 4 {
        Some((Kind::Guardiao, data::guardiao()))
    } else if index == 5 {
        Some((Kind::Sentinela, data::sentinela()))
    } else if index == 6 {
        Some((Kind::Necroguardiao, data::necroguardiao()))
    } else {
        None
    }
}

} // verus!
