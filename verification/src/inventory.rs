//! The player's real equipment and bag, the player class, and the save
//! state that the game keeps between runs. A missing item is never an
//! error: everything here only adds bonuses.

use vstd::prelude::*;
use crate::numtext::{i32_text, int_text};
use crate::script::value::{kind_label, ItemKind};
use crate::text::{push_chars, push_str};

verus! {

/// An inventory item: a stable id, the kind and the name by which a script
/// cites it, and the bonus it gives when equipped and cited.
#[derive(Debug, Clone, PartialEq)]
pub struct Item {
    pub id: String,
    pub kind: ItemKind,
    pub name: String,
    pub bonus_damage: i32,
}

impl Item {
    /// A copy with the same fields.
    pub fn copied(&self) -> (r: Item)
        ensures
            r == *self,
    {
        Item { id: self.id.clone(), kind: self.kind, name: self.name.clone(), bonus_damage: self.bonus_damage }
    }
}

fn copy_opt(o: &Option<Item>) -> (r: Option<Item>)
    ensures
        r == *o,
{
    match o {
        Some(it) => Some(it.copied()),
        None => None,
    }
}

/// The four equipment slots.
#[derive(Debug, Clone, PartialEq)]
pub struct Loadout {
    pub arma: Option<Item>,
    pub magia: Option<Item>,
    pub escudo: Option<Item>,
    pub pocao: Option<Item>,
}

impl Loadout {
    /// The slot that holds items of kind `k`.
    pub open spec fn slot_of(self, k: ItemKind) -> Option<Item> {
        match k {
            ItemKind::Espada => self.arma,
            ItemKind::Magia => self.magia,
            ItemKind::Escudo => self.escudo,
            ItemKind::Pocao => self.pocao,
        }
    }

    /// This loadout with the slot of kind `k` replaced by `v`.
    pub open spec fn with_slot(self, k: ItemKind, v: Option<Item>) -> Loadout {
        match k {
            ItemKind::Espada => Loadout { arma: v, ..self },
            ItemKind::Magia => Loadout { magia: v, ..self },
            ItemKind::Escudo => Loadout { escudo: v, ..self },
            ItemKind::Pocao => Loadout { pocao: v, ..self },
        }
    }

    pub fn empty() -> (r: Loadout)
        ensures
            r.arma is None,
            r.magia is None,
            r.escudo is None,
            r.pocao is None,
    {
        Loadout { arma: None, magia: None, escudo: None, pocao: None }
    }

    /// The item equipped in the slot of `kind`, if any.
    pub fn slot(&self, kind: ItemKind) -> (r: Option<&Item>)
        ensures
            match r {
                Some(it) => self.slot_of(kind) == Some(*it),
                None => self.slot_of(kind) is None,
            },
    {
        match kind {
            ItemKind::Espada => self.arma.as_ref(),
            ItemKind::Magia => self.magia.as_ref(),
            ItemKind::Escudo => self.escudo.as_ref(),
            ItemKind::Pocao => self.pocao.as_ref(),
        }
    }

    /// The slot of `kind`, to equip or unequip.
    pub fn slot_mut(&mut self, kind: ItemKind) -> (r: &mut Option<Item>)
        ensures
            *r == old(self).slot_of(kind),
            *final(self) == old(self).with_slot(kind, *final(r)),
    {
        match kind {
            ItemKind::Espada => &mut self.arma,
            ItemKind::Magia => &mut self.magia,
            ItemKind::Escudo => &mut self.escudo,
            ItemKind::Pocao => &mut self.pocao,
        }
    }

    /// A copy with the same slots.
    pub fn copied(&self) -> (r: Loadout)
        ensures
            r == *self,
    {
        Loadout {
            arma: copy_opt(&self.arma),
            magia: copy_opt(&self.magia),
            escudo: copy_opt(&self.escudo),
            pocao: copy_opt(&self.pocao),
        }
    }
}

/// Writing a slot and reading it back gives what was written, and the
/// other slots are untouched.
pub proof fn lemma_slot_write_read(lo: Loadout, k: ItemKind, j: ItemKind, v: Option<Item>)
    ensures
        lo.with_slot(k, v).slot_of(k) == v,
        j != k ==> lo.with_slot(k, v).slot_of(j) == lo.slot_of(j),
{
}

/// The first position in `rows` whose item has the id `id`, or -1.
pub open spec fn index_of_id(rows: Seq<(Item, u32)>, id: Seq<char>) -> int
    decreases rows.len(),
{
    if rows.len() == 0 {
        -1
    } else {
        let k = index_of_id(rows.drop_last(), id);
        if k >= 0 {
            k
        } else if rows.last().0.id@ == id {
            rows.len() - 1
        } else {
            -1
        }
    }
}

/// The bag after adding `qty` units of `item`: the quantity of the row
/// with the same id grows, or a new row is appended at the end.
pub open spec fn bag_added(rows: Seq<(Item, u32)>, item: Item, qty: u32) -> Seq<(Item, u32)> {
    let k = index_of_id(rows, item.id@);
    if k >= 0 {
        rows.update(k, (rows[k].0, (rows[k].1 + qty) as u32))
    } else {
        rows.push((item, qty))
    }
}

/// Whether adding `qty` units of `item` keeps the quantity within `u32`.
pub open spec fn can_add(rows: Seq<(Item, u32)>, item: Item, qty: u32) -> bool {
    let k = index_of_id(rows, item.id@);
    k >= 0 ==> rows[k].1 + qty <= u32::MAX
}

/// No two rows of the bag share an id.
pub open spec fn ids_unique(rows: Seq<(Item, u32)>) -> bool {
    forall|a: int, b: int| 0 <= a < b < rows.len() ==> rows[a].0.id@ != rows[b].0.id@
}

/// `index_of_id` finds the first row with the id, or gives -1 when no row has it.
pub proof fn lemma_index_of_id(rows: Seq<(Item, u32)>, id: Seq<char>)
    ensures
        -1 <= index_of_id(rows, id) < rows.len(),
        index_of_id(rows, id) >= 0 ==> rows[index_of_id(rows, id)].0.id@ == id,
        index_of_id(rows, id) >= 0 ==> forall|j: int|
            0 <= j < index_of_id(rows, id) ==> rows[j].0.id@ != id,
        index_of_id(rows, id) < 0 ==> forall|j: int| 0 <= j < rows.len() ==> rows[j].0.id@ != id,
    decreases rows.len(),
{
    if rows.len() > 0 {
        lemma_index_of_id(rows.drop_last(), id);
        assert forall|j: int| 0 <= j < rows.len() - 1 implies rows.drop_last()[j] == rows[j] by {}
    }
}

/// Adding to a bag whose ids are unique keeps them unique: an item already
/// there stacks on its row instead of opening a second one.
pub proof fn lemma_bag_add_keeps_ids_unique(rows: Seq<(Item, u32)>, item: Item, qty: u32)
    requires
        ids_unique(rows),
    ensures
        ids_unique(bag_added(rows, item, qty)),
        index_of_id(rows, item.id@) >= 0 ==> bag_added(rows, item, qty).len() == rows.len(),
        index_of_id(rows, item.id@) < 0 ==> bag_added(rows, item, qty).len() == rows.len() + 1,
{
    lemma_index_of_id(rows, item.id@);
}

/// The bag: items with their quantities, in display order.
#[derive(Debug, Clone, PartialEq)]
pub struct Bag(pub Vec<(Item, u32)>);

impl Bag {
    pub fn empty() -> (r: Bag)
        ensures
            r.0@.len() == 0,
    {
        Bag(Vec::new())
    }

    /// Adds `qty` units of `item`: stacks on the row with the same id, or
    /// appends a new row.
    pub fn add(&mut self, item: Item, qty: u32)
        requires
            can_add(old(self).0@, item, qty),
        ensures
            final(self).0@ == bag_added(old(self).0@, item, qty),
    {
        proof {
            lemma_index_of_id(self.0@, item.id@);
        }
        let n = self.0.len();
        let mut i: usize = 0;
        while i < n
            invariant
                n == self.0@.len(),
                i <= n,
                self.0@ == old(self).0@,
                forall|j: int| 0 <= j < i ==> self.0@[j].0.id@ != item.id@,
                can_add(self.0@, item, qty),
            decreases n - i,
        {
            if self.0[i].0.id == item.id {
                proof {
                    lemma_index_of_id(self.0@, item.id@);
                }
                assert(index_of_id(self.0@, item.id@) == i as int);
                let q = self.0[i].1;
                let it = self.0[i].0.copied();
                self.0.set(i, (it, q + qty));
                return;
            }
            i += 1;
        }
        self.0.push((item, qty));
    }

    /// Whether `qty` more units of `item` fit: the row with the same id, if
    /// any, does not go past `u32::MAX`.
    pub fn has_room_for(&self, item: &Item, qty: u32) -> (r: bool)
        ensures
            r == can_add(self.0@, *item, qty),
    {
        proof {
            lemma_index_of_id(self.0@, item.id@);
        }
        let n = self.0.len();
        let mut i: usize = 0;
        while i < n
            invariant
                n == self.0@.len(),
                i <= n,
                forall|j: int| 0 <= j < i ==> self.0@[j].0.id@ != item.id@,
            decreases n - i,
        {
            if self.0[i].0.id == item.id {
                proof {
                    lemma_index_of_id(self.0@, item.id@);
                }
                assert(index_of_id(self.0@, item.id@) == i as int);
                return self.0[i].1 <= u32::MAX - qty;
            }
            i += 1;
        }
        proof {
            lemma_index_of_id(self.0@, item.id@);
        }
        true
    }

    /// A copy with the same rows.
    pub fn copied(&self) -> (r: Bag)
        ensures
            r.0@ == self.0@,
    {
        let mut v: Vec<(Item, u32)> = Vec::new();
        let n = self.0.len();
        let mut i: usize = 0;
        while i < n
            invariant
                n == self.0@.len(),
                i <= n,
                v@ == self.0@.take(i as int),
            decreases n - i,
        {
            v.push((self.0[i].0.copied(), self.0[i].1));
            i += 1;
            assert(v@ =~= self.0@.take(i as int));
        }
        assert(self.0@.take(n as int) =~= self.0@);
        assert(v@ =~= self.0@);
        Bag(v)
    }
}

/// The player's class. It does not restrict equipment; it only decides
/// which kind of item gets the class bonus in `atacar()`.
#[derive(Debug, Clone, Copy, PartialEq, Eq, Structural)]
pub enum PlayerClass {
    Guerreiro,
    Mago,
    Ladrao,
}

pub open spec fn class_affinity(c: PlayerClass) -> ItemKind {
    match c {
        PlayerClass::Guerreiro => ItemKind::Espada,
        PlayerClass::Mago => ItemKind::Magia,
        PlayerClass::Ladrao => ItemKind::Pocao,
    }
}

pub open spec fn class_label(c: PlayerClass) -> Seq<char> {
    match c {
        PlayerClass::Guerreiro => "GUERREIRO"@,
        PlayerClass::Mago => "MAGO"@,
        PlayerClass::Ladrao => "LADRAO"@,
    }
}

impl PlayerClass {
    /// The kind of item that gets the class bonus.
    pub fn affinity(self) -> (r: ItemKind)
        ensures
            r == class_affinity(self),
    {
        match self {
            PlayerClass::Guerreiro => ItemKind::Espada,
            PlayerClass::Mago => ItemKind::Magia,
            PlayerClass::Ladrao => ItemKind::Pocao,
        }
    }

    /// The three classes, in the order of the class picker.
    pub fn all() -> (r: [PlayerClass; 3])
        ensures
            r@ == seq![PlayerClass::Guerreiro, PlayerClass::Mago, PlayerClass::Ladrao],
    {
        [PlayerClass::Guerreiro, PlayerClass::Mago, PlayerClass::Ladrao]
    }

    /// Display name.
    pub fn label(self) -> (r: &'static str)
        ensures
            r@ == class_label(self),
    {
        match self {
            PlayerClass::Guerreiro => "GUERREIRO",
            PlayerClass::Mago => "MAGO",
            PlayerClass::Ladrao => "LADRAO",
        }
    }
}

/// Each class favours a different kind of item, and none favours shields.
pub proof fn lemma_affinities_distinct(a: PlayerClass, b: PlayerClass)
    ensures
        a != b ==> class_affinity(a) != class_affinity(b),
        class_affinity(a) != ItemKind::Escudo,
{
}

/// A script saved by the player on the duel screen.
#[derive(Debug, Clone, PartialEq)]
pub struct SavedScript {
    pub name: String,
    pub body: String,
}

/// Everything the game keeps between runs.
#[derive(Debug, Clone, PartialEq)]
pub struct SaveData {
    pub loadout: Loadout,
    pub bag: Bag,
    pub scripts: Vec<SavedScript>,
    /// the class chosen in the grimoire
    pub player_class: Option<PlayerClass>,
    /// index of the next phase to face; `PHASE_COUNT` or more means all won
    pub current_phase: usize,
    /// the player's life carried between phases; `None` is full life
    pub player_life: Option<i32>,
}

impl SaveData {
    /// The state of a new expedition.
    pub fn fresh() -> (r: SaveData)
        ensures
            r.loadout == Loadout::empty_spec(),
            r.bag.0@.len() == 0,
            r.scripts@.len() == 0,
            r.player_class is None,
            r.current_phase == 0,
            r.player_life is None,
    {
        SaveData {
            loadout: Loadout::empty(),
            bag: Bag::empty(),
            scripts: Vec::new(),
            player_class: None,
            current_phase: 0,
            player_life: None,
        }
    }
}

impl Loadout {
    pub open spec fn empty_spec() -> Loadout {
        Loadout { arma: None, magia: None, escudo: None, pocao: None }
    }
}

impl Default for Loadout {
    /// Nothing equipped.
    fn default() -> (r: Loadout)
        ensures
            r == Loadout::empty_spec(),
    {
        Loadout::empty()
    }
}

impl Default for Bag {
    /// An empty bag.
    fn default() -> (r: Bag)
        ensures
            r.0@.len() == 0,
    {
        Bag::empty()
    }
}

impl Default for SaveData {
    /// The state of a new expedition.
    fn default() -> (r: SaveData)
        ensures
            r.loadout == Loadout::empty_spec(),
            r.bag.0@.len() == 0,
            r.scripts@.len() == 0,
            r.player_class is None,
            r.current_phase == 0,
            r.player_life is None,
    {
        SaveData::fresh()
    }
}

/// The player recovers nine tenths of the life lost when a phase is won.
pub const PLAYER_LIFE_RECOVERY_NUM: i32 = 9;
pub const PLAYER_LIFE_RECOVERY_DEN: i32 = 10;

/// The life after the partial recovery: the missing life (never negative)
/// times 9/10, rounded down, added to `current`, capped at `max`.
pub open spec fn recovered_life(current: int, max: int) -> int {
    let missing = if max - current > 0 { max - current } else { 0 };
    let r = current + missing * 9 / 10;
    if r < max { r } else { max }
}

pub fn recovered_player_life(current: i32, max: i32) -> (r: i32)
    requires
        i32::MIN <= max - current,
        (max - current) * 9 <= i32::MAX,
    ensures
        r == recovered_life(current as int, max as int),
        r <= max,
        current <= max ==> current <= r,
        current < max ==> r < max,
        current <= max - 2 ==> current < r,
{
    let d = max - current;
    let missing = if d > 0 { d } else { 0 };
    let recovered = missing * PLAYER_LIFE_RECOVERY_NUM / PLAYER_LIFE_RECOVERY_DEN;
    let sum = current + recovered;
    if sum < max { sum } else { max }
}

/// The text shown when the drop is received.
pub open spec fn drop_message(drop: Item) -> Seq<char> {
    "Despojo recebido: "@ + drop.name@ + " ("@ + kind_label(drop.kind) + " +"@
        + int_text(drop.bonus_damage as int) + ")"@
}

/// Puts the beaten monster's item into the save's bag and returns the text
/// that announces it.
pub fn apply_phase_victory_drop(save: &mut SaveData, drop: &Item) -> (r: String)
    requires
        can_add(old(save).bag.0@, *drop, 1),
    ensures
        final(save).bag.0@ == bag_added(old(save).bag.0@, *drop, 1),
        final(save).loadout == old(save).loadout,
        final(save).scripts == old(save).scripts,
        final(save).player_class == old(save).player_class,
        final(save).current_phase == old(save).current_phase,
        final(save).player_life == old(save).player_life,
        r@ == drop_message(*drop),
{
    save.bag.add(drop.copied(), 1);
    let mut s = String::new();
    push_str(&mut s, "Despojo recebido: ");
    push_str(&mut s, drop.name.as_str());
    push_str(&mut s, " (");
    push_str(&mut s, drop.kind.label());
    push_str(&mut s, " +");
    let digits = i32_text(drop.bonus_damage);
    push_chars(&mut s, digits.as_slice());
    push_str(&mut s, ")");
    s
}

/// The bag with one unit of row `i` taken out: the row goes when it held
/// one.
pub open spec fn bag_taken(rows: Seq<(Item, u32)>, i: int) -> Seq<(Item, u32)> {
    if rows[i].1 > 1 {
        rows.update(i, (rows[i].0, (rows[i].1 - 1) as u32))
    } else {
        rows.remove(i)
    }
}

/// The bag after equipping the item of row `i`: one unit of the row is
/// taken out first, then what was in the slot comes back into the bag.
pub open spec fn bag_after_equip(rows: Seq<(Item, u32)>, lo: Loadout, i: int) -> Seq<(Item, u32)> {
    match lo.slot_of(rows[i].0.kind) {
        Some(prev) => bag_added(bag_taken(rows, i), prev, 1),
        None => bag_taken(rows, i),
    }
}

/// Whether equipping row `i` stays within `u32` when the slot's item comes
/// back into the bag.
pub open spec fn can_equip(rows: Seq<(Item, u32)>, lo: Loadout, i: int) -> bool {
    &&& 0 <= i < rows.len()
    &&& match lo.slot_of(rows[i].0.kind) {
        Some(prev) => can_add(bag_taken(rows, i), prev, 1),
        None => true,
    }
}

impl SaveData {
    /// Puts one unit of an item back into the bag: on the row with the same
    /// id, or on a new row at the end.
    pub fn return_to_bag(&mut self, item: Item)
        requires
            can_add(old(self).bag.0@, item, 1),
        ensures
            final(self).bag.0@ == bag_added(old(self).bag.0@, item, 1),
            final(self).loadout == old(self).loadout,
            final(self).scripts == old(self).scripts,
            final(self).player_class == old(self).player_class,
            final(self).current_phase == old(self).current_phase,
            final(self).player_life == old(self).player_life,
    {
        self.bag.add(item, 1);
    }

    /// Equips the item of bag row `bag_index` in the slot of its kind; the
    /// item that was there goes back to the bag.
    pub fn equip_from_bag(&mut self, bag_index: usize)
        requires
            can_equip(old(self).bag.0@, old(self).loadout, bag_index as int),
        ensures
            final(self).loadout == old(self).loadout.with_slot(
                old(self).bag.0@[bag_index as int].0.kind,
                Some(old(self).bag.0@[bag_index as int].0),
            ),
            final(self).bag.0@ == bag_after_equip(old(self).bag.0@, old(self).loadout, bag_index as int),
            old(self).bag.0@[bag_index as int].1 >= 1 ==> forall|id: Seq<char>|
                #[trigger] owned(final(self).bag.0@, final(self).loadout, id) == owned(
                    old(self).bag.0@,
                    old(self).loadout,
                    id,
                ),
            old(self).bag.0@[bag_index as int].1 >= 1 ==> bag_total(final(self).bag.0@) + loadout_total(
                final(self).loadout,
            ) == bag_total(old(self).bag.0@) + loadout_total(old(self).loadout),
            final(self).scripts == old(self).scripts,
            final(self).player_class == old(self).player_class,
            final(self).current_phase == old(self).current_phase,
            final(self).player_life == old(self).player_life,
    {
        let ghost rows = self.bag.0@;
        let ghost lo = self.loadout;
        let item = self.bag.0[bag_index].0.copied();
        let qty = self.bag.0[bag_index].1;
        if qty > 1 {
            self.bag.0.set(bag_index, (self.bag.0[bag_index].0.copied(), qty - 1));
        } else {
            self.bag.0.remove(bag_index);
        }
        assert(self.bag.0@ == bag_taken(rows, bag_index as int));
        let kind = item.kind;
        let slot = self.loadout.slot_mut(kind);
        let previous = slot.take();
        *slot = Some(item);
        match previous {
            Some(p) => {
                self.return_to_bag(p);
            },
            None => {},
        }
        proof {
            if rows[bag_index as int].1 >= 1 {
                assert forall|id: Seq<char>|
                    owned(self.bag.0@, self.loadout, id) == owned(rows, lo, id) by {
                    lemma_equip_keeps_every_item(rows, lo, bag_index as int, id);
                }
                lemma_equip_keeps_total(rows, lo, bag_index as int);
            }
        }
    }

    /// Takes the item of the slot of `kind` off, back into the bag.
    pub fn unequip(&mut self, kind: ItemKind)
        requires
            match old(self).loadout.slot_of(kind) {
                Some(it) => can_add(old(self).bag.0@, it, 1),
                None => true,
            },
        ensures
            final(self).loadout == old(self).loadout.with_slot(kind, None),
            final(self).bag.0@ == match old(self).loadout.slot_of(kind) {
                Some(it) => bag_added(old(self).bag.0@, it, 1),
                None => old(self).bag.0@,
            },
            final(self).scripts == old(self).scripts,
            final(self).player_class == old(self).player_class,
            final(self).current_phase == old(self).current_phase,
            final(self).player_life == old(self).player_life,
    {
        let slot = self.loadout.slot_mut(kind);
        let taken = slot.take();
        match taken {
            Some(it) => {
                self.return_to_bag(it);
            },
            None => {},
        }
    }
}

/// How many units of the item with id `id` the bag holds.
pub open spec fn bag_count(rows: Seq<(Item, u32)>, id: Seq<char>) -> nat
    decreases rows.len(),
{
    if rows.len() == 0 {
        0
    } else {
        bag_count(rows.drop_last(), id) + if rows.last().0.id@ == id {
            rows.last().1 as nat
        } else {
            0
        }
    }
}

pub open spec fn slot_count(o: Option<Item>, id: Seq<char>) -> nat {
    match o {
        Some(it) => if it.id@ == id {
            1
        } else {
            0
        },
        None => 0,
    }
}

/// How many of the equipment slots hold the item with id `id`.
pub open spec fn loadout_count(lo: Loadout, id: Seq<char>) -> nat {
    slot_count(lo.arma, id) + slot_count(lo.magia, id) + slot_count(lo.escudo, id) + slot_count(lo.pocao, id)
}

/// Units of the item with id `id` that the player owns, in the bag or
/// equipped.
pub open spec fn owned(rows: Seq<(Item, u32)>, lo: Loadout, id: Seq<char>) -> nat {
    bag_count(rows, id) + loadout_count(lo, id)
}

pub open spec fn row_count(r: (Item, u32), id: Seq<char>) -> nat {
    if r.0.id@ == id {
        r.1 as nat
    } else {
        0
    }
}

proof fn lemma_bag_count_update(rows: Seq<(Item, u32)>, k: int, r: (Item, u32), id: Seq<char>)
    requires
        0 <= k < rows.len(),
    ensures
        bag_count(rows.update(k, r), id) + row_count(rows[k], id) == bag_count(rows, id) + row_count(r, id),
    decreases rows.len(),
{
    let u = rows.update(k, r);
    if k == rows.len() - 1 {
        assert(u.drop_last() =~= rows.drop_last());
    } else {
        lemma_bag_count_update(rows.drop_last(), k, r, id);
        assert(u.drop_last() =~= rows.drop_last().update(k, r));
    }
}

proof fn lemma_bag_count_push(rows: Seq<(Item, u32)>, r: (Item, u32), id: Seq<char>)
    ensures
        bag_count(rows.push(r), id) == bag_count(rows, id) + row_count(r, id),
{
    assert(rows.push(r).drop_last() =~= rows);
}

proof fn lemma_bag_count_remove(rows: Seq<(Item, u32)>, k: int, id: Seq<char>)
    requires
        0 <= k < rows.len(),
    ensures
        bag_count(rows.remove(k), id) + row_count(rows[k], id) == bag_count(rows, id),
    decreases rows.len(),
{
    if k == rows.len() - 1 {
        assert(rows.remove(k) =~= rows.drop_last());
    } else {
        lemma_bag_count_remove(rows.drop_last(), k, id);
        assert(rows.remove(k).drop_last() =~= rows.drop_last().remove(k));
        assert(rows.remove(k).last() == rows.last());
    }
}

proof fn lemma_bag_count_added(rows: Seq<(Item, u32)>, item: Item, qty: u32, id: Seq<char>)
    requires
        can_add(rows, item, qty),
    ensures
        bag_count(bag_added(rows, item, qty), id) == bag_count(rows, id) + if item.id@ == id {
            qty as nat
        } else {
            0
        },
{
    lemma_index_of_id(rows, item.id@);
    let k = index_of_id(rows, item.id@);
    if k >= 0 {
        lemma_bag_count_update(rows, k, (rows[k].0, (rows[k].1 + qty) as u32), id);
    } else {
        lemma_bag_count_push(rows, (item, qty), id);
    }
}

proof fn lemma_loadout_count_with(lo: Loadout, k: ItemKind, v: Option<Item>, id: Seq<char>)
    ensures
        loadout_count(lo.with_slot(k, v), id) + slot_count(lo.slot_of(k), id) == loadout_count(lo, id) + slot_count(
            v,
            id,
        ),
{
}

/// Equipping an item from the bag neither creates nor loses any item: for
/// every id, what is in the bag plus what is equipped stays the same.
pub proof fn lemma_equip_keeps_every_item(rows: Seq<(Item, u32)>, lo: Loadout, i: int, id: Seq<char>)
    requires
        can_equip(rows, lo, i),
        rows[i].1 >= 1,
    ensures
        owned(bag_after_equip(rows, lo, i), lo.with_slot(rows[i].0.kind, Some(rows[i].0)), id) == owned(rows, lo, id),
{
    let (item, qty) = rows[i];
    if qty > 1 {
        lemma_bag_count_update(rows, i, (item, (qty - 1) as u32), id);
    } else {
        lemma_bag_count_remove(rows, i, id);
    }
    match lo.slot_of(item.kind) {
        Some(prev) => {
            lemma_bag_count_added(bag_taken(rows, i), prev, 1, id);
        },
        None => {},
    }
    lemma_loadout_count_with(lo, item.kind, Some(item), id);
}

/// How many units the bag holds in all, whatever the items.
pub open spec fn bag_total(rows: Seq<(Item, u32)>) -> nat
    decreases rows.len(),
{
    if rows.len() == 0 {
        0
    } else {
        bag_total(rows.drop_last()) + rows.last().1 as nat
    }
}

pub open spec fn slot_used(o: Option<Item>) -> nat {
    if o is Some {
        1
    } else {
        0
    }
}

/// How many equipment slots hold an item.
pub open spec fn loadout_total(lo: Loadout) -> nat {
    slot_used(lo.arma) + slot_used(lo.magia) + slot_used(lo.escudo) + slot_used(lo.pocao)
}

proof fn lemma_bag_total_update(rows: Seq<(Item, u32)>, k: int, r: (Item, u32))
    requires
        0 <= k < rows.len(),
    ensures
        bag_total(rows.update(k, r)) + rows[k].1 == bag_total(rows) + r.1,
    decreases rows.len(),
{
    let u = rows.update(k, r);
    if k == rows.len() - 1 {
        assert(u.drop_last() =~= rows.drop_last());
    } else {
        lemma_bag_total_update(rows.drop_last(), k, r);
        assert(u.drop_last() =~= rows.drop_last().update(k, r));
    }
}

proof fn lemma_bag_total_remove(rows: Seq<(Item, u32)>, k: int)
    requires
        0 <= k < rows.len(),
    ensures
        bag_total(rows.remove(k)) + rows[k].1 == bag_total(rows),
    decreases rows.len(),
{
    if k == rows.len() - 1 {
        assert(rows.remove(k) =~= rows.drop_last());
    } else {
        lemma_bag_total_remove(rows.drop_last(), k);
        assert(rows.remove(k).drop_last() =~= rows.drop_last().remove(k));
        assert(rows.remove(k).last() == rows.last());
    }
}

proof fn lemma_bag_total_added(rows: Seq<(Item, u32)>, item: Item, qty: u32)
    requires
        can_add(rows, item, qty),
    ensures
        bag_total(bag_added(rows, item, qty)) == bag_total(rows) + qty,
{
    lemma_index_of_id(rows, item.id@);
    let k = index_of_id(rows, item.id@);
    if k >= 0 {
        lemma_bag_total_update(rows, k, (rows[k].0, (rows[k].1 + qty) as u32));
    } else {
        assert(rows.push((item, qty)).drop_last() =~= rows);
    }
}

/// Equipping an item from the bag keeps the number of units the player
/// owns: the units in the bag plus the items equipped.
pub proof fn lemma_equip_keeps_total(rows: Seq<(Item, u32)>, lo: Loadout, i: int)
    requires
        can_equip(rows, lo, i),
        rows[i].1 >= 1,
    ensures
        bag_total(bag_after_equip(rows, lo, i)) + loadout_total(lo.with_slot(rows[i].0.kind, Some(rows[i].0)))
            == bag_total(rows) + loadout_total(lo),
{
    let (item, qty) = rows[i];
    if qty > 1 {
        lemma_bag_total_update(rows, i, (item, (qty - 1) as u32));
    } else {
        lemma_bag_total_remove(rows, i);
    }
    match lo.slot_of(item.kind) {
        Some(prev) => {
            lemma_bag_total_added(bag_taken(rows, i), prev, 1);
        },
        None => {},
    }
}

/// Taking an item off puts it back in the bag: nothing is created or lost.
pub proof fn lemma_unequip_keeps_every_item(rows: Seq<(Item, u32)>, lo: Loadout, k: ItemKind, id: Seq<char>)
    requires
        match lo.slot_of(k) {
            Some(it) => can_add(rows, it, 1),
            None => true,
        },
    ensures
        owned(
            match lo.slot_of(k) {
                Some(it) => bag_added(rows, it, 1),
                None => rows,
            },
            lo.with_slot(k, None),
            id,
        ) == owned(rows, lo, id),
{
    match lo.slot_of(k) {
        Some(it) => {
            lemma_bag_count_added(rows, it, 1, id);
        },
        None => {},
    }
    lemma_loadout_count_with(lo, k, None, id);
}

} // verus!
