//! The plain values of the duel language that carry no number: item kinds,
//! items named in a script, and the two entities a script can read.

use vstd::prelude::*;
use crate::text::str_eq;

verus! {

#[derive(Debug, Clone, Copy, PartialEq, Eq, Structural)]
pub enum ItemKind {
    Espada,
    Magia,
    Escudo,
    Pocao,
}

/// The word by which the language (and the save file) names each kind.
pub open spec fn kind_label(k: ItemKind) -> Seq<char> {
    match k {
        ItemKind::Espada => "espada"@,
        ItemKind::Magia => "magia"@,
        ItemKind::Escudo => "escudo"@,
        ItemKind::Pocao => "pocao"@,
    }
}

/// The kind whose word is `s`, if any.
pub open spec fn kind_from_word(s: Seq<char>) -> Option<ItemKind> {
    if s == "espada"@ {
        Some(ItemKind::Espada)
    } else if s == "magia"@ {
        Some(ItemKind::Magia)
    } else if s == "escudo"@ {
        Some(ItemKind::Escudo)
    } else if s == "pocao"@ {
        Some(ItemKind::Pocao)
    } else {
        None
    }
}

impl ItemKind {
    pub fn label(self) -> (r: &'static str)
        ensures
            r@ == kind_label(self),
    {
        match self {
            ItemKind::Espada => "espada",
            ItemKind::Magia => "magia",
            ItemKind::Escudo => "escudo",
            ItemKind::Pocao => "pocao",
        }
    }

    pub fn from_ident(name: &str) -> (r: Option<ItemKind>)
        ensures
            r == kind_from_word(name@),
    {
        if str_eq(name, "espada") {
            Some(ItemKind::Espada)
        } else if str_eq(name, "magia") {
            Some(ItemKind::Magia)
        } else if str_eq(name, "escudo") {
            Some(ItemKind::Escudo)
        } else if str_eq(name, "pocao") {
            Some(ItemKind::Pocao)
        } else {
            None
        }
    }
}

/// Reading a kind's word back gives the kind again.
pub proof fn lemma_kind_label_round_trip(k: ItemKind)
    ensures
        kind_from_word(kind_label(k)) == Some(k),
{
    reveal_strlit("espada");
    reveal_strlit("magia");
    reveal_strlit("escudo");
    reveal_strlit("pocao");
    assert("magia"@.len() != "espada"@.len());
    assert("escudo"@[2] != "espada"@[2]);
    assert("escudo"@.len() != "magia"@.len());
    assert("pocao"@.len() != "espada"@.len());
    assert("pocao"@[0] != "magia"@[0]);
    assert("pocao"@.len() != "escudo"@.len());
}

/// An item as a script names it (`espada["ferro"]`, `magia.Fogo`), with the
/// bonus that the bag gives it when it comes out of `selecionar`.
#[derive(Debug, Clone, PartialEq)]
pub struct Item {
    pub kind: ItemKind,
    pub name: String,
    pub bonus_damage: i32,
}

impl Item {
    /// A copy with the same fields.
    pub fn copied(&self) -> (r: Item)
        ensures
            r == *self,
    {
        Item { kind: self.kind, name: self.name.clone(), bonus_damage: self.bonus_damage }
    }
}

#[derive(Debug, Clone, Copy, PartialEq, Eq, Structural)]
pub enum Target {
    Me,
    Enemy,
}

} // verus!
