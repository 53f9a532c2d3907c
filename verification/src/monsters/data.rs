//! The bestiary: the seven monsters of the campaign, each with a different
//! algorithmic weakness, and the item each one leaves when beaten.

use vstd::prelude::*;
use super::{Element, MonsterSpec, Weakness};
use crate::inventory::Item;
use crate::script::value::ItemKind;

verus! {

/// The title of the monster of each phase.
pub open spec fn phase_title(index: int) -> Seq<char> {
    if index == 0 { "Mumia"@ }
    else if index == 1 { "Zumbi"@ }
    else if index == 2 { "Escaravelho"@ }
    else if index == 3 { "Esfinge"@ }
    else if index == 4 { "Aker"@ }
    else if index == 5 { "Apagado"@ }
    else { "Chabti-Mor"@ }
}

/// The id of the item that the monster of each phase leaves.
pub open spec fn phase_drop_id(index: int) -> Seq<char> {
    if index == 0 { "tocha_do_embalsamador"@ }
    else if index == 1 { "khopesh_podre"@ }
    else if index == 2 { "carapaca_de_escaravelho"@ }
    else if index == 3 { "olho_da_esfinge"@ }
    else if index == 4 { "chave_dos_dois_sois"@ }
    else if index == 5 { "selo_do_nome"@ }
    else { "chabti_de_faianca"@ }
}

/// The monster of each phase, as the bestiary describes it.
pub open spec fn phase_monster(index: int, s: MonsterSpec) -> bool {
    if index == 0 { is_mummy(s) }
    else if index == 1 { is_zombie(s) }
    else if index == 2 { is_beetle(s) }
    else if index == 3 { is_sphinx(s) }
    else if index == 4 { is_guardiao(s) }
    else if index == 5 { is_sentinela(s) }
    else { is_necroguardiao(s) }
}

/// What `mummy` returns.
pub open spec fn is_mummy(r: MonsterSpec) -> bool {
    &&& r.title@ == "Mumia"@
    &&& r.title@ == phase_title(0)
    &&& r.room@ == "Corredor das Mariposas"@
    &&& r.description[0]@ == "Provavelmente algum farao carcumido por vermes..."@
    &&& r.description[1]@ == "apesar das mariposas acharem suas ataduras apetitosas, seu maior medo e o fogo."@
    &&& r.max_life == 100
    &&& r.cycle_budget == 20
    &&& r.weakness == Weakness::Elemento(Element::Fogo)
    &&& r.base_damage == 8
    &&& r.attack_name@ == "Atadura Viva"@
    &&& r.special_attack_name@ == "Maldicao do Escaravelho"@
    &&& r.drop.id@ == "tocha_do_embalsamador"@
    &&& r.drop.id@ == phase_drop_id(0)
    &&& r.drop.kind == ItemKind::Magia
    &&& r.drop.name@ == "fogo"@
    &&& r.drop.bonus_damage == 3
}

/// The first monster: only fire hurts it for real.
pub fn mummy() -> (r: MonsterSpec)
    ensures
        is_mummy(r),
{
    MonsterSpec {
        title: "Mumia",
        room: "Corredor das Mariposas",
        description: [
            "Provavelmente algum farao carcumido por vermes...",
            "apesar das mariposas acharem suas ataduras apetitosas, seu maior medo e o fogo.",
        ],
        max_life: 100,
        cycle_budget: 20,
        weakness: Weakness::Elemento(Element::Fogo),
        base_damage: 8,
        attack_name: "Atadura Viva",
        special_attack_name: "Maldicao do Escaravelho",
        drop: Item {
            id: String::from_str("tocha_do_embalsamador"),
            kind: ItemKind::Magia,
            name: String::from_str("fogo"),
            bonus_damage: 3,
        },
    }
}

/// What `zombie` returns.
pub open spec fn is_zombie(r: MonsterSpec) -> bool {
    &&& r.title@ == "Zumbi"@
    &&& r.title@ == phase_title(1)
    &&& r.room@ == "Fossa dos Sussurros"@
    &&& r.description[0]@ == "Ceeeeeeeerebros... Ceeeeeeeeeeerebros..."@
    &&& r.description[1]@ == "Um defunto sedento por cerebros, lento e burro: so aguenta scripts curtos."@
    &&& r.max_life == 80
    &&& r.cycle_budget == 14
    &&& r.weakness == (Weakness::Eficiencia { max_ciclos: 8 })
    &&& r.base_damage == 6
    &&& r.attack_name@ == "Mordida Podre"@
    &&& r.special_attack_name@ == "Enxame Cadaverico"@
    &&& r.drop.id@ == "khopesh_podre"@
    &&& r.drop.id@ == phase_drop_id(1)
    &&& r.drop.kind == ItemKind::Espada
    &&& r.drop.name@ == "ferro"@
    &&& r.drop.bonus_damage == 3
}

/// Rewards short scripts: full damage only within 8 executed cycles.
pub fn zombie() -> (r: MonsterSpec)
    ensures
        is_zombie(r),
{
    MonsterSpec {
        title: "Zumbi",
        room: "Fossa dos Sussurros",
        description: [
            "Ceeeeeeeerebros... Ceeeeeeeeeeerebros...",
            "Um defunto sedento por cerebros, lento e burro: so aguenta scripts curtos.",
        ],
        max_life: 80,
        cycle_budget: 14,
        weakness: Weakness::Eficiencia { max_ciclos: 8 },
        base_damage: 6,
        attack_name: "Mordida Podre",
        special_attack_name: "Enxame Cadaverico",
        drop: Item {
            id: String::from_str("khopesh_podre"),
            kind: ItemKind::Espada,
            name: String::from_str("ferro"),
            bonus_damage: 3,
        },
    }
}

/// What `beetle` returns.
pub open spec fn is_beetle(r: MonsterSpec) -> bool {
    &&& r.title@ == "Escaravelho"@
    &&& r.title@ == phase_title(2)
    &&& r.room@ == "Camara dos Escaravelhos"@
    &&& r.description[0]@ == "Uma carapaca dura que alterna entre postura de guarda e aberta."@
    &&& r.description[1]@ == "So toma dano de verdade se voce ler a postura e reagir a ela."@
    &&& r.max_life == 90
    &&& r.cycle_budget == 23
    &&& r.weakness == Weakness::ExigeGuarda
    &&& r.base_damage == 7
    &&& r.attack_name@ == "Investida da Carapaca"@
    &&& r.special_attack_name@ == "Turbilhao de Areia"@
    &&& r.drop.id@ == "carapaca_de_escaravelho"@
    &&& r.drop.id@ == phase_drop_id(2)
    &&& r.drop.kind == ItemKind::Escudo
    &&& r.drop.name@ == "bronze"@
    &&& r.drop.bonus_damage == 2
}

/// Alternates its posture; full damage only on the guard turns.
pub fn beetle() -> (r: MonsterSpec)
    ensures
        is_beetle(r),
{
    MonsterSpec {
        title: "Escaravelho",
        room: "Camara dos Escaravelhos",
        description: [
            "Uma carapaca dura que alterna entre postura de guarda e aberta.",
            "So toma dano de verdade se voce ler a postura e reagir a ela.",
        ],
        max_life: 90,
        cycle_budget: 23,
        weakness: Weakness::ExigeGuarda,
        base_damage: 7,
        attack_name: "Investida da Carapaca",
        special_attack_name: "Turbilhao de Areia",
        drop: Item {
            id: String::from_str("carapaca_de_escaravelho"),
            kind: ItemKind::Escudo,
            name: String::from_str("bronze"),
            bonus_damage: 2,
        },
    }
}

/// What `sphinx` returns.
pub open spec fn is_sphinx(r: MonsterSpec) -> bool {
    &&& r.title@ == "Esfinge"@
    &&& r.title@ == phase_title(3)
    &&& r.room@ == "Antecamara Selada"@
    &&& r.description[0]@ == "Guarda um segredo: nao revela a fraqueza para quem nao pergunta."@
    &&& r.description[1]@ == "Inspecione antes de atacar, ou nenhum golpe vai valer nada."@
    &&& r.max_life == 140
    &&& r.cycle_budget == 24
    &&& r.weakness == Weakness::RequerInspecao
    &&& r.base_damage == 10
    &&& r.attack_name@ == "Enigma Cortante"@
    &&& r.special_attack_name@ == "Julgamento da Esfinge"@
    &&& r.drop.id@ == "olho_da_esfinge"@
    &&& r.drop.id@ == phase_drop_id(3)
    &&& r.drop.kind == ItemKind::Magia
    &&& r.drop.name@ == "agua"@
    &&& r.drop.bonus_damage == 4
}

/// Takes no damage until inspected in the same turn.
pub fn sphinx() -> (r: MonsterSpec)
    ensures
        is_sphinx(r),
{
    MonsterSpec {
        title: "Esfinge",
        room: "Antecamara Selada",
        description: [
            "Guarda um segredo: nao revela a fraqueza para quem nao pergunta.",
            "Inspecione antes de atacar, ou nenhum golpe vai valer nada.",
        ],
        max_life: 140,
        cycle_budget: 24,
        weakness: Weakness::RequerInspecao,
        base_damage: 10,
        attack_name: "Enigma Cortante",
        special_attack_name: "Julgamento da Esfinge",
        drop: Item {
            id: String::from_str("olho_da_esfinge"),
            kind: ItemKind::Magia,
            name: String::from_str("agua"),
            bonus_damage: 4,
        },
    }
}

/// What `guardiao` returns.
pub open spec fn is_guardiao(r: MonsterSpec) -> bool {
    &&& r.title@ == "Aker"@
    &&& r.title@ == phase_title(4)
    &&& r.room@ == "Camara do Duplo Limiar"@
    &&& r.description[0]@ == "Guarda duas portas gemeas do horizonte: ontem e amanha."@
    &&& r.description[1]@ == "So abre as duas ao mesmo tempo - nunca uma antes da outra."@
    &&& r.max_life == 150
    &&& r.cycle_budget == 26
    &&& r.weakness == Weakness::DuploSelo
    &&& r.base_damage == 9
    &&& r.attack_name@ == "Mordida do Horizonte"@
    &&& r.special_attack_name@ == "Selo dos Dois Sois"@
    &&& r.drop.id@ == "chave_dos_dois_sois"@
    &&& r.drop.id@ == phase_drop_id(4)
    &&& r.drop.kind == ItemKind::Espada
    &&& r.drop.name@ == "bronze"@
    &&& r.drop.bonus_damage == 4
}

/// The cumulative boss: needs the guard posture and an inspection together.
pub fn guardiao() -> (r: MonsterSpec)
    ensures
        is_guardiao(r),
{
    MonsterSpec {
        title: "Aker",
        room: "Camara do Duplo Limiar",
        description: [
            "Guarda duas portas gemeas do horizonte: ontem e amanha.",
            "So abre as duas ao mesmo tempo - nunca uma antes da outra.",
        ],
        max_life: 150,
        cycle_budget: 26,
        weakness: Weakness::DuploSelo,
        base_damage: 9,
        attack_name: "Mordida do Horizonte",
        special_attack_name: "Selo dos Dois Sois",
        drop: Item {
            id: String::from_str("chave_dos_dois_sois"),
            kind: ItemKind::Espada,
            name: String::from_str("bronze"),
            bonus_damage: 4,
        },
    }
}

/// What `sentinela` returns.
pub open spec fn is_sentinela(r: MonsterSpec) -> bool {
    &&& r.title@ == "Apagado"@
    &&& r.title@ == phase_title(5)
    &&& r.room@ == "Camara das Palavras Verdadeiras"@
    &&& r.description[0]@ == "Um escriba cujo proprio nome a piramide riscou da pedra."@
    &&& r.description[1]@ == "Para ele, o que nao tem nome nunca aconteceu de verdade."@
    &&& r.max_life == 150
    &&& r.cycle_budget == 19
    &&& r.weakness == Weakness::ExigeNomeacao
    &&& r.base_damage == 8
    &&& r.attack_name@ == "Traco Riscado"@
    &&& r.special_attack_name@ == "Veredito do Nome Verdadeiro"@
    &&& r.drop.id@ == "selo_do_nome"@
    &&& r.drop.id@ == phase_drop_id(5)
    &&& r.drop.kind == ItemKind::Pocao
    &&& r.drop.name@ == "vida"@
    &&& r.drop.bonus_damage == 5
}

/// Judges the script's shape: only blows from inside a named function count.
pub fn sentinela() -> (r: MonsterSpec)
    ensures
        is_sentinela(r),
{
    MonsterSpec {
        title: "Apagado",
        room: "Camara das Palavras Verdadeiras",
        description: [
            "Um escriba cujo proprio nome a piramide riscou da pedra.",
            "Para ele, o que nao tem nome nunca aconteceu de verdade.",
        ],
        max_life: 150,
        cycle_budget: 19,
        weakness: Weakness::ExigeNomeacao,
        base_damage: 8,
        attack_name: "Traco Riscado",
        special_attack_name: "Veredito do Nome Verdadeiro",
        drop: Item {
            id: String::from_str("selo_do_nome"),
            kind: ItemKind::Pocao,
            name: String::from_str("vida"),
            bonus_damage: 5,
        },
    }
}

/// What `necroguardiao` returns.
pub open spec fn is_necroguardiao(r: MonsterSpec) -> bool {
    &&& r.title@ == "Chabti-Mor"@
    &&& r.title@ == phase_title(6)
    &&& r.room@ == "Cripta dos Chabtis Sem Nome"@
    &&& r.description[0]@ == "Em vida, nunca ergueu a propria mao -- so dava ordens aos chabtis."@
    &&& r.description[1]@ == "So golpeia de verdade depois de chamar reforcos duas vezes."@
    &&& r.max_life == 150
    &&& r.cycle_budget == 21
    &&& r.weakness == Weakness::ExigeInvocacaoDupla
    &&& r.base_damage == 9
    &&& r.attack_name@ == "Punho Sem Pratica"@
    &&& r.special_attack_name@ == "Chamado dos Tres Chabtis"@
    &&& r.drop.id@ == "chabti_de_faianca"@
    &&& r.drop.id@ == phase_drop_id(6)
    &&& r.drop.kind == ItemKind::Escudo
    &&& r.drop.name@ == "ferro"@
    &&& r.drop.bonus_damage == 5
}

/// Only takes full damage after two `invocar` blocks ran in the turn.
pub fn necroguardiao() -> (r: MonsterSpec)
    ensures
        is_necroguardiao(r),
{
    MonsterSpec {
        title: "Chabti-Mor",
        room: "Cripta dos Chabtis Sem Nome",
        description: [
            "Em vida, nunca ergueu a propria mao -- so dava ordens aos chabtis.",
            "So golpeia de verdade depois de chamar reforcos duas vezes.",
        ],
        max_life: 150,
        cycle_budget: 21,
        weakness: Weakness::ExigeInvocacaoDupla,
        base_damage: 9,
        attack_name: "Punho Sem Pratica",
        special_attack_name: "Chamado dos Tres Chabtis",
        drop: Item {
            id: String::from_str("chabti_de_faianca"),
            kind: ItemKind::Escudo,
            name: String::from_str("ferro"),
            bonus_damage: 5,
        },
    }
}

/// Every monster of the campaign leaves an item of its own: no two phases
/// share a drop id, so two different victories never stack on one bag row.
pub proof fn lemma_drop_ids_distinct(i: int, j: int)
    requires
        0 <= i < 7,
        0 <= j < 7,
        i != j,
    ensures
        phase_drop_id(i) != phase_drop_id(j),
{
    reveal_strlit("tocha_do_embalsamador");
    reveal_strlit("khopesh_podre");
    reveal_strlit("carapaca_de_escaravelho");
    reveal_strlit("olho_da_esfinge");
    reveal_strlit("chave_dos_dois_sois");
    reveal_strlit("selo_do_nome");
    reveal_strlit("chabti_de_faianca");
    assert(phase_drop_id(i).len() != phase_drop_id(j).len());
}

} // verus!
