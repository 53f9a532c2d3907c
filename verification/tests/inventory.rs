use piiramid::inventory::{
    apply_phase_victory_drop, recovered_player_life, Bag, Item, Loadout, PlayerClass, SaveData, PLAYER_LIFE_RECOVERY_DEN,
    PLAYER_LIFE_RECOVERY_NUM,
};
use piiramid::monsters::{data, phase, PHASE_COUNT};
use piiramid::script::value::ItemKind;

#[test]
fn loadout_slot_matches_item_kind_exhaustively() {
    let mut lo = Loadout::default();
    *lo.slot_mut(ItemKind::Escudo) = Some(Item { id: "x".into(), kind: ItemKind::Escudo, name: "bronze".into(), bonus_damage: 3 });
    assert_eq!(lo.slot(ItemKind::Escudo).map(|i| i.bonus_damage), Some(3));
    assert_eq!(lo.slot(ItemKind::Espada), None);
}

#[test]
fn player_class_affinity_is_exhaustive_and_matches_rfc_003() {
    assert_eq!(PlayerClass::Guerreiro.affinity(), ItemKind::Espada);
    assert_eq!(PlayerClass::Mago.affinity(), ItemKind::Magia);
    assert_eq!(PlayerClass::Ladrao.affinity(), ItemKind::Pocao);
}

#[test]
fn default_save_starts_at_phase_zero() {
    assert_eq!(SaveData::default().current_phase, 0);
}

#[test]
fn default_save_has_full_life() {
    assert_eq!(SaveData::default().player_life, None);
}

#[test]
fn recovered_player_life_is_partial_never_full_never_less_than_current() {
    assert_eq!(recovered_player_life(10, 100), 10 + (90 * PLAYER_LIFE_RECOVERY_NUM / PLAYER_LIFE_RECOVERY_DEN));
    assert!(recovered_player_life(10, 100) < 100, "recuperacao parcial nunca pode ser cura total");
    assert!(recovered_player_life(10, 100) > 10, "recuperacao parcial precisa recuperar alguma vida");
    assert_eq!(recovered_player_life(100, 100), 100, "vida cheia nao pode overhealar acima do maximo");
    assert_eq!(recovered_player_life(0, 100), 90, "90% de recuperacao sobre 100 de vida perdida");
}

#[test]
fn bag_add_stacks_on_matching_id_instead_of_duplicating_the_row() {
    let mut bag = Bag::default();
    let item = Item { id: "seiva_de_lotus".into(), kind: ItemKind::Pocao, name: "vida".into(), bonus_damage: 0 };
    bag.add(item.clone(), 1);
    bag.add(item, 2);
    assert_eq!(bag.0.len(), 1, "mesmo id nao pode virar duas linhas na mochila");
    assert_eq!(bag.0[0].1, 3);
}

#[test]
fn bag_add_pushes_a_new_row_for_a_previously_unseen_id() {
    let mut bag = Bag::default();
    bag.add(Item { id: "a".into(), kind: ItemKind::Espada, name: "x".into(), bonus_damage: 1 }, 1);
    bag.add(Item { id: "b".into(), kind: ItemKind::Escudo, name: "y".into(), bonus_damage: 1 }, 1);
    assert_eq!(bag.0.len(), 2);
}

#[test]
fn winning_each_of_the_seven_monsters_drops_its_thematic_item_into_the_bag() {
    for i in 0..PHASE_COUNT {
        let (_, spec) = phase(i).unwrap();
        let mut save = SaveData::default();
        assert!(save.bag.0.is_empty(), "save novo comeca sem nenhum despojo");

        let label = apply_phase_victory_drop(&mut save, &spec.drop);

        assert_eq!(save.bag.0.len(), 1, "monstro {} deveria inserir exatamente 1 entrada nova na Bag", spec.title);
        assert_eq!(save.bag.0[0].0, spec.drop, "item inserido precisa ser exatamente o item da tabela de drop de {}", spec.title);
        assert_eq!(save.bag.0[0].1, 1);
        assert!(label.contains(&spec.drop.name), "feedback de vitoria precisa citar o nome do item recebido");
    }
}

#[test]
fn winning_the_same_monster_twice_stacks_the_same_drop_deterministically() {
    let spec = data::mummy();
    let mut save = SaveData::default();
    apply_phase_victory_drop(&mut save, &spec.drop);
    apply_phase_victory_drop(&mut save, &spec.drop);
    assert_eq!(save.bag.0.len(), 1);
    assert_eq!(save.bag.0[0].1, 2);
}

#[test]
fn drop_ids_are_all_distinct_across_the_bestiary() {
    let ids: Vec<String> = (0..PHASE_COUNT).map(|i| phase(i).unwrap().1.drop.id).collect();
    let mut seen = std::collections::HashSet::new();
    for id in &ids {
        assert!(seen.insert(id.as_str()), "id de drop duplicado no bestiario: {id}");
    }
    assert_eq!(seen.len(), 7);
}

#[test]
fn recovered_life_never_exceeds_max_and_never_drops() {
    for (cur, max) in [(0, 100), (1, 100), (55, 100), (99, 100), (100, 100), (120, 100), (-5, 100)] {
        let r = recovered_player_life(cur, max);
        assert!(r >= cur.min(max), "({cur}, {max}) gave {r}");
        assert!(r <= max.max(cur), "({cur}, {max}) gave {r}");
    }
    assert_eq!(recovered_player_life(50, 100), 95);
}

#[test]
fn class_labels_and_all_classes() {
    let all = PlayerClass::all();
    assert_eq!(all.len(), 3);
    let labels: Vec<&str> = all.iter().map(|c| c.label()).collect();
    assert_eq!(labels, vec!["GUERREIRO", "MAGO", "LADRAO"]);
}

#[test]
fn victory_message_names_the_item() {
    let spec = data::zombie();
    let mut save = SaveData::default();
    let msg = apply_phase_victory_drop(&mut save, &spec.drop);
    assert!(msg.contains(&spec.drop.name), "{msg}");
    assert!(msg.contains(&spec.drop.bonus_damage.to_string()), "{msg}");
}

fn sword(id: &str, bonus: i32) -> Item {
    Item { id: id.into(), kind: ItemKind::Espada, name: id.into(), bonus_damage: bonus }
}

#[test]
fn equipping_from_the_bag_swaps_with_the_slot() {
    let mut save = SaveData::default();
    save.bag.add(sword("ferro", 2), 2);
    save.bag.add(sword("bronze", 1), 1);
    save.equip_from_bag(0);
    assert_eq!(save.loadout.slot(ItemKind::Espada).unwrap().id, "ferro");
    assert_eq!(save.bag.0.len(), 2);
    assert_eq!(save.bag.0[0].1, 1);
    // equipping the bronze sword brings the iron one back to its row
    save.equip_from_bag(1);
    assert_eq!(save.loadout.slot(ItemKind::Espada).unwrap().id, "bronze");
    assert_eq!(save.bag.0, vec![(sword("ferro", 2), 2)]);
    save.unequip(ItemKind::Espada);
    assert_eq!(save.loadout.slot(ItemKind::Espada), None);
    assert_eq!(save.bag.0, vec![(sword("ferro", 2), 2), (sword("bronze", 1), 1)]);
    save.unequip(ItemKind::Magia);
    assert_eq!(save.bag.0.len(), 2);
}

#[test]
fn equipping_the_same_item_again_loses_no_unit() {
    let mut save = SaveData::default();
    save.bag.add(sword("ferro", 2), 2);
    save.equip_from_bag(0);
    assert_eq!(save.bag.0, vec![(sword("ferro", 2), 1)]);
    // the slot holds "ferro" and its row has one unit: the unit leaves the
    // bag first, then the equipped one comes back
    save.equip_from_bag(0);
    assert_eq!(save.loadout.slot(ItemKind::Espada).unwrap().id, "ferro");
    assert_eq!(save.bag.0, vec![(sword("ferro", 2), 1)]);
}
