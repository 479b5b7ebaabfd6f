use spine_composite::skin::{ComposeError, Skin, SkinCatalog};

fn skin(name: &str, entries: &[(u32, &str, u32)]) -> Skin {
    let mut s = Skin::new(name.to_string());
    for (slot, attachment_name, attachment) in entries {
        s.set_attachment(*slot, attachment_name.to_string(), *attachment);
    }
    s
}

fn sorted_entries(s: &Skin) -> Vec<(u32, String, u32)> {
    let mut v: Vec<(u32, String, u32)> =
        s.entries().iter().map(|e| (e.slot, e.name.clone(), e.attachment)).collect();
    v.sort();
    v
}

fn names(v: &[&str]) -> Vec<String> {
    v.iter().map(|s| s.to_string()).collect()
}

#[test]
fn compose_without_overlays_is_the_base() {
    let mut catalog = SkinCatalog::new();
    catalog.add(skin("base", &[(0, "body", 1), (1, "head", 2), (2, "arm", 3)]));
    catalog.add(skin("other", &[(1, "head", 9)]));
    let composite = catalog.compose(&"base".to_string(), &[]).unwrap();
    assert_eq!(composite.name(), "base");
    assert_eq!(
        sorted_entries(&composite),
        vec![(0, "body".to_string(), 1), (1, "head".to_string(), 2), (2, "arm".to_string(), 3)]
    );
}

#[test]
fn later_overlay_wins_on_shared_key() {
    let mut catalog = SkinCatalog::new();
    catalog.add(skin("base", &[(0, "head", 1)]));
    catalog.add(skin("A", &[(0, "head", 100)]));
    catalog.add(skin("B", &[(0, "head", 200)]));
    let ab = catalog.compose(&"base".to_string(), &names(&["A", "B"])).unwrap();
    assert_eq!(ab.get_attachment(0, &"head".to_string()), Some(200));
    let ba = catalog.compose(&"base".to_string(), &names(&["B", "A"])).unwrap();
    assert_eq!(ba.get_attachment(0, &"head".to_string()), Some(100));
}

#[test]
fn overlay_overrides_head_and_adds_hat() {
    let mut catalog = SkinCatalog::new();
    catalog.add(skin("A", &[(0, "head", 10)]));
    catalog.add(skin("B", &[(0, "head", 20), (1, "hat", 21)]));
    let composite = catalog.compose(&"A".to_string(), &names(&["B"])).unwrap();
    assert_eq!(
        sorted_entries(&composite),
        vec![(0, "head".to_string(), 20), (1, "hat".to_string(), 21)]
    );
}

#[test]
fn compose_leaves_catalog_skins_unchanged() {
    let mut catalog = SkinCatalog::new();
    catalog.add(skin("A", &[(0, "head", 10)]));
    catalog.add(skin("B", &[(0, "head", 20), (1, "hat", 21)]));
    let _ = catalog.compose(&"A".to_string(), &names(&["B"])).unwrap();
    assert_eq!(sorted_entries(catalog.get(0)), vec![(0, "head".to_string(), 10)]);
}

#[test]
fn same_name_in_other_slot_is_another_key() {
    let mut catalog = SkinCatalog::new();
    catalog.add(skin("A", &[(0, "head", 10)]));
    catalog.add(skin("B", &[(3, "head", 30)]));
    let composite = catalog.compose(&"A".to_string(), &names(&["B"])).unwrap();
    assert_eq!(composite.get_attachment(0, &"head".to_string()), Some(10));
    assert_eq!(composite.get_attachment(3, &"head".to_string()), Some(30));
    assert_eq!(composite.get_attachment(1, &"head".to_string()), None);
}

#[test]
fn missing_base_skin_is_reported() {
    let mut catalog = SkinCatalog::new();
    catalog.add(skin("A", &[(0, "head", 10)]));
    match catalog.compose(&"nope".to_string(), &names(&["A", "missing"])) {
        Err(ComposeError::SkinNotFound(n)) => assert_eq!(n, "nope"),
        Ok(_) => panic!("composition should fail"),
    }
}

#[test]
fn first_missing_overlay_is_reported() {
    let mut catalog = SkinCatalog::new();
    catalog.add(skin("A", &[(0, "head", 10)]));
    catalog.add(skin("B", &[(0, "head", 20)]));
    match catalog.compose(&"A".to_string(), &names(&["B", "gone", "also_gone"])) {
        Err(ComposeError::SkinNotFound(n)) => assert_eq!(n, "gone"),
        Ok(_) => panic!("composition should fail"),
    }
}

#[test]
fn resolve_layers_gives_positions_in_order() {
    let mut catalog = SkinCatalog::new();
    catalog.add(skin("A", &[]));
    catalog.add(skin("B", &[]));
    catalog.add(skin("C", &[]));
    let layers = catalog.resolve_layers(&"C".to_string(), &names(&["A", "B", "A"])).unwrap();
    assert_eq!(layers, vec![2, 0, 1, 0]);
}

#[test]
fn find_skin_takes_the_first_of_a_name() {
    let mut catalog = SkinCatalog::new();
    catalog.add(skin("A", &[(0, "x", 1)]));
    catalog.add(skin("A", &[(0, "x", 2)]));
    assert_eq!(catalog.find_skin(&"A".to_string()), Some(0));
    assert_eq!(catalog.find_skin(&"Z".to_string()), None);
    assert_eq!(catalog.len(), 2);
}

#[test]
fn set_attachment_replaces_in_place() {
    let mut s = skin("s", &[(0, "a", 1), (1, "b", 2)]);
    s.set_attachment(0, "a".to_string(), 5);
    assert_eq!(s.entries().len(), 2);
    assert_eq!(s.get_attachment(0, &"a".to_string()), Some(5));
    assert_eq!(s.get_attachment(1, &"b".to_string()), Some(2));
}
