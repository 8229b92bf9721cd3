use inventory_core::catalog::{Catalog, CatalogError};

#[test]
fn register_assigns_load_positions_as_ids() {
    let mut cat = Catalog::new();
    assert_eq!(cat.register("stone".to_string(), 10, false, Some(1), None), Ok(0));
    assert_eq!(cat.register("drill".to_string(), 1, true, Some(2), Some(7)), Ok(1));
    let stone = cat.get(0).unwrap();
    assert_eq!(stone.id, 0);
    assert_eq!(stone.max_stack, 10);
    assert!(!stone.equippable);
    let drill = cat.get(1).unwrap();
    assert_eq!(drill.id, 1);
    assert!(drill.equippable);
    assert_eq!(drill.equip_scene, Some(7));
    assert!(cat.get(2).is_none());
}

#[test]
fn names_are_unique_case_sensitive() {
    let mut cat = Catalog::new();
    assert_eq!(cat.register("stone".to_string(), 10, false, None, None), Ok(0));
    assert_eq!(
        cat.register("stone".to_string(), 4, false, None, None),
        Err(CatalogError::DuplicateName)
    );
    assert_eq!(cat.entries.len(), 1);
    // Name matching is exact and case-sensitive.
    assert_eq!(cat.register("Stone".to_string(), 4, false, None, None), Ok(1));
}

#[test]
fn id_of_finds_registered_names() {
    let mut cat = Catalog::new();
    cat.register("stone".to_string(), 10, false, None, None).unwrap();
    cat.register("wood".to_string(), 10, false, None, None).unwrap();
    assert_eq!(cat.id_of(&"wood".to_string()), Some(1));
    assert_eq!(cat.id_of(&"stone".to_string()), Some(0));
    assert_eq!(cat.id_of(&"iron".to_string()), None);
}
