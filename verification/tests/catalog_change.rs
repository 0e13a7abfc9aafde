use std::collections::BTreeMap;

use saguaro_common::{
    CatalogAllocatorHighWater, CatalogChangeSet, CatalogMutation, CatalogObject, CatalogObjectId,
    CatalogObjectMap, ColumnStatistics, NDistinct, NamespaceSchema, OrderedF64, SequenceSchema,
    TableStatistics, CATALOG_CHANGE_SET_VERSION,
};

fn schema(id: u32, name: &str) -> CatalogObject {
    CatalogObject::Schema(NamespaceSchema {
        id,
        name: name.to_string(),
    })
}

fn sequence(id: u32, last_value: i64) -> CatalogObject {
    CatalogObject::Sequence(SequenceSchema {
        id,
        schema_id: 1,
        name: "numbers".to_string(),
        increment: 1,
        min_value: 1,
        max_value: 100,
        start: 1,
        cycle: false,
        owned: false,
        last_value,
        is_called: true,
    })
}

fn statistics(null_frac: f64) -> CatalogObject {
    let column = ColumnStatistics {
        null_frac: OrderedF64::new(null_frac.to_bits()),
        avg_width: 8,
        n_distinct: NDistinct::Count(3),
        most_common: Vec::new(),
        histogram_bounds: Vec::new(),
    };
    CatalogObject::Statistics {
        table: 1,
        statistics: TableStatistics {
            row_count: 10,
            page_count: 1,
            columns: BTreeMap::from([(0, column)]),
        },
    }
}

fn objects(list: Vec<CatalogObject>) -> CatalogObjectMap {
    let mut map = CatalogObjectMap::new();
    for object in list {
        map.insert(object.id(), object);
    }
    map
}

fn between(before: Vec<CatalogObject>, after: Vec<CatalogObject>) -> CatalogChangeSet {
    CatalogChangeSet::between(
        objects(before),
        objects(after),
        CatalogAllocatorHighWater::default(),
    )
}

#[test]
fn changes_are_those_of_the_objects_that_differ() {
    let changes = between(
        vec![sequence(9, 1), schema(3, "app"), schema(1, "public"), schema(2, "old")],
        vec![schema(4, "new"), schema(1, "public"), sequence(9, 2), schema(3, "application")],
    );
    assert_eq!(changes.version, CATALOG_CHANGE_SET_VERSION);
    let ids: Vec<CatalogObjectId> = changes
        .mutations
        .iter()
        .map(|mutation| mutation.id().unwrap())
        .collect();
    assert_eq!(
        ids,
        vec![
            CatalogObjectId::Schema(2),
            CatalogObjectId::Schema(3),
            CatalogObjectId::Schema(4),
            CatalogObjectId::Sequence(9),
        ]
    );
    assert!(changes.mutations[0].before.is_some() && changes.mutations[0].after.is_none());
    assert!(changes.mutations[1].before == Some(schema(3, "app")));
    assert!(changes.mutations[1].after == Some(schema(3, "application")));
    assert!(changes.mutations[2].before.is_none());
    assert_eq!(changes.validate_shape(), Ok(()));
}

#[test]
fn equal_catalogs_have_no_changes() {
    let changes = between(vec![schema(1, "public")], vec![schema(1, "public")]);
    assert!(changes.mutations.is_empty());
    assert_eq!(changes.validate_shape(), Ok(()));
}

#[test]
fn the_last_object_under_an_identity_counts() {
    let changes = between(
        vec![],
        vec![schema(1, "first"), schema(2, "other"), schema(1, "second")],
    );
    assert_eq!(changes.mutations.len(), 2);
    assert!(changes.mutations[0].after == Some(schema(1, "second")));
}

fn mutated(before: Option<CatalogObject>, after: Option<CatalogObject>) -> CatalogChangeSet {
    CatalogChangeSet {
        version: CATALOG_CHANGE_SET_VERSION,
        mutations: vec![CatalogMutation { before, after }],
        allocator_high_water: CatalogAllocatorHighWater::default(),
    }
}

#[test]
fn each_bad_shape_is_told() {
    let mut unknown = mutated(None, Some(schema(1, "public")));
    unknown.version = 2;
    assert_eq!(
        unknown.validate_shape(),
        Err("unsupported catalog change-set version")
    );
    assert_eq!(
        mutated(None, None).validate_shape(),
        Err("catalog mutation has neither a before nor an after object")
    );
    assert_eq!(
        mutated(Some(schema(1, "a")), Some(schema(2, "a"))).validate_shape(),
        Err("catalog mutation before/after object ids differ")
    );
    assert_eq!(
        mutated(Some(schema(1, "a")), Some(schema(1, "a"))).validate_shape(),
        Err("catalog mutation does not change its object")
    );
    assert_eq!(
        mutated(None, Some(statistics(f64::NAN))).validate_shape(),
        Err("catalog change contains non-finite statistics")
    );
    assert_eq!(mutated(None, Some(statistics(0.5))).validate_shape(), Ok(()));
    assert_eq!(
        mutated(None, Some(CatalogObject::Constraint(1))).validate_shape(),
        Err("catalog constraint objects are not supported by this format version")
    );
    let mut unsorted = mutated(None, Some(schema(2, "b")));
    unsorted.mutations.push(CatalogMutation {
        before: None,
        after: Some(schema(1, "a")),
    });
    assert_eq!(
        unsorted.validate_shape(),
        Err("catalog mutations are not strictly object-id sorted")
    );
}

#[test]
fn change_sets_are_bounded() {
    let many = |count: u32| {
        let mut changes = mutated(None, Some(schema(0, "s")));
        for id in 1..count {
            changes.mutations.push(CatalogMutation {
                before: None,
                after: Some(schema(id, "s")),
            });
        }
        changes.validate_shape()
    };
    assert_eq!(many(65_536), Ok(()));
    assert_eq!(many(65_537), Err("catalog change set has too many mutations"));

    let mut columns = mutated(None, Some(schema(1, "s")));
    columns.allocator_high_water.next_column_object_ids = (0..65_537).map(|id| (id, 1)).collect();
    assert_eq!(
        columns.validate_shape(),
        Err("catalog change set has too many column allocators")
    );
    let mut keys = mutated(None, Some(schema(1, "s")));
    keys.allocator_high_water.next_foreign_key_ids = (0..65_537).map(|id| (id, 1)).collect();
    assert_eq!(
        keys.validate_shape(),
        Err("catalog change set has too many foreign-key allocators")
    );
}

#[test]
fn allocators_are_read_once_each() {
    let mut high_water = BTreeMap::new();
    assert_eq!(
        CatalogAllocatorHighWater::add_column_allocator(&mut high_water, 3, 7),
        Ok(())
    );
    assert_eq!(
        CatalogAllocatorHighWater::add_column_allocator(&mut high_water, 3, 8),
        Err("catalog change set repeats a column allocator")
    );
    assert_eq!(
        CatalogAllocatorHighWater::add_foreign_key_allocator(&mut high_water, 3, 8),
        Err("catalog change set repeats a foreign-key allocator")
    );
    assert_eq!(high_water.get(&3), Some(&7));
    let mut full: BTreeMap<u32, u32> = (0..65_536).map(|id| (id, 1)).collect();
    assert_eq!(
        CatalogAllocatorHighWater::add_column_allocator(&mut full, 70_000, 8),
        Err("catalog change set has too many column allocators")
    );
}
