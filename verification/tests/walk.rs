use dwarf_symbols::model::{
    AttrValue, Attribute, Encoding, Entry, Subprogram, Variable, DW_AT_LINKAGE_NAME,
    DW_AT_LOCATION, DW_AT_NAME, DW_AT_TYPE, DW_TAG_SUBPROGRAM, DW_TAG_VARIABLE,
};
use dwarf_symbols::walker::{walk, TreeEvent, Visited, WalkError, Walker};

fn encoding() -> Encoding {
    Encoding { little_endian: true, address_size: 8, dwarf64: false, version: 4 }
}

fn text(name: u16, s: &str) -> Attribute {
    Attribute {
        name,
        value: AttrValue::Text(s.as_bytes().to_vec()),
        rendering: format!("String({:?})", s),
    }
}

fn type_ref(offset: usize) -> Attribute {
    Attribute {
        name: DW_AT_TYPE,
        value: AttrValue::UnitRef(offset),
        rendering: format!("UnitRef(UnitOffset({}))", offset),
    }
}

fn location(expr: &[u8]) -> Attribute {
    Attribute {
        name: DW_AT_LOCATION,
        value: AttrValue::Exprloc(expr.to_vec()),
        rendering: format!("Exprloc({:?})", expr),
    }
}

fn subprogram(attrs: Vec<Attribute>) -> Entry {
    Entry { offset: 0, tag: DW_TAG_SUBPROGRAM, attrs }
}

fn variable(attrs: Vec<Attribute>) -> Entry {
    Entry { offset: 0, tag: DW_TAG_VARIABLE, attrs }
}

fn event(depth_delta: isize, entry: Entry) -> TreeEvent {
    TreeEvent::Entry { depth_delta, entry }
}

#[test]
fn two_functions_one_variable() {
    let events = vec![
        event(1, subprogram(vec![text(DW_AT_LINKAGE_NAME, "foo"), text(DW_AT_NAME, "foo")])),
        event(1, variable(vec![text(DW_AT_NAME, "x"), type_ref(5), location(&[0x91, 0x78])])),
        event(-1, subprogram(vec![text(DW_AT_LINKAGE_NAME, "bar")])),
    ];
    let report = walk(encoding(), &events);
    assert_eq!(report.error, None);
    assert_eq!(report.visited, 3);
    assert_eq!(report.table.len(), 2);
    assert_eq!(
        report.table.get("foo"),
        Some(&Subprogram {
            name: "foo".to_string(),
            linkage_name: "foo".to_string(),
            return_type_ref: 0,
            variables: vec![Variable {
                name: "x".to_string(),
                type_ref: 5,
                frame_offset: Some(-8),
            }],
        })
    );
    assert_eq!(
        report.table.get("bar"),
        Some(&Subprogram {
            name: String::new(),
            linkage_name: "bar".to_string(),
            return_type_ref: 0,
            variables: vec![],
        })
    );
}

#[test]
fn variable_without_location_has_no_offset() {
    let mut walker = Walker::new(encoding());
    walker.visit(0, &subprogram(vec![text(DW_AT_LINKAGE_NAME, "f")])).unwrap();
    let seen = walker.visit(1, &variable(vec![text(DW_AT_NAME, "v"), type_ref(9)])).unwrap();
    assert_eq!(seen, Visited::Attached);
    let table = walker.finish();
    let f = table.get("f").unwrap();
    assert_eq!(f.variables.len(), 1);
    assert_eq!(f.variables[0].frame_offset, None);
    assert_eq!(f.variables[0].type_ref, 9);
}

#[test]
fn malformed_event_stops_the_walk() {
    let events = vec![
        event(0, subprogram(vec![text(DW_AT_LINKAGE_NAME, "f")])),
        TreeEvent::Malformed,
        event(0, subprogram(vec![text(DW_AT_LINKAGE_NAME, "g")])),
    ];
    let report = walk(encoding(), &events);
    assert_eq!(report.error, Some(WalkError::MalformedTree));
    assert_eq!(report.visited, 1);
    assert!(report.table.get("f").is_some());
    assert!(report.table.get("g").is_none());
}

fn other(attrs: Vec<Attribute>) -> Entry {
    Entry { offset: 0, tag: 0x0b, attrs }
}

#[test]
fn variables_go_to_the_function_opened_last() {
    let events = vec![
        event(0, other(vec![])),
        event(1, subprogram(vec![text(DW_AT_LINKAGE_NAME, "a"), type_ref(3)])),
        event(1, variable(vec![text(DW_AT_NAME, "a1")])),
        event(0, other(vec![text(DW_AT_NAME, "block")])),
        event(1, variable(vec![text(DW_AT_NAME, "a2"), location(&[0x91, 0x60])])),
        event(-2, subprogram(vec![text(DW_AT_LINKAGE_NAME, "b")])),
        event(1, variable(vec![text(DW_AT_NAME, "b1")])),
    ];
    let report = walk(encoding(), &events);
    assert_eq!(report.error, None);
    let a = report.table.get("a").unwrap();
    assert_eq!(a.return_type_ref, 3);
    let names: Vec<&str> = a.variables.iter().map(|v| v.name.as_str()).collect();
    assert_eq!(names, vec!["a1", "a2"]);
    assert_eq!(a.variables[1].frame_offset, Some(-32));
    let b = report.table.get("b").unwrap();
    let names: Vec<&str> = b.variables.iter().map(|v| v.name.as_str()).collect();
    assert_eq!(names, vec!["b1"]);
}

#[test]
fn the_current_function_outlives_its_subtree() {
    // The variable sits at the depth of the function, not below it: it is
    // attached all the same.
    let mut walker = Walker::new(encoding());
    walker.visit(1, &subprogram(vec![text(DW_AT_LINKAGE_NAME, "f")])).unwrap();
    assert_eq!(walker.depth(), 1);
    let seen = walker.visit(-1, &variable(vec![text(DW_AT_NAME, "late")])).unwrap();
    assert_eq!(seen, Visited::Attached);
    assert_eq!(walker.depth(), 0);
    assert_eq!(walker.table().get("f").unwrap().variables.len(), 1);
}

#[test]
fn orphans_leave_no_trace() {
    let orphan = || variable(vec![text(DW_AT_NAME, "global"), type_ref(1)]);
    let with = vec![
        event(1, orphan()),
        event(0, orphan()),
        event(0, subprogram(vec![text(DW_AT_LINKAGE_NAME, "f")])),
        event(1, variable(vec![text(DW_AT_NAME, "x")])),
    ];
    let without = vec![
        event(1, subprogram(vec![text(DW_AT_LINKAGE_NAME, "f")])),
        event(1, variable(vec![text(DW_AT_NAME, "x")])),
    ];
    let a = walk(encoding(), &with).table;
    let b = walk(encoding(), &without).table;
    assert_eq!(a.records(), b.records());
    assert_eq!(a.len(), 1);

    let mut walker = Walker::new(encoding());
    assert_eq!(walker.visit(0, &orphan()), Ok(Visited::Dropped));
    assert!(walker.table().is_empty());
    assert_eq!(walker.finish().len(), 0);
}

#[test]
fn the_later_of_two_entries_with_one_linkage_name_wins() {
    let events = vec![
        event(0, subprogram(vec![text(DW_AT_LINKAGE_NAME, "f"), text(DW_AT_NAME, "old"), type_ref(1)])),
        event(1, variable(vec![text(DW_AT_NAME, "gone")])),
        event(-1, subprogram(vec![text(DW_AT_LINKAGE_NAME, "g")])),
        event(0, subprogram(vec![text(DW_AT_LINKAGE_NAME, "f"), text(DW_AT_NAME, "new")])),
        event(1, variable(vec![text(DW_AT_NAME, "kept")])),
    ];
    let table = walk(encoding(), &events).table;
    assert_eq!(table.len(), 2);
    assert_eq!(
        table.get("f"),
        Some(&Subprogram {
            name: "new".to_string(),
            linkage_name: "f".to_string(),
            return_type_ref: 0,
            variables: vec![Variable { name: "kept".to_string(), type_ref: 0, frame_offset: None }],
        })
    );
    // The record keeps the slot in which the name first came.
    let order: Vec<&str> = table.records().iter().map(|r| r.linkage_name.as_str()).collect();
    assert_eq!(order, vec!["f", "g"]);
    assert_eq!(table.find("f"), Some(0));
    assert_eq!(table.find("g"), Some(1));
    assert_eq!(table.find("h"), None);
}

#[test]
fn a_function_without_linkage_name_is_keyed_by_the_empty_string() {
    let events = vec![
        event(0, subprogram(vec![text(DW_AT_NAME, "anonymous")])),
        event(1, variable(vec![text(DW_AT_NAME, "v")])),
    ];
    let table = walk(encoding(), &events).table;
    let record = table.get("").unwrap();
    assert_eq!(record.name, "anonymous");
    assert_eq!(record.variables.len(), 1);
}

#[test]
fn other_entries_are_inspected_and_change_nothing() {
    let mut walker = Walker::new(encoding());
    let seen = walker
        .visit(0, &other(vec![text(DW_AT_NAME, "scope"), type_ref(4)]))
        .unwrap();
    match seen {
        Visited::Inspected(names) => {
            assert_eq!(names.len(), 2);
            assert!(!names[0].is_fallback());
            assert!(names[1].is_fallback());
        }
        _ => panic!("an entry of another kind is inspected"),
    }
    assert!(walker.table().is_empty());
}

#[test]
fn a_depth_out_of_range_stops_the_walk() {
    let mut walker = Walker::new(encoding());
    walker.visit(isize::MAX, &other(vec![])).unwrap();
    let refused = walker.visit(1, &subprogram(vec![text(DW_AT_LINKAGE_NAME, "f")]));
    assert_eq!(refused, Err(WalkError::DepthOutOfRange));
    assert_eq!(walker.depth(), isize::MAX);
    assert!(walker.table().is_empty());

    let events = vec![
        event(isize::MIN, subprogram(vec![text(DW_AT_LINKAGE_NAME, "f")])),
        event(-1, subprogram(vec![text(DW_AT_LINKAGE_NAME, "g")])),
    ];
    let report = walk(encoding(), &events);
    assert_eq!(report.error, Some(WalkError::DepthOutOfRange));
    assert_eq!(report.visited, 1);
    assert_eq!(report.table.len(), 1);
}

#[test]
fn an_empty_tree_gives_an_empty_table() {
    let report = walk(encoding(), &vec![]);
    assert_eq!(report.error, None);
    assert_eq!(report.visited, 0);
    assert!(report.table.is_empty());
}
