use std::collections::HashMap;
use std::str::FromStr;

use rustdoc_rag::distance::Distance;
use rustdoc_rag::document::{document_struct, DocumentError, Field, StructDocument};
use rustdoc_rag::path::resolve_use;
use rustdoc_rag::symbols::{Catalog, StructShape, SymbolKind, SymbolRecord, SymbolTable, Unit, ROOT_SENTINEL};

fn module_unit(name: &str) -> Unit {
    let mut index = HashMap::new();
    index.insert(0u32, SymbolRecord { name: Some(name.to_string()), docs: None, kind: SymbolKind::Module(vec![]) });
    Unit { name: name.to_string(), table: SymbolTable::new(0, index).unwrap() }
}

fn three_units() -> Catalog {
    let mut cat = Catalog::new(module_unit("app"), 3).unwrap();
    assert!(cat.set_dependency(1, module_unit("serde")));
    assert!(cat.set_dependency(3, module_unit("serde")));
    cat
}

#[test]
fn table_needs_its_root() {
    let index: HashMap<u32, SymbolRecord> = HashMap::new();
    assert!(SymbolTable::new(0, index).is_none());
    let unit = module_unit("app");
    assert_eq!(unit.table.root(), 0);
    assert!(unit.table.get(0).is_some());
    assert!(unit.table.get(1).is_none());
    assert_eq!(unit.table.record_or_root(1).name, Some("app".to_string()));
}

#[test]
fn catalog_slots() {
    let mut cat = three_units();
    assert_eq!(cat.len(), 4);
    assert!(cat.unit(2).is_none());
    assert!(cat.unit(4).is_none());
    assert_eq!(cat.unit(0).unwrap().name, "app");
    assert!(!cat.set_dependency(0, module_unit("other")));
    assert!(!cat.set_dependency(4, module_unit("other")));
    assert_eq!(cat.unit(0).unwrap().name, "app");
}

#[test]
fn first_unit_with_a_name_wins() {
    let cat = three_units();
    assert_eq!(cat.find_unit_by_name(&"serde".to_string()), Some(1));
    assert_eq!(cat.find_unit_by_name(&"app".to_string()), Some(0));
    assert_eq!(cat.find_unit_by_name(&"tokio".to_string()), None);
}

#[test]
fn resolver_rules() {
    let cat = three_units();
    assert_eq!(resolve_use(&"crate::a::B".to_string(), Some(4), 2, &cat), Some((2, 4)));
    assert_eq!(resolve_use(&"super::B".to_string(), Some(5), 0, &cat), Some((0, 5)));
    assert_eq!(resolve_use(&"crate".to_string(), None, 0, &cat), None);
    assert_eq!(resolve_use(&"serde::de::Deserialize".to_string(), Some(9), 0, &cat), Some((1, ROOT_SENTINEL)));
    assert_eq!(resolve_use(&"serde".to_string(), None, 0, &cat), Some((1, ROOT_SENTINEL)));
    assert_eq!(resolve_use(&"tokio::spawn".to_string(), Some(8), 3, &cat), Some((3, 8)));
    assert_eq!(resolve_use(&"tokio::spawn".to_string(), None, 3, &cat), None);
    assert_eq!(resolve_use(&"serde:x::y".to_string(), Some(2), 0, &cat), Some((0, 2)));
}

#[test]
fn document_struct_reads_fields_from_its_table() {
    let mut index = HashMap::new();
    index.insert(0u32, SymbolRecord { name: Some("m".to_string()), docs: None, kind: SymbolKind::Module(vec![1]) });
    index.insert(2u32, SymbolRecord { name: Some("a".to_string()), docs: Some("doc a".to_string()), kind: SymbolKind::StructField });
    index.insert(3u32, SymbolRecord { name: None, docs: None, kind: SymbolKind::StructField });
    let table = SymbolTable::new(0, index).unwrap();
    let item = SymbolRecord { name: Some("P".to_string()), docs: None, kind: SymbolKind::StructField };
    let doc = document_struct(&item, 1, &StructShape::Plain(vec![2]), &table).ok().unwrap();
    assert_eq!(doc.name, "P");
    assert_eq!(doc.fields.len(), 1);
    assert_eq!(doc.fields[0].name, "a");
    assert_eq!(doc.fields[0].docs, Some("doc a".to_string()));
    assert_eq!(document_struct(&item, 1, &StructShape::Plain(vec![2, 3]), &table).err(), Some(DocumentError::Unnamed(3)));
    assert_eq!(document_struct(&item, 1, &StructShape::Plain(vec![4, 3]), &table).err(), Some(DocumentError::MissingField(4)));
    let unit_doc = document_struct(&item, 1, &StructShape::Unit, &table).ok().unwrap();
    assert!(unit_doc.fields.is_empty());
}

#[test]
fn render_full_document() {
    let doc = StructDocument {
        name: "Point".to_string(),
        docs: Some("A point.".to_string()),
        fields: vec![
            Field { name: "x".to_string(), docs: Some("Abscissa.".to_string()) },
            Field { name: "y".to_string(), docs: None },
        ],
    };
    assert_eq!(
        doc.render(),
        "Point is a struct.\n\nA point.\n\nIt has the following fields: x, y, \n\nMore details about the x field:\n\nAbscissa.\n\n"
    );
}

#[test]
fn render_bare_document() {
    let doc = StructDocument { name: "Unit".to_string(), docs: None, fields: vec![] };
    assert_eq!(doc.render(), "Unit is a struct.\n\n");
}

#[test]
fn distance_names() {
    assert_eq!(Distance::parse("squared-l2"), Some(Distance::SquaredL2));
    assert_eq!(Distance::parse("l2"), Some(Distance::SquaredL2));
    assert_eq!(Distance::parse("inner-product"), Some(Distance::InnerProduct));
    assert_eq!(Distance::parse("ip"), Some(Distance::InnerProduct));
    assert_eq!(Distance::parse("cosine"), Some(Distance::Cosine));
    assert_eq!(Distance::parse("manhattan"), None);
    assert_eq!(Distance::from_str("ip"), Ok(Distance::InnerProduct));
    assert_eq!(Distance::from_str("L2"), Err("Invalid distance metric".to_string()));
    assert_eq!(Distance::from_str("l2"), Ok(Distance::SquaredL2));
    assert_eq!(Distance::from_str("Cosine"), Err("Invalid distance metric".to_string()));
    assert_eq!(Distance::SquaredL2.space_name(), "l2");
    assert_eq!(Distance::InnerProduct.space_name(), "ip");
    assert_eq!(Distance::Cosine.space_name(), "cosine");
}
