use castep_cell_parser::{
    lowercase, Block, CELLObject, CELLParser, CellPair, CellParseError, KeywordValue,
    ParsedCellDoc, SingleKeyword,
};

const ROW1: &str = "      10.182880152352300       0.000000000000000       0.000000000000000";
const ROW2: &str = "       0.000000000000000       5.969867637928440       0.000000000000000";
const ROW3: &str = "       0.000000000000000       0.000000000000000       4.750940602435010";

fn block_pair(name: &str, lines: &[&str]) -> CellPair {
    CellPair::Block {
        name: name.to_string(),
        values: lines.iter().map(|l| l.to_string()).collect(),
    }
}

fn kv_pair(name: &str, value: &str) -> CellPair {
    CellPair::KvPair { name: name.to_string(), value: value.to_string() }
}

fn single(name: &str) -> CellPair {
    CellPair::SingleKeywords { name: name.to_string() }
}

fn lattice() -> CellPair {
    block_pair("LATTICE_CART", &[ROW1, ROW2, ROW3])
}

fn lattice_text() -> String {
    format!("%BLOCK LATTICE_CART\n{}\n{}\n{}\n%ENDBLOCK LATTICE_CART", ROW1, ROW2, ROW3)
}

#[test]
fn block_then_task_renders_in_order() {
    let doc = CELLParser::cell_doc_map(vec![lattice(), kv_pair("task", "SinglePoint")]);
    assert_eq!(doc.len(), 2);
    assert!(doc.get("lattice_cart").is_some());
    assert_eq!(doc.get("task").unwrap().order(), 1);
    assert_eq!(doc.get("lattice_cart").unwrap().order(), 0);
    let text = CELLParser::ordered_cell_doc(&doc).to_string();
    assert_eq!(text, format!("{}\n\ntask :  SinglePoint", lattice_text()));
}

#[test]
fn task_before_block_has_order_zero() {
    let doc = CELLParser::cell_doc_map(vec![kv_pair("task", "SinglePoint"), lattice()]);
    assert_eq!(doc.len(), 2);
    assert_eq!(doc.get("task").unwrap().order(), 0);
    assert_eq!(doc.get("lattice_cart").unwrap().order(), 1);
    let text = CELLParser::ordered_cell_doc(&doc).to_string();
    assert_eq!(text, format!("task :  SinglePoint\n\n{}", lattice_text()));
}

#[test]
fn bare_directive_alone() {
    let doc = CELLParser::cell_doc_map(vec![single("SYMMETRY_GENERATE")]);
    assert_eq!(doc.len(), 1);
    let obj = doc.get("symmetry_generate").unwrap();
    let kw = obj.as_single_keyword().unwrap();
    assert_eq!(kw.name(), "SYMMETRY_GENERATE");
    assert_eq!(kw.order(), 0);
    assert_eq!(obj.order(), 0);
    assert!(obj.as_block().is_none());
    assert!(obj.as_keyword_value().is_none());
    assert_eq!(CELLParser::ordered_cell_doc(&doc).to_string(), "SYMMETRY_GENERATE");
}

#[test]
fn lookup_in_any_casing() {
    let doc = CELLParser::cell_doc_map(vec![lattice(), kv_pair("task", "SinglePoint")]);
    let a = doc.get("Lattice_Cart").unwrap();
    let b = doc.get("LATTICE_CART").unwrap();
    let c = doc.get("lattice_cart").unwrap();
    assert_eq!(a, b);
    assert_eq!(b, c);
    assert_eq!(a.as_block().unwrap().name(), "LATTICE_CART");
    assert!(doc.get("TASK").is_some());
    assert!(doc.get("positions_frac").is_none());
}

#[test]
fn later_declaration_wins() {
    let doc = CELLParser::cell_doc_map(vec![
        kv_pair("task", "SinglePoint"),
        single("SYMMETRY_GENERATE"),
        kv_pair("TASK", "GeometryOptimization"),
    ]);
    assert_eq!(doc.len(), 2);
    let kv = doc.get("task").unwrap().as_keyword_value().unwrap();
    assert_eq!(kv.order(), 2);
    assert_eq!(kv.name(), "TASK");
    assert_eq!(kv.value(), "GeometryOptimization");
    let text = CELLParser::ordered_param_doc(&doc).to_string();
    assert_eq!(text, "SYMMETRY_GENERATE\nTASK : GeometryOptimization");
}

#[test]
fn later_block_replaces_earlier_block() {
    let doc = CELLParser::cell_doc_map(vec![
        block_pair("SPECIES_MASS", &["O 15.9989995956"]),
        block_pair("species_mass", &["Mg 24.3050003052", "Si 28.0849990845"]),
    ]);
    assert_eq!(doc.len(), 1);
    let b = doc.get("Species_Mass").unwrap().as_block().unwrap();
    assert_eq!(b.order(), 1);
    assert_eq!(b.name(), "species_mass");
    assert_eq!(b.values(), &["Mg 24.3050003052".to_string(), "Si 28.0849990845".to_string()]);
}

#[test]
fn orders_are_dense_in_declaration_order() {
    let doc = CELLParser::cell_doc_map(vec![
        kv_pair("fix_com", "false"),
        block_pair("IONIC_CONSTRAINTS", &[]),
        single("SYMMETRY_GENERATE"),
        kv_pair("QUANTIZATION_AXIS", "0.0000    0.0000    1.0000"),
    ]);
    let mut orders: Vec<usize> = ["fix_com", "ionic_constraints", "symmetry_generate", "quantization_axis"]
        .iter()
        .map(|k| doc.get(k).unwrap().order())
        .collect();
    orders.sort();
    assert_eq!(orders, vec![0, 1, 2, 3]);
}

#[test]
fn shadowed_declaration_keeps_its_slot() {
    let doc = CELLParser::cell_doc_map(vec![
        single("a"),
        single("b"),
        single("A"),
    ]);
    assert_eq!(doc.len(), 2);
    assert_eq!(doc.get("a").unwrap().order(), 2);
    assert_eq!(doc.get("b").unwrap().order(), 1);
    assert_eq!(CELLParser::ordered_param_doc(&doc).to_string(), "b\nA");
}

#[test]
fn narrowing_accessors() {
    let block = CELLObject::Block(Block::new(0, "SPECIES_POT".to_string(), vec!["O  O_00PBE_OP.recpot".to_string()]));
    let kv = CELLObject::KeywordValue(KeywordValue::new(1, "task".to_string(), "SinglePoint".to_string()));
    let kw = CELLObject::SingleKeyword(SingleKeyword::new(2, "SYMMETRY_GENERATE".to_string()));
    let b = block.as_block().unwrap();
    assert_eq!(b.name(), "SPECIES_POT");
    assert_eq!(b.values(), &["O  O_00PBE_OP.recpot".to_string()]);
    assert!(kv.as_block().is_none());
    assert!(kw.as_block().is_none());
    assert_eq!(kv.as_keyword_value().unwrap().value(), "SinglePoint");
    assert!(block.as_keyword_value().is_none());
    assert!(block.as_single_keyword().is_none());
    assert_eq!(kw.order(), 2);
    assert_eq!(kv.order(), 1);
}

#[test]
fn blocks_round_trip() {
    let pairs = vec![
        lattice(),
        block_pair("CELL_CONSTRAINTS", &["       1       2       3", "       4       5       6"]),
        block_pair("HUBBARD_U", &["      Fe       1       d: 0.500000000000000"]),
    ];
    let doc = CELLParser::cell_doc_map(pairs);
    let text = CELLParser::ordered_cell_doc(&doc).to_string();
    let expected = format!(
        "{}\n\n%BLOCK CELL_CONSTRAINTS\n       1       2       3\n       4       5       6\n%ENDBLOCK CELL_CONSTRAINTS\n\n%BLOCK HUBBARD_U\n      Fe       1       d: 0.500000000000000\n%ENDBLOCK HUBBARD_U",
        lattice_text()
    );
    assert_eq!(text, expected);
}

#[test]
fn empty_block_renders_markers_only() {
    let b = Block::new(0, "IONIC_CONSTRAINTS".to_string(), vec![]);
    assert_eq!(b.to_string(), "%BLOCK IONIC_CONSTRAINTS\n%ENDBLOCK IONIC_CONSTRAINTS");
    let e = Block::new(0, "X".to_string(), vec![String::new()]);
    assert_eq!(e.to_string(), "%BLOCK X\n%ENDBLOCK X");
}

#[test]
fn short_values_are_right_justified() {
    let kv = KeywordValue::new(0, "spin".to_string(), "4".to_string());
    assert_eq!(kv.to_string(), "spin :            4");
    let long = KeywordValue::new(0, "comment".to_string(), "CASTEP calculation".to_string());
    assert_eq!(long.to_string(), "comment : CASTEP calculation");
    let empty = KeywordValue::new(0, "x".to_string(), String::new());
    assert_eq!(empty.to_string(), "x :             ");
}

#[test]
fn edited_value_changes_rendering() {
    let mut doc = CELLParser::cell_doc_map(vec![kv_pair("task", "SinglePoint"), kv_pair("spin", "4")]);
    let mut kv = doc.get("task").unwrap().as_keyword_value().unwrap().duplicate();
    kv.set_value("GeometryOptimization".to_string());
    assert_eq!(kv.order(), 0);
    doc.insert(CELLObject::KeywordValue(kv));
    assert_eq!(doc.len(), 2);
    let text = CELLParser::ordered_param_doc(&doc).to_string();
    assert_eq!(text, "task : GeometryOptimization\nspin :            4");
}

#[test]
fn replaced_block_lines_change_rendering() {
    let mut b = Block::new(3, "EXTERNAL_EFIELD".to_string(), vec!["1".to_string()]);
    b.values_mut().push("2".to_string());
    assert_eq!(b.values().len(), 2);
    *b.values_mut() = vec!["0.0 0.0 0.0".to_string()];
    assert_eq!(b.order(), 3);
    assert_eq!(b.to_string(), "%BLOCK EXTERNAL_EFIELD\n0.0 0.0 0.0\n%ENDBLOCK EXTERNAL_EFIELD");
}

#[test]
fn insert_into_empty_table() {
    let mut doc = ParsedCellDoc::new();
    assert_eq!(doc.len(), 0);
    doc.insert(CELLObject::SingleKeyword(SingleKeyword::new(5, "Symmetry_Generate".to_string())));
    assert_eq!(doc.len(), 1);
    assert_eq!(doc.get("SYMMETRY_GENERATE").unwrap().order(), 5);
}

#[test]
fn empty_document_renders_nothing() {
    let doc = CELLParser::cell_doc_map(vec![]);
    assert_eq!(doc.len(), 0);
    assert_eq!(CELLParser::ordered_cell_doc(&doc).to_string(), "");
    assert_eq!(CELLParser::ordered_param_doc(&doc).to_string(), "");
}

#[test]
fn from_pair_keeps_name_and_lines() {
    let b = Block::from_pair(&lattice(), 7);
    assert_eq!(b.order(), 7);
    assert_eq!(b.name(), "LATTICE_CART");
    assert_eq!(b.values(), &[ROW1.to_string(), ROW2.to_string(), ROW3.to_string()]);
    assert_eq!(b.to_string(), lattice_text());
}

#[test]
fn lowercase_key() {
    assert_eq!(lowercase("LATTICE_Cart"), "lattice_cart");
    assert_eq!(lowercase(""), "");
}

#[test]
fn error_messages() {
    assert_eq!(CellParseError::FileReadingFailure.to_string(), "Failed to read from file");
    assert_eq!(CellParseError::UnexpectedLength.to_string(), "Unexpected length of data");
    assert_eq!(CellParseError::UnexpectedValueType.to_string(), "Unexpected value type");
    assert_eq!(CellParseError::Invalid.to_string(), "Not valid keywords or data in `.cell`");
    assert_eq!(CellParseError::GetBlockDataFailure.to_string(), "Fail to get block data");
    assert_eq!(CellParseError::GetFieldDataFailure.to_string(), "Fail to get field data");
    assert_eq!(
        CellParseError::RequiredSectionMissing.to_string(),
        "Missing lattice parameters and/or ionic positions!"
    );
    assert_eq!(
        CellParseError::UnexpectedBlockType(("LATTICE_CART".to_string(), "LATTICE_ABC".to_string()))
            .to_string(),
        "wrong block name: expect LATTICE_CART but curr: LATTICE_ABC"
    );
}
