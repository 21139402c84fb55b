//! Tests of the table assemblers: flat tables, the count-prefixed items
//! table, the title-delimited price and tabutask tables, the sentinel-list
//! spot table and the vangers-weight table.

use prm::item::{ItemParseError, TableItem};
use prm::mechos::{MechosParseError, TableMechos};
use prm::price::{PriceParseError, TablePrice};
use prm::read_without_comments;
use prm::spot::{SpotParseError, TableSpot};
use prm::tabutask::{TableTabutask, TabutaskParseError};
use prm::vangers::{TableVangersWeight, VangersWeightParseError};
use prm::world::TableWorld;
use prm::{check_signature, signature_line, PrmParseError};

fn rows(lines: &[&str]) -> Vec<String> {
    lines.iter().map(|s| s.to_string()).collect()
}

#[test]
fn world_table_collects_all_rows() {
    let t = TableWorld::from_rows(&rows(&["Fostral 100 200", "Glorx 300 400"])).unwrap();
    let ws = t.worlds();
    assert_eq!(ws.len(), 2);
    assert_eq!(ws[0].name, "Fostral");
    assert_eq!(ws[1].height, 400);
}

#[test]
fn world_table_from_commented_source() {
    let raw = rows(&[
        "uniVang-ParametersFile_Ver_1",
        "/* worlds */",
        "Fostral 100 200 // the first world",
        "Glorx 300 400",
    ]);
    let cleaned = read_without_comments(&raw);
    let content = check_signature(cleaned).unwrap();
    let t = TableWorld::from_rows(&content).unwrap();
    assert_eq!(t.worlds().len(), 2);
    assert_eq!(signature_line(), "uniVang-ParametersFile_Ver_1");
}

#[test]
fn item_table_reads_exactly_the_declared_count() {
    let t = TableItem::from_rows(&rows(&[
        "2",
        "a 1 2 3 4 5 6 7",
        "b 1 2 3 4 5 6 7",
        "ignored trailing line",
    ]))
    .unwrap();
    assert_eq!(t.items.len(), 2);
    assert_eq!(t.items[1].name, "b");
}

#[test]
fn item_table_title_and_shortage_errors() {
    assert_eq!(
        TableItem::from_rows(&rows(&[])).unwrap_err(),
        PrmParseError::Item(ItemParseError::Title)
    );
    assert_eq!(
        TableItem::from_rows(&rows(&["x"])).unwrap_err(),
        PrmParseError::Item(ItemParseError::Title)
    );
    assert_eq!(
        TableItem::from_rows(&rows(&["2", "a 1 2 3 4 5 6 7"])).unwrap_err(),
        PrmParseError::Item(ItemParseError::ExpectedAdditionalItem)
    );
}

#[test]
fn price_table_groups_by_title_lines() {
    let t = TablePrice::from_rows(&rows(&[
        "EscaveA",
        "Item1 10 20",
        "Item2 5 6",
        "EscaveB",
        "Item3 1 2",
    ]))
    .unwrap();
    assert_eq!(t.prices.len(), 2);
    let a = t.prices.get("EscaveA").unwrap();
    assert_eq!(a.len(), 2);
    assert_eq!(a[0].name, "Item1");
    assert_eq!(a[0].buy, 10);
    assert_eq!(a[0].sell, 20);
    assert_eq!(a[1].name, "Item2");
    assert_eq!(a[1].buy, 5);
    assert_eq!(a[1].sell, 6);
    let b = t.prices.get("EscaveB").unwrap();
    assert_eq!(b.len(), 1);
    assert_eq!(b[0].name, "Item3");
    assert_eq!(b[0].buy, 1);
    assert_eq!(b[0].sell, 2);
    assert!(t.prices.get("EscaveC").is_none());
}

#[test]
fn price_item_before_any_title_is_a_structural_error() {
    assert_eq!(
        TablePrice::from_rows(&rows(&["Item1 10 20"])).unwrap_err(),
        PrmParseError::Price(PriceParseError::ExpectedTitleBlock)
    );
}

#[test]
fn price_repeated_title_overwrites_the_earlier_group() {
    let t = TablePrice::from_rows(&rows(&["E", "a 1 2", "E", "b 3 4"])).unwrap();
    assert_eq!(t.prices.len(), 1);
    let g = t.prices.get("E").unwrap();
    assert_eq!(g.len(), 1);
    assert_eq!(g[0].name, "b");
}

#[test]
fn spot_table_parses_sentinel_lists() {
    let t = TableSpot::from_rows(&rows(&["loc w 1 2 none", "potato market", "none"])).unwrap();
    assert_eq!(t.spots.len(), 1);
    let s = &t.spots[0];
    assert_eq!(s.name, "loc");
    assert_eq!(s.world_name, "w");
    assert_eq!(s.pos_x, 1);
    assert_eq!(s.pos_y, 2);
    assert!(s.personal_item_name.is_none());
    assert_eq!(s.goods, vec![("potato".to_string(), "market".to_string())]);
}

#[test]
fn spot_personal_item_is_kept_when_not_none() {
    let t = TableSpot::from_rows(&rows(&["loc w 1 2 lamp", "none"])).unwrap();
    assert_eq!(t.spots[0].personal_item_name, Some("lamp".to_string()));
}

#[test]
fn spot_unterminated_list_is_its_own_error() {
    assert_eq!(
        TableSpot::from_rows(&rows(&["loc w 1 2", "potato market"])).unwrap_err(),
        PrmParseError::Spot(SpotParseError::ExpectedTerminateLine)
    );
}

#[test]
fn spot_goods_line_shape_errors() {
    assert_eq!(
        TableSpot::from_rows(&rows(&["loc w 1 2", "single", "none"])).unwrap_err(),
        PrmParseError::Spot(SpotParseError::GoodsLine)
    );
    assert_eq!(
        TableSpot::from_rows(&rows(&["loc w 1 2", "a b c", "none"])).unwrap_err(),
        PrmParseError::Spot(SpotParseError::UnexpectedAdditionalParameterAtGoodsLine)
    );
    assert_eq!(
        TableSpot::from_rows(&rows(&["loc w 1 2 none extra", "none"])).unwrap_err(),
        PrmParseError::Spot(SpotParseError::UnexpectedAdditionalParameterAtEscaveTitleLine)
    );
}

#[test]
fn spot_table_of_empty_input_is_empty() {
    let t = TableSpot::from_rows(&rows(&[])).unwrap();
    assert!(t.spots.is_empty());
}

#[test]
fn spot_two_blocks_in_sequence() {
    let t = TableSpot::from_rows(&rows(&[
        "one w 1 2 none",
        "none",
        "two v 3 4 lamp",
        "nitro garage",
        "fuel pump",
        "none",
    ]))
    .unwrap();
    assert_eq!(t.spots.len(), 2);
    assert!(t.spots[0].goods.is_empty());
    assert_eq!(t.spots[1].goods.len(), 2);
}

#[test]
fn vangers_table_parses_total_and_weights() {
    let t = TableVangersWeight::from_rows(&rows(&["12", "Fostral 3", "Glorx 5"])).unwrap();
    assert_eq!(t.vangers_total, 12);
    assert_eq!(t.weights.len(), 2);
    assert_eq!(t.weights.get("Fostral"), Some(&3));
    assert_eq!(t.weights.get("Glorx"), Some(&5));
    assert_eq!(t.weights.get("Necross"), None);
}

#[test]
fn vangers_table_errors() {
    assert_eq!(
        TableVangersWeight::from_rows(&rows(&[])).unwrap_err(),
        PrmParseError::VangersWeight(VangersWeightParseError::VangersTotal)
    );
    assert_eq!(
        TableVangersWeight::from_rows(&rows(&["x"])).unwrap_err(),
        PrmParseError::VangersWeight(VangersWeightParseError::VangersTotal)
    );
    assert_eq!(
        TableVangersWeight::from_rows(&rows(&["1", "Fostral"])).unwrap_err(),
        PrmParseError::VangersWeight(VangersWeightParseError::RelativeWeight)
    );
    assert_eq!(
        TableVangersWeight::from_rows(&rows(&["1", "Fostral 1 2"])).unwrap_err(),
        PrmParseError::VangersWeight(
            VangersWeightParseError::UnexpectedAdditionalParameterAtRelativeWeightLine
        )
    );
}

#[test]
fn tabutask_titles_alone_give_empty_groups() {
    let t = TableTabutask::from_rows(&rows(&["EscaveA", "EscaveB"])).unwrap();
    assert_eq!(t.tabutasks.len(), 2);
    assert!(t.tabutasks.get("EscaveA").unwrap().is_empty());
}

#[test]
fn tabutask_record_lines_surface_the_missing_parser() {
    assert_eq!(
        TableTabutask::from_rows(&rows(&["EscaveA", "some record line"])).unwrap_err(),
        PrmParseError::Tabutask(TabutaskParseError::UnimplementedRecord)
    );
    assert_eq!(
        TableTabutask::from_rows(&rows(&["stray record line"])).unwrap_err(),
        PrmParseError::Tabutask(TabutaskParseError::ExpectedTitleBlock)
    );
}

#[test]
fn mechos_table_parses_header_and_records() {
    let t = TableMechos::from_rows(&rows(&[
        "1",
        "1",
        "0",
        "OxidizeMonk 0 4000 3000 1 0 2 0 10 11 12 13 14 15 16 17 18 19 20 21",
        "Ungainly 2 5000 4000 0 1 0 1 10 11 12 13 14 15 16 17 18 19 20 21",
    ]))
    .unwrap();
    assert_eq!(t.mechoses().len(), 2);
    assert_eq!(t.mechoses()[0].name, "OxidizeMonk");
    assert_eq!(t.mechoses()[1].name, "Ungainly");
}

#[test]
fn mechos_table_header_error() {
    assert_eq!(
        TableMechos::from_rows(&rows(&["1", "x", "0"])).unwrap_err(),
        PrmParseError::Mechos(MechosParseError::DigitCounters)
    );
}
