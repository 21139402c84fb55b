//! Tests of the single-line record parsers and the number parsing they use.

use prm::item::{Item, ItemParseError};
use prm::mechos::{Mechos, MechosFieldParseError, Type};
use prm::passage::{Passage, PassageParseError};
use prm::price::{Price, PriceParseError};
use prm::world::{World, WorldParseError};

#[test]
fn world_record_parses() {
    let w = World::from_prmrow("Fostral 2048 1024").unwrap();
    assert_eq!(w.name, "Fostral");
    assert_eq!(w.width, 2048);
    assert_eq!(w.height, 1024);
}

#[test]
fn world_record_errors() {
    assert_eq!(World::from_prmrow("").unwrap_err(), WorldParseError::Name);
    assert_eq!(World::from_prmrow("w").unwrap_err(), WorldParseError::Width);
    assert_eq!(World::from_prmrow("w x 2").unwrap_err(), WorldParseError::Width);
    assert_eq!(World::from_prmrow("w 1").unwrap_err(), WorldParseError::Height);
    assert_eq!(World::from_prmrow("w 1 y").unwrap_err(), WorldParseError::Height);
    assert_eq!(
        World::from_prmrow("w 1 2 3").unwrap_err(),
        WorldParseError::UnexpectedAdditionalParameter
    );
}

#[test]
fn world_rejects_negative_and_overflowing_numbers() {
    assert_eq!(World::from_prmrow("w -1 2").unwrap_err(), WorldParseError::Width);
    assert_eq!(World::from_prmrow("w 4294967295 2").unwrap().width, u32::MAX);
    assert_eq!(World::from_prmrow("w 4294967296 2").unwrap_err(), WorldParseError::Width);
    assert_eq!(World::from_prmrow("w +7 2").unwrap().width, 7);
}

#[test]
fn passage_record_parses() {
    let p = Passage::from_prmrow("gate Fostral Glorx -10 +20").unwrap();
    assert_eq!(p.name, "gate");
    assert_eq!(p.world_src_name, "Fostral");
    assert_eq!(p.world_dest_name, "Glorx");
    assert_eq!(p.pos_x, -10);
    assert_eq!(p.pos_y, 20);
}

#[test]
fn passage_record_errors() {
    assert_eq!(Passage::from_prmrow("").unwrap_err(), PassageParseError::Name);
    assert_eq!(Passage::from_prmrow("p").unwrap_err(), PassageParseError::WorldSource);
    assert_eq!(Passage::from_prmrow("p a").unwrap_err(), PassageParseError::WorldDestination);
    assert_eq!(Passage::from_prmrow("p a b").unwrap_err(), PassageParseError::PosX);
    assert_eq!(Passage::from_prmrow("p a b zz 2").unwrap_err(), PassageParseError::PosX);
    assert_eq!(Passage::from_prmrow("p a b 1").unwrap_err(), PassageParseError::PosY);
    assert_eq!(
        Passage::from_prmrow("p a b 1 2 3").unwrap_err(),
        PassageParseError::UnexpectedAdditionalParameter
    );
}

#[test]
fn passage_accepts_extreme_coordinates() {
    let p = Passage::from_prmrow("p a b -2147483648 2147483647").unwrap();
    assert_eq!(p.pos_x, i32::MIN);
    assert_eq!(p.pos_y, i32::MAX);
    assert_eq!(Passage::from_prmrow("p a b -2147483649 0").unwrap_err(), PassageParseError::PosX);
}

#[test]
fn price_record_parses() {
    let p = Price::from_prmrow("potato 17 12").unwrap();
    assert_eq!(p.name, "potato");
    assert_eq!(p.buy, 17);
    assert_eq!(p.sell, 12);
}

#[test]
fn price_record_errors() {
    assert_eq!(Price::from_prmrow("").unwrap_err(), PriceParseError::Name);
    assert_eq!(Price::from_prmrow("x").unwrap_err(), PriceParseError::Buy);
    assert_eq!(Price::from_prmrow("x 1").unwrap_err(), PriceParseError::Sell);
    assert_eq!(
        Price::from_prmrow("x 1 2 3").unwrap_err(),
        PriceParseError::UnexpectedAdditionalParameter
    );
}

#[test]
fn item_record_parses() {
    let it = Item::from_prmrow("fuel 3 -1 -2 4 5 -6 7").unwrap();
    assert_eq!(it.name, "fuel");
    assert_eq!(it.kind, 3);
    assert_eq!(it.steeler.full, -1);
    assert_eq!(it.steeler.empty, -2);
    assert_eq!(it.size, 4);
    assert_eq!(it.count, 5);
    assert_eq!(it.param1, -6);
    assert_eq!(it.param2, 7);
}

#[test]
fn item_record_errors() {
    assert_eq!(Item::from_prmrow("").unwrap_err(), ItemParseError::Name);
    assert_eq!(Item::from_prmrow("i x").unwrap_err(), ItemParseError::Type);
    assert_eq!(Item::from_prmrow("i 1 x").unwrap_err(), ItemParseError::SteelerFull);
    assert_eq!(Item::from_prmrow("i 1 2 x").unwrap_err(), ItemParseError::SteelerEmpty);
    assert_eq!(Item::from_prmrow("i 1 2 3 -4").unwrap_err(), ItemParseError::Size);
    assert_eq!(Item::from_prmrow("i 1 2 3 4 x").unwrap_err(), ItemParseError::Count);
    assert_eq!(Item::from_prmrow("i 1 2 3 4 5 x").unwrap_err(), ItemParseError::Param1);
    assert_eq!(Item::from_prmrow("i 1 2 3 4 5 6 x").unwrap_err(), ItemParseError::Param2);
    assert_eq!(
        Item::from_prmrow("i 1 2 3 4 5 6 7 8").unwrap_err(),
        ItemParseError::UnexpectedAdditionalParameter
    );
}

#[test]
fn mechos_record_parses() {
    let m =
        Mechos::from_prmrow("OxidizeMonk 0 4000 3000 1 0 2 0 10 11 12 13 14 15 16 17 18 19 20 21")
            .unwrap();
    assert_eq!(m.name, "OxidizeMonk");
    assert_eq!(m.kind, Type::Raffa);
    assert_eq!(m.price.buy, 4000);
    assert_eq!(m.price.sell, 3000);
    assert_eq!(m.slots, (1, 0, 2, 0));
    assert_eq!(m.speed, 10);
    assert_eq!(m.armor, 11);
    assert_eq!(m.energy, 12);
    assert_eq!(m.energy_delta, 13);
    assert_eq!(m.energy_drop, 14);
    assert_eq!(m.drop_time, 15);
    assert_eq!(m.fire, 16);
    assert_eq!(m.water, 17);
    assert_eq!(m.oxygen, 18);
    assert_eq!(m.fly, 19);
    assert_eq!(m.damage, 20);
    assert_eq!(m.teleport, 21);
}

#[test]
fn mechos_record_errors() {
    assert_eq!(Mechos::from_prmrow("").unwrap_err(), MechosFieldParseError::Name);
    assert_eq!(
        Mechos::from_prmrow("m").unwrap_err(),
        MechosFieldParseError::Type("[expected a value]".to_string())
    );
    assert_eq!(
        Mechos::from_prmrow("m zzz 1 2").unwrap_err(),
        MechosFieldParseError::Type("zzz".to_string())
    );
    assert_eq!(Mechos::from_prmrow("m 9 1 2").unwrap_err(), MechosFieldParseError::WrongType(9));
    assert_eq!(Mechos::from_prmrow("m 1").unwrap_err(), MechosFieldParseError::PriceBuy);
    assert_eq!(Mechos::from_prmrow("m 1 10").unwrap_err(), MechosFieldParseError::PriceSell);
    assert_eq!(Mechos::from_prmrow("m 1 10 20 0 0 x").unwrap_err(), MechosFieldParseError::Slot(2));
    assert_eq!(
        Mechos::from_prmrow("m 1 10 20 0 0 0 0 1 2 3 4 5 6 7 8 9 10 11").unwrap_err(),
        MechosFieldParseError::Teleport
    );
}

#[test]
fn mechos_type_numbers_cover_the_closed_set() {
    assert_eq!(Type::from_u8(0), Some(Type::Raffa));
    assert_eq!(Type::from_u8(1), Some(Type::Light));
    assert_eq!(Type::from_u8(2), Some(Type::Microbus));
    assert_eq!(Type::from_u8(3), Some(Type::Atw));
    assert_eq!(Type::from_u8(4), Some(Type::Track));
    assert_eq!(Type::from_u8(5), Some(Type::Special));
    assert_eq!(Type::from_u8(6), None);
}
