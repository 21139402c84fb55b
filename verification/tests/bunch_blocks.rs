//! Tests of the bunch table: the bios enumeration, the cult game dispatch,
//! the stage records and the fixed-count block structure.

use prm::bunch::{
    Bios, Bunch, BunchParseError, CultGame, CultGameHarvestParseError, CultGameParseError,
    CultGameTrait, CultGameType, CultStage, CultStageParseError, TableBunch,
};
use prm::PrmParseError;

fn rows(lines: &[&str]) -> Vec<String> {
    lines.iter().map(|s| s.to_string()).collect()
}

#[test]
fn bios_enumeration_is_closed_and_ordered() {
    let all = Bios::into_iter();
    assert_eq!(all, vec![Bios::Eleepods, Bios::Beeboorats, Bios::Zeexes]);
    assert_eq!(Bios::total(), 3);
    assert_eq!(Bios::from_u8(0), Some(Bios::Eleepods));
    assert_eq!(Bios::from_u8(2), Some(Bios::Zeexes));
    assert_eq!(Bios::from_u8(3), None);
    assert_eq!(Bios::from_str("Beeboorats"), Ok(Bios::Beeboorats));
    assert_eq!(Bios::from_str("nobody"), Err(()));
}

#[test]
fn game_type_names() {
    assert_eq!(CultGameType::from_str("RACE"), Ok(CultGameType::Race));
    assert_eq!(CultGameType::from_str("HARVEST"), Ok(CultGameType::Harvest));
    assert_eq!(CultGameType::from_str("race"), Err(()));
}

#[test]
fn stage_line_parses_and_strips_quotes() {
    let s = CultStage::from_prmrow("\"Surface\" 10 20 30 world.pal").unwrap();
    assert_eq!(s.name, "Surface");
    assert_eq!(s.cirt, 10);
    assert_eq!(s.time, 20);
    assert_eq!(s.price, 30);
    assert_eq!(s.palette, "world.pal");
}

#[test]
fn stage_line_errors() {
    assert_eq!(CultStage::from_prmrow("").unwrap_err(), CultStageParseError::Name);
    assert_eq!(CultStage::from_prmrow("n x 2 3 p").unwrap_err(), CultStageParseError::Cirt);
    assert_eq!(CultStage::from_prmrow("n 1 x 3 p").unwrap_err(), CultStageParseError::Time);
    assert_eq!(CultStage::from_prmrow("n 1 2 x p").unwrap_err(), CultStageParseError::Price);
    assert_eq!(CultStage::from_prmrow("n 1 2 3").unwrap_err(), CultStageParseError::Palette);
    assert_eq!(
        CultStage::from_prmrow("n 1 2 3 p q").unwrap_err(),
        CultStageParseError::UnexpectedAdditionalParameter
    );
}

#[test]
fn game_line_none_means_no_game() {
    assert!(CultGame::from_prmrow("none").unwrap().is_none());
    assert_eq!(
        CultGame::from_prmrow("none extra").unwrap_err(),
        CultGameParseError::IncorrectCountProperties(None)
    );
}

#[test]
fn game_line_dispatches_on_the_tag() {
    let g = CultGame::from_prmrow("HARVEST nymbos 5 market rotten").unwrap().unwrap();
    assert_eq!(g.get_type(), CultGameType::Harvest);
    match g {
        CultGame::Harvest(h) => {
            assert_eq!(h.goods_type_name, "nymbos");
            assert_eq!(h.goods_count, 5);
            assert_eq!(h.destination_name, "market");
            assert_eq!(h.rotten_goods_type_name, "rotten");
        },
        CultGame::Race(_) => panic!("wrong kind"),
    }
    let g = CultGame::from_prmrow("RACE src beg 1 dst end 2 rotten").unwrap().unwrap();
    assert_eq!(g.get_type(), CultGameType::Race);
    match g {
        CultGame::Race(r) => {
            assert_eq!(r.source_name, "src");
            assert_eq!(r.goods_type_beg_name, "beg");
            assert_eq!(r.goods_count_beg, 1);
            assert_eq!(r.destination_name, "dst");
            assert_eq!(r.goods_type_end_name, "end");
            assert_eq!(r.goods_count_end, 2);
            assert_eq!(r.rotten_goods_type_name, "rotten");
        },
        CultGame::Harvest(_) => panic!("wrong kind"),
    }
}

#[test]
fn game_line_errors() {
    assert_eq!(CultGame::from_prmrow("").unwrap_err(), CultGameParseError::Empty);
    assert_eq!(CultGame::from_prmrow("JUGGLE a b").unwrap_err(), CultGameParseError::IncorrectGameType);
    assert_eq!(
        CultGame::from_prmrow("HARVEST a 1 b").unwrap_err(),
        CultGameParseError::IncorrectCountProperties(Some(CultGameType::Harvest))
    );
    assert_eq!(
        CultGame::from_prmrow("RACE a b 1 c d 2").unwrap_err(),
        CultGameParseError::IncorrectCountProperties(Some(CultGameType::Race))
    );
    assert_eq!(
        CultGame::from_prmrow("HARVEST a x b c").unwrap_err(),
        CultGameParseError::Harvest(CultGameHarvestParseError::GoodsCount)
    );
}

#[test]
fn short_block_is_distinct_from_malformed_unit() {
    // The title declares 2 units but only 1 stage/game pair follows: the
    // block runs out of lines, which is its own error ...
    let short = TableBunch::from_rows(&rows(&[
        "Glorx 0 2",
        "\"Surface\" 10 20 30 world.pal",
        "none",
    ]))
    .unwrap_err();
    assert_eq!(short, PrmParseError::Bunch(BunchParseError::CultStage(CultStageParseError::Empty)));
    // ... distinct from the error of a malformed pair in the same place.
    let malformed = TableBunch::from_rows(&rows(&[
        "Glorx 0 2",
        "\"Surface\" 10 20 30 world.pal",
        "none",
        "\"Deep\" bad 20 30 deep.pal",
        "none",
    ]))
    .unwrap_err();
    assert_eq!(
        malformed,
        PrmParseError::Bunch(BunchParseError::CultStage(CultStageParseError::Cirt))
    );
    assert_ne!(short, malformed);
}

#[test]
fn bunch_title_errors() {
    for bad in [
        "",
        "escave",
        "escave x 1",
        "escave 7 1",
        "escave 0",
        "escave 0 x",
        "escave 0 0",
        "escave 0 1 extra",
    ] {
        assert_eq!(
            TableBunch::from_rows(&rows(&[bad])).unwrap_err(),
            PrmParseError::Bunch(BunchParseError::Title),
            "title {:?}",
            bad
        );
    }
}

#[test]
fn bunch_missing_game_line_is_its_own_error() {
    let e = TableBunch::from_rows(&rows(&["Glorx 0 1", "\"Surface\" 10 20 30 world.pal"]))
        .unwrap_err();
    assert_eq!(e, PrmParseError::Bunch(BunchParseError::CultGame(CultGameParseError::Empty)));
}

#[test]
fn bunch_table_reads_one_block_per_bios() {
    let t = TableBunch::from_rows(&rows(&[
        "GlorxA 0 1",
        "\"Surface\" 10 20 30 a.pal",
        "none",
        "GlorxB 1 2",
        "\"One\" 1 2 3 b.pal",
        "HARVEST nymbos 5 market rotten",
        "\"Two\" 4 5 6 c.pal",
        "none",
        "GlorxC 2 1",
        "\"Deep\" 7 8 9 d.pal",
        "RACE src beg 1 dst end 2 rotten",
    ]))
    .unwrap();
    assert_eq!(t.len(), 3);
    assert_eq!(t.bunches[0].bios, Bios::Eleepods);
    assert_eq!(t.bunches[0].escave_name, "GlorxA");
    assert_eq!(t.bunches[0].cycles(), 1);
    assert_eq!(t.bunches[1].bios, Bios::Beeboorats);
    assert_eq!(t.bunches[1].cycles(), 2);
    let second = &t.bunches[1].cults[0];
    assert_eq!(second.stage().name, "One");
    assert!(second.game().is_some());
    assert!(t.bunches[1].cults[1].game().is_none());
    assert_eq!(t.bunches[2].cults[0].stage().palette, "d.pal");
    assert_eq!(t.bunches[2].cults[0].game().unwrap().get_type(), CultGameType::Race);
}

#[test]
fn bunch_table_needs_a_block_for_every_bios() {
    let e = TableBunch::from_rows(&rows(&["GlorxA 0 1", "\"Surface\" 10 20 30 a.pal", "none"]))
        .unwrap_err();
    assert_eq!(e, PrmParseError::Bunch(BunchParseError::Title));
}

#[test]
fn bunch_block_parses_from_a_cursor() {
    let lines = rows(&["GlorxA 0 1", "\"Surface\" 10 20 30 a.pal", "none", "leftover 1 2"]);
    let mut cur = prm::cursor::Cursor::new(&lines);
    let b = Bunch::from_prmrow_iter(&mut cur).unwrap();
    assert_eq!(b.escave_name, "GlorxA");
    assert_eq!(b.cycles(), 1);
    // The cursor stands exactly after the block's three lines.
    assert_eq!(cur.next().map(|s| s.as_str()), Some("leftover 1 2"));
}
