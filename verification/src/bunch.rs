//! The bunch table: one fixed-count block per bios.  A title line names the
//! owning escave, a bios number and a cycle count; exactly that many cycle
//! units follow, each a stage line and a game line.  The number of blocks in
//! the whole file comes from the closed bios enumeration, not from the file.

use vstd::prelude::*;

use crate::cursor::Cursor;
use crate::text::{
    parsed_u32, parsed_u8, quote_trimmed, split_tokens, str_views, strip_quotes, token_u32,
    token_u8, tokens_of,
};
use crate::PrmParseError;

verus! {

/// The closed set of bioses, numbered 0 to 2 in the file.
#[derive(Debug, Clone, Copy, PartialEq, Eq, Structural)]
pub enum Bios {
    Eleepods,
    Beeboorats,
    Zeexes,
}

/// All bioses, in file order.
pub open spec fn bios_seq() -> Seq<Bios> {
    seq![Bios::Eleepods, Bios::Beeboorats, Bios::Zeexes]
}

/// The bios denoted by a bios number, if any.
pub open spec fn bios_from_u8(v: u8) -> Option<Bios> {
    if v == 0 {
        Some(Bios::Eleepods)
    } else if v == 1 {
        Some(Bios::Beeboorats)
    } else if v == 2 {
        Some(Bios::Zeexes)
    } else {
        None
    }
}

/// The bios named by a name token, if any.
pub open spec fn bios_from_chars(s: Seq<char>) -> Option<Bios> {
    if s == "Eleepods"@ {
        Some(Bios::Eleepods)
    } else if s == "Beeboorats"@ {
        Some(Bios::Beeboorats)
    } else if s == "Zeexes"@ {
        Some(Bios::Zeexes)
    } else {
        None
    }
}

impl Bios {
    /// The bios with a given number, if the number is in range.
    pub fn from_u8(v: u8) -> (r: Option<Bios>)
        ensures
            r == bios_from_u8(v),
    {
        if v == 0 {
            Some(Bios::Eleepods)
        } else if v == 1 {
            Some(Bios::Beeboorats)
        } else if v == 2 {
            Some(Bios::Zeexes)
        } else {
            None
        }
    }

    /// All bioses that exist in a PRM file, in order.
    pub fn into_iter() -> (r: Vec<Bios>)
        ensures
            r@ == bios_seq(),
    {
        let mut v: Vec<Bios> = Vec::new();
        v.push(Bios::Eleepods);
        v.push(Bios::Beeboorats);
        v.push(Bios::Zeexes);
        proof {
            assert(v@ =~= bios_seq());
        }
        v
    }

    /// The number of bioses.
    pub fn total() -> (r: usize)
        ensures
            r == bios_seq().len(),
    {
        3
    }

    /// The bios with a given name, if any.
    pub fn from_str(s: &str) -> (r: Result<Bios, ()>)
        ensures
            match r {
                Ok(b) => bios_from_chars(s@) == Some(b),
                Err(_) => bios_from_chars(s@) is None,
            },
    {
        let o = s.to_owned();
        if o.eq(&"Eleepods".to_owned()) {
            Ok(Bios::Eleepods)
        } else if o.eq(&"Beeboorats".to_owned()) {
            Ok(Bios::Beeboorats)
        } else if o.eq(&"Zeexes".to_owned()) {
            Ok(Bios::Zeexes)
        } else {
            Err(())
        }
    }
}

/// The two kinds of cult game.
#[derive(Debug, Clone, Copy, PartialEq, Eq, Structural)]
pub enum CultGameType {
    Race,
    Harvest,
}

/// The game kind named by a tag token, if any.
pub open spec fn game_type_from_chars(s: Seq<char>) -> Option<CultGameType> {
    if s == "RACE"@ {
        Some(CultGameType::Race)
    } else if s == "HARVEST"@ {
        Some(CultGameType::Harvest)
    } else {
        None
    }
}

impl CultGameType {
    /// The game kind with a given tag, if any.
    pub fn from_str(s: &str) -> (r: Result<CultGameType, ()>)
        ensures
            match r {
                Ok(t) => game_type_from_chars(s@) == Some(t),
                Err(_) => game_type_from_chars(s@) is None,
            },
    {
        let o = s.to_owned();
        if o.eq(&"RACE".to_owned()) {
            Ok(CultGameType::Race)
        } else if o.eq(&"HARVEST".to_owned()) {
            Ok(CultGameType::Harvest)
        } else {
            Err(())
        }
    }
}

/// A shared query for the kind of a cult game value.
pub trait CultGameTrait {
    /// The kind of this game.
    fn get_type(&self) -> CultGameType;
}

/// Field errors of a harvest game line.
#[derive(Debug, Clone, Copy, PartialEq, Eq, Structural)]
pub enum CultGameHarvestParseError {
    GameTypeName,
    GoodsName,
    GoodsCount,
    Destination,
    RottenGoodsName,
    UnexpectedAdditionalParameter,
}

/// A harvest game: gather goods and deliver them.
#[derive(Debug)]
pub struct CultGameHarvest {
    /// Name of the goods counted in the game.
    pub goods_type_name: String,
    /// Count of the goods.
    pub goods_count: u32,
    /// Name of the goods' final destination.
    pub destination_name: String,
    /// Name of the rotten form of the goods.
    pub rotten_goods_type_name: String,
}

/// The mathematical content of a `CultGameHarvest`.
pub ghost struct CultGameHarvestV {
    pub goods_type_name: Seq<char>,
    pub goods_count: u32,
    pub destination_name: Seq<char>,
    pub rotten_goods_type_name: Seq<char>,
}

impl View for CultGameHarvest {
    type V = CultGameHarvestV;

    open spec fn view(&self) -> CultGameHarvestV {
        CultGameHarvestV {
            goods_type_name: self.goods_type_name@,
            goods_count: self.goods_count,
            destination_name: self.destination_name@,
            rotten_goods_type_name: self.rotten_goods_type_name@,
        }
    }
}

/// The harvest game denoted by one line's tokens: the `HARVEST` tag, a goods
/// name, a count, a destination and a rotten-goods name, and nothing more.
pub open spec fn harvest_from_tokens(ts: Seq<Seq<char>>) -> Result<
    CultGameHarvestV,
    CultGameHarvestParseError,
> {
    if ts.len() < 1 || ts[0] != "HARVEST"@ {
        Err(CultGameHarvestParseError::GameTypeName)
    } else if ts.len() < 2 {
        Err(CultGameHarvestParseError::GoodsName)
    } else if ts.len() < 3 || parsed_u32(ts[2]) is None {
        Err(CultGameHarvestParseError::GoodsCount)
    } else if ts.len() < 4 {
        Err(CultGameHarvestParseError::Destination)
    } else if ts.len() < 5 {
        Err(CultGameHarvestParseError::RottenGoodsName)
    } else if ts.len() > 5 {
        Err(CultGameHarvestParseError::UnexpectedAdditionalParameter)
    } else {
        Ok(
            CultGameHarvestV {
                goods_type_name: ts[1],
                goods_count: parsed_u32(ts[2])->Some_0,
                destination_name: ts[3],
                rotten_goods_type_name: ts[4],
            },
        )
    }
}

impl CultGameHarvest {
    /// Parse one cleaned line as a harvest game.
    pub fn from_prmrow(row: &str) -> (r: Result<CultGameHarvest, CultGameHarvestParseError>)
        ensures
            match r {
                Ok(g) => harvest_from_tokens(tokens_of(row@)) == Ok::<
                    CultGameHarvestV,
                    CultGameHarvestParseError,
                >(g@),
                Err(e) => harvest_from_tokens(tokens_of(row@)) == Err::<
                    CultGameHarvestV,
                    CultGameHarvestParseError,
                >(e),
            },
    {
        let toks = split_tokens(row);
        let ghost ts = tokens_of(row@);
        proof {
            assert(forall|i: int| 0 <= i < toks@.len() ==> ts[i] == #[trigger] toks@[i]@);
        }
        if toks.len() < 1 || !toks[0].eq(&"HARVEST".to_owned()) {
            return Err(CultGameHarvestParseError::GameTypeName);
        }
        if toks.len() < 2 {
            return Err(CultGameHarvestParseError::GoodsName);
        }
        let goods_count = match token_u32(&toks, 2) {
            Some(v) => v,
            None => {
                return Err(CultGameHarvestParseError::GoodsCount);
            },
        };
        if toks.len() < 4 {
            return Err(CultGameHarvestParseError::Destination);
        }
        if toks.len() < 5 {
            return Err(CultGameHarvestParseError::RottenGoodsName);
        }
        if toks.len() > 5 {
            return Err(CultGameHarvestParseError::UnexpectedAdditionalParameter);
        }
        Ok(
            CultGameHarvest {
                goods_type_name: toks[1].clone(),
                goods_count,
                destination_name: toks[3].clone(),
                rotten_goods_type_name: toks[4].clone(),
            },
        )
    }
}

impl CultGameTrait for CultGameHarvest {
    fn get_type(&self) -> CultGameType {
        CultGameType::Harvest
    }
}

/// Field errors of a race game line.
#[derive(Debug, Clone, Copy, PartialEq, Eq, Structural)]
pub enum CultGameRaceParseError {
    GameTypeName,
    SoutceName,
    DestinationName,
    GoodsBeginName,
    GoodsEndName,
    GoodsBeginCount,
    GoodsEndgCount,
    RottenGoodsName,
    UnexpectedAdditionalParameter,
}

/// A race game: carry goods from a source to a destination.
#[derive(Debug)]
pub struct CultGameRace {
    /// Name of the race's starting point.
    pub source_name: String,
    /// Name of the race's final point.
    pub destination_name: String,
    /// Name of the goods given out.
    pub goods_type_beg_name: String,
    /// Count of the goods given out.
    pub goods_count_beg: u32,
    /// Name of the goods taken in.
    pub goods_type_end_name: String,
    /// Count of the goods taken in.
    pub goods_count_end: u32,
    /// Name of the rotten form of the goods.
    pub rotten_goods_type_name: String,
}

/// The mathematical content of a `CultGameRace`.
pub ghost struct CultGameRaceV {
    pub source_name: Seq<char>,
    pub destination_name: Seq<char>,
    pub goods_type_beg_name: Seq<char>,
    pub goods_count_beg: u32,
    pub goods_type_end_name: Seq<char>,
    pub goods_count_end: u32,
    pub rotten_goods_type_name: Seq<char>,
}

impl View for CultGameRace {
    type V = CultGameRaceV;

    open spec fn view(&self) -> CultGameRaceV {
        CultGameRaceV {
            source_name: self.source_name@,
            destination_name: self.destination_name@,
            goods_type_beg_name: self.goods_type_beg_name@,
            goods_count_beg: self.goods_count_beg,
            goods_type_end_name: self.goods_type_end_name@,
            goods_count_end: self.goods_count_end,
            rotten_goods_type_name: self.rotten_goods_type_name@,
        }
    }
}

/// The race game denoted by one line's tokens: the `RACE` tag, a source, the
/// outgoing goods and count, a destination, the incoming goods and count,
/// and a rotten-goods name, and nothing more.
pub open spec fn race_from_tokens(ts: Seq<Seq<char>>) -> Result<
    CultGameRaceV,
    CultGameRaceParseError,
> {
    if ts.len() < 1 || ts[0] != "RACE"@ {
        Err(CultGameRaceParseError::GameTypeName)
    } else if ts.len() < 2 {
        Err(CultGameRaceParseError::SoutceName)
    } else if ts.len() < 3 {
        Err(CultGameRaceParseError::GoodsBeginName)
    } else if ts.len() < 4 || parsed_u32(ts[3]) is None {
        Err(CultGameRaceParseError::GoodsBeginCount)
    } else if ts.len() < 5 {
        Err(CultGameRaceParseError::DestinationName)
    } else if ts.len() < 6 {
        Err(CultGameRaceParseError::GoodsEndName)
    } else if ts.len() < 7 || parsed_u32(ts[6]) is None {
        Err(CultGameRaceParseError::GoodsEndgCount)
    } else if ts.len() < 8 {
        Err(CultGameRaceParseError::RottenGoodsName)
    } else if ts.len() > 8 {
        Err(CultGameRaceParseError::UnexpectedAdditionalParameter)
    } else {
        Ok(
            CultGameRaceV {
                source_name: ts[1],
                destination_name: ts[4],
                goods_type_beg_name: ts[2],
                goods_count_beg: parsed_u32(ts[3])->Some_0,
                goods_type_end_name: ts[5],
                goods_count_end: parsed_u32(ts[6])->Some_0,
                rotten_goods_type_name: ts[7],
            },
        )
    }
}

impl CultGameRace {
    /// Parse one cleaned line as a race game.
    pub fn from_prmrow(row: &str) -> (r: Result<CultGameRace, CultGameRaceParseError>)
        ensures
            match r {
                Ok(g) => race_from_tokens(tokens_of(row@)) == Ok::<
                    CultGameRaceV,
                    CultGameRaceParseError,
                >(g@),
                Err(e) => race_from_tokens(tokens_of(row@)) == Err::<
                    CultGameRaceV,
                    CultGameRaceParseError,
                >(e),
            },
    {
        let toks = split_tokens(row);
        let ghost ts = tokens_of(row@);
        proof {
            assert(forall|i: int| 0 <= i < toks@.len() ==> ts[i] == #[trigger] toks@[i]@);
        }
        if toks.len() < 1 || !toks[0].eq(&"RACE".to_owned()) {
            return Err(CultGameRaceParseError::GameTypeName);
        }
        if toks.len() < 2 {
            return Err(CultGameRaceParseError::SoutceName);
        }
        if toks.len() < 3 {
            return Err(CultGameRaceParseError::GoodsBeginName);
        }
        let goods_count_beg = match token_u32(&toks, 3) {
            Some(v) => v,
            None => {
                return Err(CultGameRaceParseError::GoodsBeginCount);
            },
        };
        if toks.len() < 5 {
            return Err(CultGameRaceParseError::DestinationName);
        }
        if toks.len() < 6 {
            return Err(CultGameRaceParseError::GoodsEndName);
        }
        let goods_count_end = match token_u32(&toks, 6) {
            Some(v) => v,
            None => {
                return Err(CultGameRaceParseError::GoodsEndgCount);
            },
        };
        if toks.len() < 8 {
            return Err(CultGameRaceParseError::RottenGoodsName);
        }
        if toks.len() > 8 {
            return Err(CultGameRaceParseError::UnexpectedAdditionalParameter);
        }
        Ok(
            CultGameRace {
                source_name: toks[1].clone(),
                destination_name: toks[4].clone(),
                goods_type_beg_name: toks[2].clone(),
                goods_count_beg,
                goods_type_end_name: toks[5].clone(),
                goods_count_end,
                rotten_goods_type_name: toks[7].clone(),
            },
        )
    }
}

impl CultGameTrait for CultGameRace {
    fn get_type(&self) -> CultGameType {
        CultGameType::Race
    }
}

/// Failures of a cult game line.
#[derive(Debug, Clone, Copy, PartialEq, Eq)]
pub enum CultGameParseError {
    Harvest(CultGameHarvestParseError),
    Race(CultGameRaceParseError),
    /// The leading tag token names no known game kind.
    IncorrectGameType,
    /// A known tag with the wrong number of following tokens.
    IncorrectCountProperties(Option<CultGameType>),
    /// The game line is missing entirely.
    Empty,
}

/// A cult game of either kind.
#[derive(Debug)]
pub enum CultGame {
    Harvest(CultGameHarvest),
    Race(CultGameRace),
}

/// The mathematical content of a `CultGame`.
pub ghost enum CultGameV {
    Harvest(CultGameHarvestV),
    Race(CultGameRaceV),
}

impl View for CultGame {
    type V = CultGameV;

    open spec fn view(&self) -> CultGameV {
        match self {
            CultGame::Harvest(g) => CultGameV::Harvest(g@),
            CultGame::Race(g) => CultGameV::Race(g@),
        }
    }
}

/// The optional cult game denoted by one line's tokens: the reserved literal
/// `none` alone means "no game"; otherwise the leading tag selects the kind,
/// which fixes the token count.
pub open spec fn cult_game_from_tokens(ts: Seq<Seq<char>>) -> Result<
    Option<CultGameV>,
    CultGameParseError,
> {
    if ts.len() == 0 {
        Err(CultGameParseError::Empty)
    } else if ts[0] == "none"@ {
        if ts.len() == 1 {
            Ok(None)
        } else {
            Err(CultGameParseError::IncorrectCountProperties(None))
        }
    } else if ts[0] == "HARVEST"@ {
        if ts.len() == 5 {
            match harvest_from_tokens(ts) {
                Ok(g) => Ok(Some(CultGameV::Harvest(g))),
                Err(e) => Err(CultGameParseError::Harvest(e)),
            }
        } else {
            Err(CultGameParseError::IncorrectCountProperties(Some(CultGameType::Harvest)))
        }
    } else if ts[0] == "RACE"@ {
        if ts.len() == 8 {
            match race_from_tokens(ts) {
                Ok(g) => Ok(Some(CultGameV::Race(g))),
                Err(e) => Err(CultGameParseError::Race(e)),
            }
        } else {
            Err(CultGameParseError::IncorrectCountProperties(Some(CultGameType::Race)))
        }
    } else {
        Err(CultGameParseError::IncorrectGameType)
    }
}

impl CultGame {
    /// Parse one cleaned line as an optional cult game.
    pub fn from_prmrow(row: &str) -> (r: Result<Option<CultGame>, CultGameParseError>)
        ensures
            match r {
                Ok(g) => cult_game_from_tokens(tokens_of(row@)) == Ok::<
                    Option<CultGameV>,
                    CultGameParseError,
                >(
                    match g {
                        Some(g) => Some(g@),
                        None => None,
                    },
                ),
                Err(e) => cult_game_from_tokens(tokens_of(row@)) == Err::<
                    Option<CultGameV>,
                    CultGameParseError,
                >(e),
            },
    {
        let toks = split_tokens(row);
        let ghost ts = tokens_of(row@);
        proof {
            assert(forall|i: int| 0 <= i < toks@.len() ==> ts[i] == #[trigger] toks@[i]@);
        }
        if toks.len() == 0 {
            return Err(CultGameParseError::Empty);
        }
        if toks[0].eq(&"none".to_owned()) {
            if toks.len() == 1 {
                return Ok(None);
            } else {
                return Err(CultGameParseError::IncorrectCountProperties(None));
            }
        }
        if toks[0].eq(&"HARVEST".to_owned()) {
            if toks.len() == 5 {
                match CultGameHarvest::from_prmrow(row) {
                    Ok(g) => Ok(Some(CultGame::Harvest(g))),
                    Err(e) => Err(CultGameParseError::Harvest(e)),
                }
            } else {
                Err(CultGameParseError::IncorrectCountProperties(Some(CultGameType::Harvest)))
            }
        } else if toks[0].eq(&"RACE".to_owned()) {
            if toks.len() == 8 {
                match CultGameRace::from_prmrow(row) {
                    Ok(g) => Ok(Some(CultGame::Race(g))),
                    Err(e) => Err(CultGameParseError::Race(e)),
                }
            } else {
                Err(CultGameParseError::IncorrectCountProperties(Some(CultGameType::Race)))
            }
        } else {
            Err(CultGameParseError::IncorrectGameType)
        }
    }
}

impl CultGameTrait for CultGame {
    fn get_type(&self) -> CultGameType {
        match self {
            CultGame::Harvest(_) => CultGameType::Harvest,
            CultGame::Race(_) => CultGameType::Race,
        }
    }
}

/// Field errors of a stage line.
#[derive(Debug, Clone, Copy, PartialEq, Eq, Structural)]
pub enum CultStageParseError {
    Name,
    Cirt,
    Time,
    Price,
    Palette,
    UnexpectedAdditionalParameter,
    /// The stage line is missing entirely.
    Empty,
}

/// Description of one cycle stage.
#[derive(Debug)]
pub struct CultStage {
    /// Name of the stage, with surrounding double quotes removed.
    pub name: String,
    /// Amount of cirt needed to finish the period.
    pub cirt: u32,
    /// Half-life time, in minutes.
    pub time: u32,
    /// Price coefficient.
    pub price: u32,
    /// Path to the resource file with the stage's palette.
    pub palette: String,
}

/// The mathematical content of a `CultStage`.
pub ghost struct CultStageV {
    pub name: Seq<char>,
    pub cirt: u32,
    pub time: u32,
    pub price: u32,
    pub palette: Seq<char>,
}

impl View for CultStage {
    type V = CultStageV;

    open spec fn view(&self) -> CultStageV {
        CultStageV {
            name: self.name@,
            cirt: self.cirt,
            time: self.time,
            price: self.price,
            palette: self.palette@,
        }
    }
}

/// The stage denoted by one line's tokens: a quoted name, three numbers and
/// a palette path, and nothing more.
pub open spec fn stage_from_tokens(ts: Seq<Seq<char>>) -> Result<CultStageV, CultStageParseError> {
    if ts.len() < 1 {
        Err(CultStageParseError::Name)
    } else if ts.len() < 2 || parsed_u32(ts[1]) is None {
        Err(CultStageParseError::Cirt)
    } else if ts.len() < 3 || parsed_u32(ts[2]) is None {
        Err(CultStageParseError::Time)
    } else if ts.len() < 4 || parsed_u32(ts[3]) is None {
        Err(CultStageParseError::Price)
    } else if ts.len() < 5 {
        Err(CultStageParseError::Palette)
    } else if ts.len() > 5 {
        Err(CultStageParseError::UnexpectedAdditionalParameter)
    } else {
        Ok(
            CultStageV {
                name: quote_trimmed(ts[0]),
                cirt: parsed_u32(ts[1])->Some_0,
                time: parsed_u32(ts[2])->Some_0,
                price: parsed_u32(ts[3])->Some_0,
                palette: ts[4],
            },
        )
    }
}

impl CultStage {
    /// Parse one cleaned line as a stage.
    pub fn from_prmrow(row: &str) -> (r: Result<CultStage, CultStageParseError>)
        ensures
            match r {
                Ok(s) => stage_from_tokens(tokens_of(row@)) == Ok::<CultStageV, CultStageParseError>(
                    s@,
                ),
                Err(e) => stage_from_tokens(tokens_of(row@)) == Err::<
                    CultStageV,
                    CultStageParseError,
                >(e),
            },
    {
        let toks = split_tokens(row);
        let ghost ts = tokens_of(row@);
        proof {
            assert(forall|i: int| 0 <= i < toks@.len() ==> ts[i] == #[trigger] toks@[i]@);
        }
        if toks.len() < 1 {
            return Err(CultStageParseError::Name);
        }
        let cirt = match token_u32(&toks, 1) {
            Some(v) => v,
            None => {
                return Err(CultStageParseError::Cirt);
            },
        };
        let time = match token_u32(&toks, 2) {
            Some(v) => v,
            None => {
                return Err(CultStageParseError::Time);
            },
        };
        let price = match token_u32(&toks, 3) {
            Some(v) => v,
            None => {
                return Err(CultStageParseError::Price);
            },
        };
        if toks.len() < 5 {
            return Err(CultStageParseError::Palette);
        }
        if toks.len() > 5 {
            return Err(CultStageParseError::UnexpectedAdditionalParameter);
        }
        let name = strip_quotes(toks[0].as_str());
        let palette = toks[4].clone();
        Ok(CultStage { name, cirt, time, price, palette })
    }
}

/// One cycle together with its cult game, if any.
#[derive(Debug)]
pub struct Cult {
    stage: CultStage,
    game: Option<CultGame>,
}

/// The mathematical content of a `Cult`.
pub ghost struct CultV {
    pub stage: CultStageV,
    pub game: Option<CultGameV>,
}

impl View for Cult {
    type V = CultV;

    closed spec fn view(&self) -> CultV {
        CultV {
            stage: self.stage@,
            game: match self.game {
                Some(g) => Some(g@),
                None => None,
            },
        }
    }
}

impl Cult {
    /// The cycle's stage description.
    pub fn stage(&self) -> (r: &CultStage)
        ensures
            r@ == self@.stage,
    {
        &self.stage
    }

    /// The cult game of the cycle, if any.
    pub fn game(&self) -> (r: Option<&CultGame>)
        ensures
            match r {
                Some(g) => self@.game == Some(g@),
                None => self@.game is None,
            },
    {
        self.game.as_ref()
    }
}

/// Failures of a bunch block.
#[derive(Debug, Clone, Copy, PartialEq, Eq)]
pub enum BunchParseError {
    /// The title line of the block is missing or malformed.
    Title,
    CultStage(CultStageParseError),
    CultGame(CultGameParseError),
}

/// The title fields denoted by a title line's tokens: an escave name, a bios
/// number and a non-zero cycle count, and nothing more; any fault is the one
/// title error.
pub open spec fn bunch_title_from_tokens(ts: Seq<Seq<char>>) -> Result<
    (Seq<char>, Bios, u32),
    BunchParseError,
> {
    if ts.len() < 1 {
        Err(BunchParseError::Title)
    } else if ts.len() < 2 || parsed_u8(ts[1]) is None || bios_from_u8(parsed_u8(ts[1])->Some_0)
        is None {
        Err(BunchParseError::Title)
    } else if ts.len() < 3 || parsed_u32(ts[2]) is None || parsed_u32(ts[2])->Some_0 == 0 {
        Err(BunchParseError::Title)
    } else if ts.len() > 3 {
        Err(BunchParseError::Title)
    } else {
        Ok((ts[0], bios_from_u8(parsed_u8(ts[1])->Some_0)->Some_0, parsed_u32(ts[2])->Some_0))
    }
}

/// One cycle unit denoted by the start of `lines`, together with how many
/// lines it consumes: a stage line, then a game line; a missing line is an
/// error distinct from a malformed line's own failure.
pub open spec fn cult_unit_from_lines(lines: Seq<Seq<char>>) -> (Result<CultV, BunchParseError>, int) {
    if lines.len() == 0 {
        (Err(BunchParseError::CultStage(CultStageParseError::Empty)), 0)
    } else {
        match stage_from_tokens(tokens_of(lines[0])) {
            Err(e) => (Err(BunchParseError::CultStage(e)), 1),
            Ok(st) => {
                if lines.len() < 2 {
                    (Err(BunchParseError::CultGame(CultGameParseError::Empty)), 1)
                } else {
                    match cult_game_from_tokens(tokens_of(lines[1])) {
                        Err(e) => (Err(BunchParseError::CultGame(e)), 2),
                        Ok(g) => (Ok(CultV { stage: st, game: g }), 2),
                    }
                }
            },
        }
    }
}

/// The cycle units denoted by `lines` when `k` units are owed, together with
/// how many lines they consume.
pub open spec fn cults_from_lines(lines: Seq<Seq<char>>, k: int) -> (Result<
    Seq<CultV>,
    BunchParseError,
>, int)
    decreases k,
{
    if k <= 0 {
        (Ok(Seq::empty()), 0)
    } else {
        let u = cult_unit_from_lines(lines);
        match u.0 {
            Err(e) => (Err(e), u.1),
            Ok(c) => {
                let rec = cults_from_lines(lines.skip(u.1), k - 1);
                match rec.0 {
                    Ok(rest) => (Ok(seq![c] + rest), rec.1 + u.1),
                    Err(e) => (Err(e), rec.1 + u.1),
                }
            },
        }
    }
}

/// A cycle unit consumes at most two lines, and never more than there are.
pub proof fn lemma_cult_unit_consumed(lines: Seq<Seq<char>>)
    ensures
        0 <= cult_unit_from_lines(lines).1 <= lines.len(),
        cult_unit_from_lines(lines).1 <= 2,
{
}

/// The cycle units never consume more lines than there are.
pub proof fn lemma_cults_consumed(lines: Seq<Seq<char>>, k: int)
    ensures
        0 <= cults_from_lines(lines, k).1 <= lines.len(),
    decreases k,
{
    if k <= 0 {
    } else {
        lemma_cult_unit_consumed(lines);
        let u = cult_unit_from_lines(lines);
        match u.0 {
            Err(_) => {},
            Ok(_) => {
                lemma_cults_consumed(lines.skip(u.1), k - 1);
            },
        }
    }
}

/// One bunch: the cycles of one bios at one escave.
#[derive(Debug)]
#[non_exhaustive]
pub struct Bunch {
    /// The bios this bunch belongs to.
    pub bios: Bios,
    /// Name of the escave the bunch lies in.
    pub escave_name: String,
    /// The cycles and their cult games.
    pub cults: Vec<Cult>,
}

/// The mathematical content of a `Bunch`.
pub ghost struct BunchV {
    pub bios: Bios,
    pub escave_name: Seq<char>,
    pub cults: Seq<CultV>,
}

impl View for Bunch {
    type V = BunchV;

    open spec fn view(&self) -> BunchV {
        BunchV {
            bios: self.bios,
            escave_name: self.escave_name@,
            cults: self.cults@.map_values(|c: Cult| c@),
        }
    }
}

/// The bunch denoted by the start of `lines`, together with how many lines
/// it consumes: a title line, then as many cycle units as the title
/// declares.
pub open spec fn bunch_from_lines(lines: Seq<Seq<char>>) -> (Result<BunchV, BunchParseError>, int) {
    if lines.len() == 0 {
        (Err(BunchParseError::Title), 0)
    } else {
        match bunch_title_from_tokens(tokens_of(lines[0])) {
            Err(e) => (Err(e), 1),
            Ok(t) => {
                let rec = cults_from_lines(lines.skip(1), t.2 as int);
                match rec.0 {
                    Ok(cults) => (
                        Ok(BunchV { bios: t.1, escave_name: t.0, cults }),
                        rec.1 + 1,
                    ),
                    Err(e) => (Err(e), rec.1 + 1),
                }
            },
        }
    }
}

/// A bunch consumes at least its title line and at most all lines.
pub proof fn lemma_bunch_consumed(lines: Seq<Seq<char>>)
    ensures
        lines.len() == 0 ==> bunch_from_lines(lines).1 == 0,
        lines.len() > 0 ==> 1 <= bunch_from_lines(lines).1 <= lines.len(),
{
    if lines.len() > 0 {
        match bunch_title_from_tokens(tokens_of(lines[0])) {
            Err(_) => {},
            Ok(t) => {
                lemma_cults_consumed(lines.skip(1), t.2 as int);
            },
        }
    }
}

fn cult_from_cursor(cur: &mut Cursor<'_>) -> (r: Result<Cult, BunchParseError>)
    requires
        old(cur).wf(),
    ensures
        final(cur).wf(),
        final(cur).lines_view() == old(cur).lines_view(),
        final(cur).pos_view() == old(cur).pos_view() + cult_unit_from_lines(
            old(cur).remaining(),
        ).1,
        match r {
            Ok(c) => cult_unit_from_lines(old(cur).remaining()).0 == Ok::<CultV, BunchParseError>(
                c@,
            ),
            Err(e) => cult_unit_from_lines(old(cur).remaining()).0 == Err::<CultV, BunchParseError>(
                e,
            ),
        },
{
    let ghost rem = old(cur).remaining();
    let stage_row = match cur.next() {
        Some(s) => s,
        None => {
            return Err(BunchParseError::CultStage(CultStageParseError::Empty));
        },
    };
    proof {
        assert(rem[0] == stage_row@);
    }
    let stage = match CultStage::from_prmrow(stage_row.as_str()) {
        Ok(s) => s,
        Err(e) => {
            return Err(BunchParseError::CultStage(e));
        },
    };
    let game_row = match cur.next() {
        Some(g) => g,
        None => {
            return Err(BunchParseError::CultGame(CultGameParseError::Empty));
        },
    };
    proof {
        assert(rem[1] == game_row@);
    }
    let game = match CultGame::from_prmrow(game_row.as_str()) {
        Ok(g) => g,
        Err(e) => {
            return Err(BunchParseError::CultGame(e));
        },
    };
    proof {
        let ghost gmv = (match game {
            Some(ref g) => Some(g@),
            None => None::<CultGameV>,
        });
        assert(cult_unit_from_lines(rem).0 == Ok::<CultV, BunchParseError>(
            CultV { stage: stage@, game: gmv },
        ));
    }
    Ok(Cult { stage, game })
}

impl Bunch {
    /// The number of periods in the bunch's cycle.
    pub fn cycles(&self) -> (r: usize)
        ensures
            r == self@.cults.len(),
    {
        self.cults.len()
    }

    /// Parse one bunch block from the cursor, advancing it by exactly the
    /// lines consumed, also when the block fails part-way.
    #[verifier::rlimit(100)]
    pub fn from_prmrow_iter(cur: &mut Cursor<'_>) -> (r: Result<Bunch, BunchParseError>)
        requires
            old(cur).wf(),
        ensures
            final(cur).wf(),
            final(cur).lines_view() == old(cur).lines_view(),
            final(cur).pos_view() == old(cur).pos_view() + bunch_from_lines(
                old(cur).remaining(),
            ).1,
            match r {
                Ok(b) => bunch_from_lines(old(cur).remaining()).0 == Ok::<BunchV, BunchParseError>(
                    b@,
                ),
                Err(e) => bunch_from_lines(old(cur).remaining()).0 == Err::<BunchV, BunchParseError>(
                    e,
                ),
            },
    {
        let ghost rem = old(cur).remaining();
        let row = match cur.next() {
            Some(row) => row,
            None => {
                return Err(BunchParseError::Title);
            },
        };
        proof {
            assert(rem[0] == row@);
        }
        let toks = split_tokens(row.as_str());
        let ghost ts = tokens_of(rem[0]);
        proof {
            assert(forall|i: int| 0 <= i < toks@.len() ==> ts[i] == #[trigger] toks@[i]@);
        }
        if toks.len() < 1 {
            return Err(BunchParseError::Title);
        }
        let bios_id = match token_u8(&toks, 1) {
            Some(v) => v,
            None => {
                return Err(BunchParseError::Title);
            },
        };
        let bios = match Bios::from_u8(bios_id) {
            Some(b) => b,
            None => {
                return Err(BunchParseError::Title);
            },
        };
        let cycles = match token_u32(&toks, 2) {
            Some(c) => c,
            None => {
                return Err(BunchParseError::Title);
            },
        };
        if cycles == 0 {
            return Err(BunchParseError::Title);
        }
        if toks.len() > 3 {
            return Err(BunchParseError::Title);
        }
        let escave_name = toks[0].clone();
        let ghost crem = rem.skip(1);
        proof {
            assert(crem =~= cur.remaining());
        }
        let mut cults: Vec<Cult> = Vec::new();
        let mut done: u32 = 0;
        proof {
            assert(cults@.map_values(|c: Cult| c@) =~= Seq::<CultV>::empty());
        }
        while done < cycles
            invariant
                cur.wf(),
                cur.lines_view() == old(cur).lines_view(),
                old(cur).pos_view() + 1 <= cur.pos_view() <= cur.lines_view().len(),
                rem == old(cur).remaining(),
                rem.len() > 0,
                crem == rem.skip(1),
                0 <= done <= cycles,
                bunch_title_from_tokens(tokens_of(rem[0])) == Ok::<
                    (Seq<char>, Bios, u32),
                    BunchParseError,
                >((escave_name@, bios, cycles)),
                cults_from_lines(crem, cycles as int) == ({
                    let sub = cults_from_lines(cur.remaining(), cycles - done);
                    let c = cur.pos_view() - old(cur).pos_view() - 1;
                    (match sub.0 {
                        Ok(rest) => Ok::<Seq<CultV>, BunchParseError>(
                            cults@.map_values(|c: Cult| c@) + rest,
                        ),
                        Err(e) => Err::<Seq<CultV>, BunchParseError>(e),
                    }, sub.1 + c)
                }),
            decreases cycles - done,
        {
            let ghost top_rem = cur.remaining();
            proof {
                lemma_cult_unit_consumed(top_rem);
            }
            let unit = match cult_from_cursor(cur) {
                Ok(c) => c,
                Err(e) => {
                    return Err(e);
                },
            };
            let ghost old_cults = cults@.map_values(|c: Cult| c@);
            let ghost cv = unit@;
            cults.push(unit);
            done = done + 1;
            proof {
                assert(cults@.map_values(|c: Cult| c@) =~= old_cults.push(cv));
                assert(top_rem.skip(cult_unit_from_lines(top_rem).1) =~= cur.remaining());
                let sub = cults_from_lines(cur.remaining(), cycles - done);
                match sub.0 {
                    Ok(rest) => {
                        assert(old_cults + (seq![cv] + rest) =~= old_cults.push(cv) + rest);
                    },
                    Err(_) => {},
                }
            }
        }
        proof {
            assert(cults_from_lines(cur.remaining(), 0).1 == 0);
            let gv = cults@.map_values(|c: Cult| c@);
            assert(gv + Seq::<CultV>::empty() =~= gv);
        }
        Ok(Bunch { bios, escave_name, cults })
    }
}

/// The bunch sequence denoted by `lines` when `k` blocks are owed.
pub open spec fn bunches_from_lines(lines: Seq<Seq<char>>, k: int) -> Result<
    Seq<BunchV>,
    BunchParseError,
>
    decreases k,
{
    if k <= 0 {
        Ok(Seq::empty())
    } else {
        let rec = bunch_from_lines(lines);
        match rec.0 {
            Ok(b) => match bunches_from_lines(lines.skip(rec.1), k - 1) {
                Ok(rest) => Ok(seq![b] + rest),
                Err(e) => Err(e),
            },
            Err(e) => Err(e),
        }
    }
}

/// The bunch table denoted by the cleaned content lines of the bunch file:
/// one block for each member of the closed bios enumeration, in order.  The
/// block count comes from that enumeration, not from the file.
pub open spec fn table_bunch_from_lines(lines: Seq<Seq<char>>) -> Result<
    Seq<BunchV>,
    BunchParseError,
> {
    bunches_from_lines(lines, bios_seq().len() as int)
}

/// The table of all bunches.
#[derive(Debug)]
#[non_exhaustive]
pub struct TableBunch {
    pub bunches: Vec<Bunch>,
}

impl View for TableBunch {
    type V = Seq<BunchV>;

    open spec fn view(&self) -> Seq<BunchV> {
        self.bunches@.map_values(|b: Bunch| b@)
    }
}

impl TableBunch {
    /// The number of bunches in the table.
    pub fn len(&self) -> (r: usize)
        ensures
            r == self@.len(),
    {
        self.bunches.len()
    }

    /// The name of the source file of this table.
    pub fn file_name() -> (r: &'static str)
        ensures
            r@ == "bunches.prm"@,
    {
        "bunches.prm"
    }

    /// Assemble the table from the cleaned content lines (the signature line
    /// already removed).
    pub fn from_rows(rows: &Vec<String>) -> (r: Result<TableBunch, PrmParseError>)
        ensures
            match r {
                Ok(t) => table_bunch_from_lines(str_views(rows@)) == Ok::<
                    Seq<BunchV>,
                    BunchParseError,
                >(t@),
                Err(e) => match e {
                    PrmParseError::Bunch(be) => table_bunch_from_lines(str_views(rows@)) == Err::<
                        Seq<BunchV>,
                        BunchParseError,
                    >(be),
                    _ => false,
                },
            },
    {
        let ghost all = str_views(rows@);
        let mut cur = Cursor::new(rows);
        let mut bunches: Vec<Bunch> = Vec::new();
        let total = Bios::total();
        let mut j: usize = 0;
        proof {
            assert(cur.remaining() =~= all);
            assert(bunches@.map_values(|b: Bunch| b@) =~= Seq::<BunchV>::empty());
        }
        while j < total
            invariant
                0 <= j <= total,
                total == bios_seq().len(),
                j == bunches@.len(),
                cur.wf(),
                cur.lines_view() == all,
                all == str_views(rows@),
                table_bunch_from_lines(all) == match bunches_from_lines(
                    cur.remaining(),
                    total - j,
                ) {
                    Ok(rest) => Ok::<Seq<BunchV>, BunchParseError>(
                        bunches@.map_values(|b: Bunch| b@) + rest,
                    ),
                    Err(e) => Err::<Seq<BunchV>, BunchParseError>(e),
                },
            decreases total - j,
        {
            let ghost rem = cur.remaining();
            proof {
                lemma_bunch_consumed(rem);
            }
            let ghost old_views = bunches@.map_values(|b: Bunch| b@);
            match Bunch::from_prmrow_iter(&mut cur) {
                Ok(b) => {
                    let ghost bv = b@;
                    bunches.push(b);
                    proof {
                        assert(cur.remaining() =~= rem.skip(bunch_from_lines(rem).1));
                        assert(bunches@.map_values(|b: Bunch| b@) =~= old_views.push(bv));
                        match bunches_from_lines(rem.skip(bunch_from_lines(rem).1), total - j - 1) {
                            Ok(rest) => {
                                assert(old_views + (seq![bv] + rest) =~= old_views.push(bv) + rest);
                            },
                            Err(_) => {},
                        }
                    }
                },
                Err(e) => {
                    return Err(PrmParseError::Bunch(e));
                },
            }
            j = j + 1;
        }
        proof {
            let gv = bunches@.map_values(|b: Bunch| b@);
            assert(gv + Seq::<BunchV>::empty() =~= gv);
        }
        Ok(TableBunch { bunches })
    }
}

} // verus!
