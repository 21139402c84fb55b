//! The mechos table: three count lines, then one mechos record per line.

use vstd::prelude::*;

use crate::text::{
    parse_usize, parsed_u32, parsed_u8, parsed_usize, split_tokens, str_views, token_u32, token_u8,
    tokens_of,
};
use crate::PrmParseError;

verus! {

/// The closed set of mechos types, numbered 0 to 5 in the file.
#[derive(Debug, Clone, Copy, PartialEq, Eq, Structural)]
pub enum Type {
    Raffa,
    Light,
    Microbus,
    Atw,
    Track,
    Special,
}

/// The mechos type denoted by a type number, if any.
pub open spec fn type_from_u8(v: u8) -> Option<Type> {
    if v == 0 {
        Some(Type::Raffa)
    } else if v == 1 {
        Some(Type::Light)
    } else if v == 2 {
        Some(Type::Microbus)
    } else if v == 3 {
        Some(Type::Atw)
    } else if v == 4 {
        Some(Type::Track)
    } else if v == 5 {
        Some(Type::Special)
    } else {
        None
    }
}

impl Type {
    /// The type named by a type number, if the number is in range.
    pub fn from_u8(v: u8) -> (r: Option<Type>)
        ensures
            r == type_from_u8(v),
    {
        if v == 0 {
            Some(Type::Raffa)
        } else if v == 1 {
            Some(Type::Light)
        } else if v == 2 {
            Some(Type::Microbus)
        } else if v == 3 {
            Some(Type::Atw)
        } else if v == 4 {
            Some(Type::Track)
        } else if v == 5 {
            Some(Type::Special)
        } else {
            None
        }
    }
}

/// A buy and sell price pair.
#[derive(Debug, Clone, Copy)]
pub struct Price {
    pub buy: u32,
    pub sell: u32,
}

impl View for Price {
    type V = Price;

    open spec fn view(&self) -> Price {
        *self
    }
}

/// One mechos record.
#[derive(Debug)]
pub struct Mechos {
    /// Name of the mechos.
    pub name: String,
    /// Type of the mechos.
    pub kind: Type,
    /// Prices of the mechos.
    pub price: Price,
    /// Capacity: the slot count of each of the four slot kinds.
    pub slots: (u8, u8, u8, u8),
    pub speed: u32,
    pub armor: u32,
    pub energy: u32,
    pub energy_delta: u32,
    pub energy_drop: u32,
    pub drop_time: u32,
    pub fire: u32,
    pub water: u32,
    pub oxygen: u32,
    pub fly: u32,
    pub damage: u32,
    pub teleport: u32,
}

/// The mathematical content of a `Mechos`.
pub ghost struct MechosV {
    pub name: Seq<char>,
    pub kind: Type,
    pub price: Price,
    pub slots: (u8, u8, u8, u8),
    pub speed: u32,
    pub armor: u32,
    pub energy: u32,
    pub energy_delta: u32,
    pub energy_drop: u32,
    pub drop_time: u32,
    pub fire: u32,
    pub water: u32,
    pub oxygen: u32,
    pub fly: u32,
    pub damage: u32,
    pub teleport: u32,
}

impl View for Mechos {
    type V = MechosV;

    open spec fn view(&self) -> MechosV {
        MechosV {
            name: self.name@,
            kind: self.kind,
            price: self.price,
            slots: self.slots,
            speed: self.speed,
            armor: self.armor,
            energy: self.energy,
            energy_delta: self.energy_delta,
            energy_drop: self.energy_drop,
            drop_time: self.drop_time,
            fire: self.fire,
            water: self.water,
            oxygen: self.oxygen,
            fly: self.fly,
            damage: self.damage,
            teleport: self.teleport,
        }
    }
}

/// Failures of the mechos table as a whole.
#[derive(Debug, PartialEq, Eq)]
pub enum MechosParseError {
    /// One of the three leading count lines is not a number.
    DigitCounters,
    /// A record's field failed to parse.
    FieldParseError(MechosFieldParseError),
}

/// Field errors of a mechos record.  The `Type` variant carries the
/// offending token's text, or a fixed marker when the token is absent.
#[derive(Debug, PartialEq, Eq)]
pub enum MechosFieldParseError {
    Name,
    Type(String),
    WrongType(u8),
    PriceBuy,
    PriceSell,
    Slot(usize),
    Speed,
    Armor,
    Energy,
    EnergyDelta,
    EnergyDrop,
    DropTime,
    Fire,
    Water,
    Oxygen,
    Fly,
    Damage,
    Teleport,
}

/// The mathematical content of a `MechosFieldParseError`.
pub ghost enum MechosFieldParseErrorV {
    Name,
    Type(Seq<char>),
    WrongType(u8),
    PriceBuy,
    PriceSell,
    Slot(usize),
    Speed,
    Armor,
    Energy,
    EnergyDelta,
    EnergyDrop,
    DropTime,
    Fire,
    Water,
    Oxygen,
    Fly,
    Damage,
    Teleport,
}

impl View for MechosFieldParseError {
    type V = MechosFieldParseErrorV;

    open spec fn view(&self) -> MechosFieldParseErrorV {
        match self {
            MechosFieldParseError::Name => MechosFieldParseErrorV::Name,
            MechosFieldParseError::Type(s) => MechosFieldParseErrorV::Type(s@),
            MechosFieldParseError::WrongType(v) => MechosFieldParseErrorV::WrongType(*v),
            MechosFieldParseError::PriceBuy => MechosFieldParseErrorV::PriceBuy,
            MechosFieldParseError::PriceSell => MechosFieldParseErrorV::PriceSell,
            MechosFieldParseError::Slot(i) => MechosFieldParseErrorV::Slot(*i),
            MechosFieldParseError::Speed => MechosFieldParseErrorV::Speed,
            MechosFieldParseError::Armor => MechosFieldParseErrorV::Armor,
            MechosFieldParseError::Energy => MechosFieldParseErrorV::Energy,
            MechosFieldParseError::EnergyDelta => MechosFieldParseErrorV::EnergyDelta,
            MechosFieldParseError::EnergyDrop => MechosFieldParseErrorV::EnergyDrop,
            MechosFieldParseError::DropTime => MechosFieldParseErrorV::DropTime,
            MechosFieldParseError::Fire => MechosFieldParseErrorV::Fire,
            MechosFieldParseError::Water => MechosFieldParseErrorV::Water,
            MechosFieldParseError::Oxygen => MechosFieldParseErrorV::Oxygen,
            MechosFieldParseError::Fly => MechosFieldParseErrorV::Fly,
            MechosFieldParseError::Damage => MechosFieldParseErrorV::Damage,
            MechosFieldParseError::Teleport => MechosFieldParseErrorV::Teleport,
        }
    }
}

/// The mathematical content of a `MechosParseError`.
pub ghost enum MechosParseErrorV {
    DigitCounters,
    FieldParseError(MechosFieldParseErrorV),
}

impl View for MechosParseError {
    type V = MechosParseErrorV;

    open spec fn view(&self) -> MechosParseErrorV {
        match self {
            MechosParseError::DigitCounters => MechosParseErrorV::DigitCounters,
            MechosParseError::FieldParseError(e) => MechosParseErrorV::FieldParseError(e@),
        }
    }
}

/// The mechos record denoted by one line's tokens: a name, a type number, a
/// price pair, four slot counts and twelve numeric fields; tokens beyond the
/// twentieth are ignored.
pub open spec fn mechos_from_tokens(ts: Seq<Seq<char>>) -> Result<MechosV, MechosFieldParseErrorV> {
    if ts.len() < 1 {
        Err(MechosFieldParseErrorV::Name)
    } else if ts.len() < 2 {
        Err(MechosFieldParseErrorV::Type("[expected a value]"@))
    } else if parsed_u8(ts[1]) is None {
        Err(MechosFieldParseErrorV::Type(ts[1]))
    } else if type_from_u8(parsed_u8(ts[1])->Some_0) is None {
        Err(MechosFieldParseErrorV::WrongType(parsed_u8(ts[1])->Some_0))
    } else if ts.len() < 3 || parsed_u32(ts[2]) is None {
        Err(MechosFieldParseErrorV::PriceBuy)
    } else if ts.len() < 4 || parsed_u32(ts[3]) is None {
        Err(MechosFieldParseErrorV::PriceSell)
    } else if ts.len() < 5 || parsed_u8(ts[4]) is None {
        Err(MechosFieldParseErrorV::Slot(0))
    } else if ts.len() < 6 || parsed_u8(ts[5]) is None {
        Err(MechosFieldParseErrorV::Slot(1))
    } else if ts.len() < 7 || parsed_u8(ts[6]) is None {
        Err(MechosFieldParseErrorV::Slot(2))
    } else if ts.len() < 8 || parsed_u8(ts[7]) is None {
        Err(MechosFieldParseErrorV::Slot(3))
    } else if ts.len() < 9 || parsed_u32(ts[8]) is None {
        Err(MechosFieldParseErrorV::Speed)
    } else if ts.len() < 10 || parsed_u32(ts[9]) is None {
        Err(MechosFieldParseErrorV::Armor)
    } else if ts.len() < 11 || parsed_u32(ts[10]) is None {
        Err(MechosFieldParseErrorV::Energy)
    } else if ts.len() < 12 || parsed_u32(ts[11]) is None {
        Err(MechosFieldParseErrorV::EnergyDelta)
    } else if ts.len() < 13 || parsed_u32(ts[12]) is None {
        Err(MechosFieldParseErrorV::EnergyDrop)
    } else if ts.len() < 14 || parsed_u32(ts[13]) is None {
        Err(MechosFieldParseErrorV::DropTime)
    } else if ts.len() < 15 || parsed_u32(ts[14]) is None {
        Err(MechosFieldParseErrorV::Fire)
    } else if ts.len() < 16 || parsed_u32(ts[15]) is None {
        Err(MechosFieldParseErrorV::Water)
    } else if ts.len() < 17 || parsed_u32(ts[16]) is None {
        Err(MechosFieldParseErrorV::Oxygen)
    } else if ts.len() < 18 || parsed_u32(ts[17]) is None {
        Err(MechosFieldParseErrorV::Fly)
    } else if ts.len() < 19 || parsed_u32(ts[18]) is None {
        Err(MechosFieldParseErrorV::Damage)
    } else if ts.len() < 20 || parsed_u32(ts[19]) is None {
        Err(MechosFieldParseErrorV::Teleport)
    } else {
        Ok(
            MechosV {
                name: ts[0],
                kind: type_from_u8(parsed_u8(ts[1])->Some_0)->Some_0,
                price: Price { buy: parsed_u32(ts[2])->Some_0, sell: parsed_u32(ts[3])->Some_0 },
                slots: (
                    parsed_u8(ts[4])->Some_0,
                    parsed_u8(ts[5])->Some_0,
                    parsed_u8(ts[6])->Some_0,
                    parsed_u8(ts[7])->Some_0,
                ),
                speed: parsed_u32(ts[8])->Some_0,
                armor: parsed_u32(ts[9])->Some_0,
                energy: parsed_u32(ts[10])->Some_0,
                energy_delta: parsed_u32(ts[11])->Some_0,
                energy_drop: parsed_u32(ts[12])->Some_0,
                drop_time: parsed_u32(ts[13])->Some_0,
                fire: parsed_u32(ts[14])->Some_0,
                water: parsed_u32(ts[15])->Some_0,
                oxygen: parsed_u32(ts[16])->Some_0,
                fly: parsed_u32(ts[17])->Some_0,
                damage: parsed_u32(ts[18])->Some_0,
                teleport: parsed_u32(ts[19])->Some_0,
            },
        )
    }
}

impl Mechos {
    /// Parse one cleaned line as a mechos record.
    pub fn from_prmrow(row: &str) -> (r: Result<Mechos, MechosFieldParseError>)
        ensures
            match r {
                Ok(m) => mechos_from_tokens(tokens_of(row@)) == Ok::<
                    MechosV,
                    MechosFieldParseErrorV,
                >(m@),
                Err(e) => mechos_from_tokens(tokens_of(row@)) == Err::<
                    MechosV,
                    MechosFieldParseErrorV,
                >(e@),
            },
    {
        let toks = split_tokens(row);
        let ghost ts = tokens_of(row@);
        proof {
            assert(forall|i: int| 0 <= i < toks@.len() ==> ts[i] == #[trigger] toks@[i]@);
        }
        if toks.len() < 1 {
            return Err(MechosFieldParseError::Name);
        }
        if toks.len() < 2 {
            return Err(MechosFieldParseError::Type("[expected a value]".to_owned()));
        }
        let type_id = match token_u8(&toks, 1) {
            Some(v) => v,
            None => {
                return Err(MechosFieldParseError::Type(toks[1].clone()));
            },
        };
        let kind = match Type::from_u8(type_id) {
            Some(t) => t,
            None => {
                return Err(MechosFieldParseError::WrongType(type_id));
            },
        };
        let buy = match token_u32(&toks, 2) {
            Some(v) => v,
            None => {
                return Err(MechosFieldParseError::PriceBuy);
            },
        };
        let sell = match token_u32(&toks, 3) {
            Some(v) => v,
            None => {
                return Err(MechosFieldParseError::PriceSell);
            },
        };
        let slot0 = match token_u8(&toks, 4) {
            Some(v) => v,
            None => {
                return Err(MechosFieldParseError::Slot(0));
            },
        };
        let slot1 = match token_u8(&toks, 5) {
            Some(v) => v,
            None => {
                return Err(MechosFieldParseError::Slot(1));
            },
        };
        let slot2 = match token_u8(&toks, 6) {
            Some(v) => v,
            None => {
                return Err(MechosFieldParseError::Slot(2));
            },
        };
        let slot3 = match token_u8(&toks, 7) {
            Some(v) => v,
            None => {
                return Err(MechosFieldParseError::Slot(3));
            },
        };
        let speed = match token_u32(&toks, 8) {
            Some(v) => v,
            None => {
                return Err(MechosFieldParseError::Speed);
            },
        };
        let armor = match token_u32(&toks, 9) {
            Some(v) => v,
            None => {
                return Err(MechosFieldParseError::Armor);
            },
        };
        let energy = match token_u32(&toks, 10) {
            Some(v) => v,
            None => {
                return Err(MechosFieldParseError::Energy);
            },
        };
        let energy_delta = match token_u32(&toks, 11) {
            Some(v) => v,
            None => {
                return Err(MechosFieldParseError::EnergyDelta);
            },
        };
        let energy_drop = match token_u32(&toks, 12) {
            Some(v) => v,
            None => {
                return Err(MechosFieldParseError::EnergyDrop);
            },
        };
        let drop_time = match token_u32(&toks, 13) {
            Some(v) => v,
            None => {
                return Err(MechosFieldParseError::DropTime);
            },
        };
        let fire = match token_u32(&toks, 14) {
            Some(v) => v,
            None => {
                return Err(MechosFieldParseError::Fire);
            },
        };
        let water = match token_u32(&toks, 15) {
            Some(v) => v,
            None => {
                return Err(MechosFieldParseError::Water);
            },
        };
        let oxygen = match token_u32(&toks, 16) {
            Some(v) => v,
            None => {
                return Err(MechosFieldParseError::Oxygen);
            },
        };
        let fly = match token_u32(&toks, 17) {
            Some(v) => v,
            None => {
                return Err(MechosFieldParseError::Fly);
            },
        };
        let damage = match token_u32(&toks, 18) {
            Some(v) => v,
            None => {
                return Err(MechosFieldParseError::Damage);
            },
        };
        let teleport = match token_u32(&toks, 19) {
            Some(v) => v,
            None => {
                return Err(MechosFieldParseError::Teleport);
            },
        };
        let name = toks[0].clone();
        Ok(
            Mechos {
                name,
                kind,
                price: Price { buy, sell },
                slots: (slot0, slot1, slot2, slot3),
                speed,
                armor,
                energy,
                energy_delta,
                energy_drop,
                drop_time,
                fire,
                water,
                oxygen,
                fly,
                damage,
                teleport,
            },
        )
    }
}

/// The mechos sequence denoted by the lines after the three count lines.
pub open spec fn mechoses_from_lines(lines: Seq<Seq<char>>) -> Result<
    Seq<MechosV>,
    MechosFieldParseErrorV,
>
    decreases lines.len(),
{
    if lines.len() == 0 {
        Ok(Seq::empty())
    } else {
        match mechos_from_tokens(tokens_of(lines[0])) {
            Ok(m) => match mechoses_from_lines(lines.skip(1)) {
                Ok(rest) => Ok(seq![m] + rest),
                Err(e) => Err(e),
            },
            Err(e) => Err(e),
        }
    }
}

/// The first three lines are whole-line numerals (the per-kind totals).
pub open spec fn mechos_header_ok(lines: Seq<Seq<char>>) -> bool {
    forall|i: int| 0 <= i < 3 && i < lines.len() ==> parsed_usize(#[trigger] lines[i]) is Some
}

/// The mechos table denoted by the cleaned content lines of the mechos
/// file: three count lines, then one record per line to the end of input.
pub open spec fn table_mechos_from_lines(lines: Seq<Seq<char>>) -> Result<
    Seq<MechosV>,
    MechosParseErrorV,
> {
    if !mechos_header_ok(lines) {
        Err(MechosParseErrorV::DigitCounters)
    } else {
        let body = if lines.len() <= 3 {
            Seq::<Seq<char>>::empty()
        } else {
            lines.skip(3)
        };
        match mechoses_from_lines(body) {
            Ok(s) => Ok(s),
            Err(e) => Err(MechosParseErrorV::FieldParseError(e)),
        }
    }
}

/// The table of all mechoses.
#[derive(Debug)]
pub struct TableMechos {
    mechoses: Vec<Mechos>,
}

impl View for TableMechos {
    type V = Seq<MechosV>;

    closed spec fn view(&self) -> Seq<MechosV> {
        self.mechoses@.map_values(|m: Mechos| m@)
    }
}

impl TableMechos {
    /// Read-only access to the parsed mechoses.
    pub fn mechoses(&self) -> (r: &[Mechos])
        ensures
            r@.map_values(|m: Mechos| m@) == self@,
    {
        self.mechoses.as_slice()
    }

    /// The name of the source file of this table.
    pub fn file_name() -> (r: &'static str)
        ensures
            r@ == "car.prm"@,
    {
        "car.prm"
    }

    /// Assemble the table from the cleaned content lines (the signature line
    /// already removed).
    pub fn from_rows(rows: &Vec<String>) -> (r: Result<TableMechos, PrmParseError>)
        ensures
            match r {
                Ok(t) => table_mechos_from_lines(str_views(rows@)) == Ok::<
                    Seq<MechosV>,
                    MechosParseErrorV,
                >(t@),
                Err(e) => match e {
                    PrmParseError::Mechos(me) => table_mechos_from_lines(str_views(rows@)) == Err::<
                        Seq<MechosV>,
                        MechosParseErrorV,
                    >(me@),
                    _ => false,
                },
            },
    {
        let ghost all = str_views(rows@);
        let hdr = if rows.len() < 3 {
            rows.len()
        } else {
            3
        };
        let mut h: usize = 0;
        while h < hdr
            invariant
                0 <= h <= hdr,
                hdr == if rows@.len() < 3 {
                    rows@.len() as int
                } else {
                    3
                },
                all == str_views(rows@),
                forall|i: int| 0 <= i < h ==> parsed_usize(#[trigger] all[i]) is Some,
            decreases hdr - h,
        {
            proof {
                assert(all[h as int] == rows@[h as int]@);
            }
            match parse_usize(rows[h].as_str()) {
                Some(_) => {},
                None => {
                    return Err(PrmParseError::Mechos(MechosParseError::DigitCounters));
                },
            }
            h = h + 1;
        }
        let mut mechoses: Vec<Mechos> = Vec::new();
        let mut i: usize = hdr;
        let ghost body = if all.len() <= 3 {
            Seq::<Seq<char>>::empty()
        } else {
            all.skip(3)
        };
        proof {
            assert(mechos_header_ok(all));
            if all.len() <= 3 {
                assert(all.skip(i as int).len() == 0);
            }
            assert(body =~= all.skip(i as int));
            assert(mechoses@.map_values(|m: Mechos| m@) =~= Seq::<MechosV>::empty());
        }
        while i < rows.len()
            invariant
                hdr <= i <= rows.len() || (rows.len() < hdr && i == hdr),
                3 >= hdr,
                i >= hdr,
                i <= rows@.len() || i == hdr,
                all == str_views(rows@),
                all.len() == rows@.len(),
                mechos_header_ok(all),
                body == if all.len() <= 3 {
                    Seq::<Seq<char>>::empty()
                } else {
                    all.skip(3)
                },
                i <= all.len() ==> mechoses_from_lines(body) == match mechoses_from_lines(
                    all.skip(i as int),
                ) {
                    Ok(rest) => Ok::<Seq<MechosV>, MechosFieldParseErrorV>(
                        mechoses@.map_values(|m: Mechos| m@) + rest,
                    ),
                    Err(e) => Err::<Seq<MechosV>, MechosFieldParseErrorV>(e),
                },
            decreases rows.len() - i,
        {
            let ghost rem = all.skip(i as int);
            proof {
                assert(rem[0] == rows@[i as int]@);
                assert(rem.skip(1) =~= all.skip(i as int + 1));
            }
            let ghost old_views = mechoses@.map_values(|m: Mechos| m@);
            match Mechos::from_prmrow(rows[i].as_str()) {
                Ok(m) => {
                    let ghost mv = m@;
                    mechoses.push(m);
                    proof {
                        assert(mechoses@.map_values(|m: Mechos| m@) =~= old_views.push(mv));
                        match mechoses_from_lines(all.skip(i as int + 1)) {
                            Ok(rest) => {
                                assert(old_views + (seq![mv] + rest) =~= old_views.push(mv) + rest);
                            },
                            Err(_) => {},
                        }
                    }
                },
                Err(e) => {
                    return Err(PrmParseError::Mechos(MechosParseError::FieldParseError(e)));
                },
            }
            i = i + 1;
        }
        proof {
            if all.len() > i {
            } else {
                assert(all.skip(all.len() as int) =~= Seq::<Seq<char>>::empty());
            }
            assert(mechoses@.map_values(|m: Mechos| m@) + Seq::<MechosV>::empty()
                =~= mechoses@.map_values(|m: Mechos| m@));
        }
        Ok(TableMechos { mechoses })
    }
}

} // verus!
