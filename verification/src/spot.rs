//! The spot table: each entity is a header line followed by a goods list
//! terminated by a line whose whole content is the reserved literal `none`.
//! The same literal in the header's personal-item position means "no
//! personal item" — a distinct use recognized independently.

use vstd::prelude::*;

use crate::cursor::Cursor;
use crate::text::{parsed_i32, split_tokens, str_views, token_i32, tokens_of};
use crate::PrmParseError;

verus! {

/// Field and structure errors of the spot table.
#[derive(Debug, Clone, Copy, PartialEq, Eq, Structural)]
pub enum SpotParseError {
    /// The header line of a block is missing.
    ExpectedEscaveTitleLine,
    UnexpectedAdditionalParameterAtEscaveTitleLine,
    Name,
    World,
    PosX,
    PosY,
    PersonalItem,
    /// The goods list ran out of lines before its `none` terminator.
    ExpectedTerminateLine,
    GoodsLine,
    UnexpectedAdditionalParameterAtGoodsLine,
}

/// One spot: a named place with a position, an optional personal item and a
/// goods list.
#[derive(Debug)]
pub struct Spot {
    /// Name of the escave.
    pub name: String,
    /// Name of the world the escave lies in.
    pub world_name: String,
    /// Abscissa of the escave.
    pub pos_x: i32,
    /// Ordinate of the escave.
    pub pos_y: i32,
    /// The advisor's personal item, if any.
    pub personal_item_name: Option<String>,
    /// The goods produced here and their destinations.
    pub goods: Vec<(String, String)>,
}

/// The mathematical content of a `Spot`.
pub ghost struct SpotV {
    pub name: Seq<char>,
    pub world_name: Seq<char>,
    pub pos_x: i32,
    pub pos_y: i32,
    pub personal_item_name: Option<Seq<char>>,
    pub goods: Seq<(Seq<char>, Seq<char>)>,
}

impl View for Spot {
    type V = SpotV;

    open spec fn view(&self) -> SpotV {
        SpotV {
            name: self.name@,
            world_name: self.world_name@,
            pos_x: self.pos_x,
            pos_y: self.pos_y,
            personal_item_name: match self.personal_item_name {
                Some(s) => Some(s@),
                None => None,
            },
            goods: self.goods@.map_values(|g: (String, String)| (g.0@, g.1@)),
        }
    }
}

/// The header fields denoted by a header line's tokens: a name, a world, two
/// coordinates, and an optional personal item, where the literal `none`
/// means "no personal item".
pub open spec fn spot_title_from_tokens(ts: Seq<Seq<char>>) -> Result<
    (Seq<char>, Seq<char>, i32, i32, Option<Seq<char>>),
    SpotParseError,
> {
    if ts.len() < 1 {
        Err(SpotParseError::Name)
    } else if ts.len() < 2 {
        Err(SpotParseError::World)
    } else if ts.len() < 3 || parsed_i32(ts[2]) is None {
        Err(SpotParseError::PosX)
    } else if ts.len() < 4 || parsed_i32(ts[3]) is None {
        Err(SpotParseError::PosY)
    } else if ts.len() > 5 {
        Err(SpotParseError::UnexpectedAdditionalParameterAtEscaveTitleLine)
    } else {
        let personal = if ts.len() == 5 && ts[4] != "none"@ {
            Some(ts[4])
        } else {
            None
        };
        Ok((ts[0], ts[1], parsed_i32(ts[2])->Some_0, parsed_i32(ts[3])->Some_0, personal))
    }
}

/// The goods list denoted by the lines that follow a header, together with
/// how many lines it consumes: two-token lines up to a consumed `none`
/// terminator line; running out of lines is the unterminated-list error.
pub open spec fn goods_from_lines(lines: Seq<Seq<char>>) -> (Result<
    Seq<(Seq<char>, Seq<char>)>,
    SpotParseError,
>, int)
    decreases lines.len(),
{
    if lines.len() == 0 {
        (Err(SpotParseError::ExpectedTerminateLine), 0)
    } else if lines[0] == "none"@ {
        (Ok(Seq::empty()), 1)
    } else {
        let ts = tokens_of(lines[0]);
        if ts.len() < 2 {
            (Err(SpotParseError::GoodsLine), 1)
        } else if ts.len() > 2 {
            (Err(SpotParseError::UnexpectedAdditionalParameterAtGoodsLine), 1)
        } else {
            let rec = goods_from_lines(lines.skip(1));
            match rec.0 {
                Ok(rest) => (Ok(seq![(ts[0], ts[1])] + rest), rec.1 + 1),
                Err(e) => (Err(e), rec.1 + 1),
            }
        }
    }
}

/// The goods list never consumes more lines than there are.
pub proof fn lemma_goods_consumed(lines: Seq<Seq<char>>)
    ensures
        0 <= goods_from_lines(lines).1 <= lines.len(),
    decreases lines.len(),
{
    if lines.len() == 0 {
    } else if lines[0] == "none"@ {
    } else {
        let ts = tokens_of(lines[0]);
        if ts.len() < 2 || ts.len() > 2 {
        } else {
            lemma_goods_consumed(lines.skip(1));
        }
    }
}

/// The spot denoted by the start of `lines`, together with how many lines it
/// consumes: a header line, then the goods list to its terminator.
pub open spec fn spot_from_lines(lines: Seq<Seq<char>>) -> (Result<SpotV, SpotParseError>, int) {
    if lines.len() == 0 {
        (Err(SpotParseError::ExpectedEscaveTitleLine), 0)
    } else {
        match spot_title_from_tokens(tokens_of(lines[0])) {
            Err(e) => (Err(e), 1),
            Ok(t) => {
                let rec = goods_from_lines(lines.skip(1));
                match rec.0 {
                    Ok(goods) => (
                        Ok(
                            SpotV {
                                name: t.0,
                                world_name: t.1,
                                pos_x: t.2,
                                pos_y: t.3,
                                personal_item_name: t.4,
                                goods,
                            },
                        ),
                        rec.1 + 1,
                    ),
                    Err(e) => (Err(e), rec.1 + 1),
                }
            },
        }
    }
}

/// A spot consumes at least its header line and at most all lines.
pub proof fn lemma_spot_consumed(lines: Seq<Seq<char>>)
    ensures
        lines.len() == 0 ==> spot_from_lines(lines).1 == 0,
        lines.len() > 0 ==> 1 <= spot_from_lines(lines).1 <= lines.len(),
{
    if lines.len() > 0 {
        lemma_goods_consumed(lines.skip(1));
    }
}

impl Spot {
    /// Parse one spot block from the cursor, advancing it by exactly the
    /// lines consumed, also when the block fails part-way.
    pub fn from_prmrow_iter(cur: &mut Cursor<'_>) -> (r: Result<Spot, SpotParseError>)
        requires
            old(cur).wf(),
        ensures
            final(cur).wf(),
            final(cur).lines_view() == old(cur).lines_view(),
            final(cur).pos_view() == old(cur).pos_view() + spot_from_lines(
                old(cur).remaining(),
            ).1,
            match r {
                Ok(s) => spot_from_lines(old(cur).remaining()).0 == Ok::<SpotV, SpotParseError>(s@),
                Err(e) => spot_from_lines(old(cur).remaining()).0 == Err::<SpotV, SpotParseError>(
                    e,
                ),
            },
    {
        let ghost rem = old(cur).remaining();
        let row = match cur.next() {
            Some(row) => row,
            None => {
                return Err(SpotParseError::ExpectedEscaveTitleLine);
            },
        };
        proof {
            assert(rem[0] == row@);
        }
        let toks = split_tokens(row.as_str());
        let ghost ts = tokens_of(rem[0]);
        proof {
            assert(forall|i: int| 0 <= i < toks@.len() ==> ts[i] == #[trigger] toks@[i]@);
        }
        if toks.len() < 1 {
            return Err(SpotParseError::Name);
        }
        if toks.len() < 2 {
            return Err(SpotParseError::World);
        }
        let pos_x = match token_i32(&toks, 2) {
            Some(v) => v,
            None => {
                return Err(SpotParseError::PosX);
            },
        };
        let pos_y = match token_i32(&toks, 3) {
            Some(v) => v,
            None => {
                return Err(SpotParseError::PosY);
            },
        };
        if toks.len() > 5 {
            return Err(SpotParseError::UnexpectedAdditionalParameterAtEscaveTitleLine);
        }
        let none_lit = "none".to_owned();
        let personal_item_name = if toks.len() == 5 && !toks[4].eq(&none_lit) {
            Some(toks[4].clone())
        } else {
            None
        };
        let name = toks[0].clone();
        let world_name = toks[1].clone();
        let ghost grem = rem.skip(1);
        proof {
            assert(grem =~= cur.remaining());
        }
        let mut goods: Vec<(String, String)> = Vec::new();
        proof {
            assert(goods@.map_values(|g: (String, String)| (g.0@, g.1@)) =~= Seq::<
                (Seq<char>, Seq<char>),
            >::empty());
        }
        loop
            invariant
                cur.wf(),
                cur.lines_view() == old(cur).lines_view(),
                old(cur).pos_view() + 1 <= cur.pos_view() <= cur.lines_view().len(),
                rem == old(cur).remaining(),
                rem.len() > 0,
                grem == rem.skip(1),
                none_lit@ == "none"@,
                spot_title_from_tokens(tokens_of(rem[0])) == Ok::<
                    (Seq<char>, Seq<char>, i32, i32, Option<Seq<char>>),
                    SpotParseError,
                >(
                    (
                        name@,
                        world_name@,
                        pos_x,
                        pos_y,
                        match personal_item_name {
                            Some(s) => Some(s@),
                            None => None,
                        },
                    ),
                ),
                goods_from_lines(grem) == ({
                    let sub = goods_from_lines(cur.remaining());
                    let done = cur.pos_view() - old(cur).pos_view() - 1;
                    (match sub.0 {
                        Ok(rest) => Ok::<Seq<(Seq<char>, Seq<char>)>, SpotParseError>(
                            goods@.map_values(|g: (String, String)| (g.0@, g.1@)) + rest,
                        ),
                        Err(e) => Err::<Seq<(Seq<char>, Seq<char>)>, SpotParseError>(e),
                    }, sub.1 + done)
                }),
            decreases cur.lines_view().len() - cur.pos_view(),
        {
            let ghost top_rem = cur.remaining();
            let grow = match cur.next() {
                Some(grow) => grow,
                None => {
                    proof {
                        assert(top_rem.len() == 0);
                        assert(goods_from_lines(grem).0 == Err::<
                            Seq<(Seq<char>, Seq<char>)>,
                            SpotParseError,
                        >(SpotParseError::ExpectedTerminateLine));
                    }
                    return Err(SpotParseError::ExpectedTerminateLine);
                },
            };
            let ghost crem = cur.remaining();
            proof {
                assert(top_rem[0] == grow@);
                assert(top_rem.skip(1) =~= crem);
            }
            if grow.eq(&none_lit) {
                proof {
                    assert(goods_from_lines(top_rem) == (
                        Ok::<Seq<(Seq<char>, Seq<char>)>, SpotParseError>(
                            Seq::<(Seq<char>, Seq<char>)>::empty(),
                        ),
                        1int,
                    ));
                    let gv = goods@.map_values(|g: (String, String)| (g.0@, g.1@));
                    assert(gv + Seq::<(Seq<char>, Seq<char>)>::empty() =~= gv);
                }
                return Ok(
                    Spot { name, world_name, pos_x, pos_y, personal_item_name, goods },
                );
            }
            let gtoks = split_tokens(grow.as_str());
            let ghost gts = tokens_of(grow@);
            proof {
                assert(forall|i: int| 0 <= i < gtoks@.len() ==> gts[i] == #[trigger] gtoks@[i]@);
            }
            if gtoks.len() < 2 {
                return Err(SpotParseError::GoodsLine);
            }
            if gtoks.len() > 2 {
                return Err(SpotParseError::UnexpectedAdditionalParameterAtGoodsLine);
            }
            let ghost old_goods = goods@.map_values(|g: (String, String)| (g.0@, g.1@));
            let item = gtoks[0].clone();
            let dest = gtoks[1].clone();
            let ghost gv = (item@, dest@);
            goods.push((item, dest));
            proof {
                assert(goods@.map_values(|g: (String, String)| (g.0@, g.1@)) =~= old_goods.push(
                    gv,
                ));
                let sub = goods_from_lines(crem);
                match sub.0 {
                    Ok(rest) => {
                        assert(old_goods + (seq![gv] + rest) =~= old_goods.push(gv) + rest);
                    },
                    Err(_) => {},
                }
            }
        }
    }
}

/// The spot table denoted by the cleaned content lines of the spot file:
/// spot blocks until the input is exhausted.
pub open spec fn table_spot_from_lines(lines: Seq<Seq<char>>) -> Result<Seq<SpotV>, SpotParseError>
    decreases lines.len(),
    via table_spot_dec
{
    if lines.len() == 0 {
        Ok(Seq::empty())
    } else {
        let rec = spot_from_lines(lines);
        match rec.0 {
            Ok(s) => match table_spot_from_lines(lines.skip(rec.1)) {
                Ok(rest) => Ok(seq![s] + rest),
                Err(e) => Err(e),
            },
            Err(e) => Err(e),
        }
    }
}

#[via_fn]
proof fn table_spot_dec(lines: Seq<Seq<char>>) {
    lemma_spot_consumed(lines);
}

/// The table of all spots.
#[derive(Debug)]
pub struct TableSpot {
    pub spots: Vec<Spot>,
}

impl View for TableSpot {
    type V = Seq<SpotV>;

    open spec fn view(&self) -> Seq<SpotV> {
        self.spots@.map_values(|s: Spot| s@)
    }
}

impl TableSpot {
    /// The name of the source file of this table.
    pub fn file_name() -> (r: &'static str)
        ensures
            r@ == "spot.prm"@,
    {
        "spot.prm"
    }

    /// Assemble the table from the cleaned content lines (the signature line
    /// already removed).
    pub fn from_rows(rows: &Vec<String>) -> (r: Result<TableSpot, PrmParseError>)
        ensures
            match r {
                Ok(t) => table_spot_from_lines(str_views(rows@)) == Ok::<Seq<SpotV>, SpotParseError>(
                    t@,
                ),
                Err(e) => match e {
                    PrmParseError::Spot(se) => table_spot_from_lines(str_views(rows@)) == Err::<
                        Seq<SpotV>,
                        SpotParseError,
                    >(se),
                    _ => false,
                },
            },
    {
        let ghost all = str_views(rows@);
        let mut cur = Cursor::new(rows);
        let mut spots: Vec<Spot> = Vec::new();
        proof {
            assert(cur.remaining() =~= all);
            assert(spots@.map_values(|s: Spot| s@) =~= Seq::<SpotV>::empty());
        }
        while cur.has_next()
            invariant
                cur.wf(),
                cur.lines_view() == all,
                all == str_views(rows@),
                table_spot_from_lines(all) == match table_spot_from_lines(cur.remaining()) {
                    Ok(rest) => Ok::<Seq<SpotV>, SpotParseError>(
                        spots@.map_values(|s: Spot| s@) + rest,
                    ),
                    Err(e) => Err::<Seq<SpotV>, SpotParseError>(e),
                },
            decreases cur.lines_view().len() - cur.pos_view(),
        {
            let ghost rem = cur.remaining();
            proof {
                lemma_spot_consumed(rem);
            }
            let ghost old_views = spots@.map_values(|s: Spot| s@);
            match Spot::from_prmrow_iter(&mut cur) {
                Ok(s) => {
                    let ghost sv = s@;
                    spots.push(s);
                    proof {
                        assert(cur.remaining() =~= rem.skip(spot_from_lines(rem).1));
                        assert(spots@.map_values(|s: Spot| s@) =~= old_views.push(sv));
                        match table_spot_from_lines(rem.skip(spot_from_lines(rem).1)) {
                            Ok(rest) => {
                                assert(old_views + (seq![sv] + rest) =~= old_views.push(sv) + rest);
                            },
                            Err(_) => {},
                        }
                    }
                },
                Err(e) => {
                    return Err(PrmParseError::Spot(e));
                },
            }
        }
        proof {
            assert(cur.remaining().len() == 0);
            assert(cur.remaining() =~= Seq::<Seq<char>>::empty());
            assert(spots@.map_values(|s: Spot| s@) + Seq::<SpotV>::empty() =~= spots@.map_values(
                |s: Spot| s@,
            ));
        }
        Ok(TableSpot { spots })
    }
}

} // verus!
