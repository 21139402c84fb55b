//! The price table: groups of price records, delimited by title lines.  A
//! title line is a line of exactly one token; it opens a group under the
//! line's content as key, sealing the previous group; every other line is a
//! record appended to the open group.

use vstd::prelude::*;

use crate::assoc::AssocVec;
use crate::text::{parsed_u32, split_tokens, str_views, token_u32, tokens_of};
use crate::PrmParseError;

verus! {

/// Field and structure errors of the price table.
#[derive(Debug, Clone, Copy, PartialEq, Eq, Structural)]
pub enum PriceParseError {
    Name,
    Buy,
    Sell,
    UnexpectedAdditionalParameter,
    ExpectedTitleBlock,
}

/// One priced goods entry.
#[derive(Debug)]
pub struct Price {
    pub name: String,
    pub buy: u32,
    pub sell: u32,
}

/// The mathematical content of a `Price`.
pub ghost struct PriceV {
    pub name: Seq<char>,
    pub buy: u32,
    pub sell: u32,
}

impl View for Price {
    type V = PriceV;

    open spec fn view(&self) -> PriceV {
        PriceV { name: self.name@, buy: self.buy, sell: self.sell }
    }
}

impl DeepView for Price {
    type V = PriceV;

    open spec fn deep_view(&self) -> PriceV {
        self@
    }
}

/// The price record denoted by one line's tokens: a goods name, a buy price
/// and a sell price, and nothing more.
pub open spec fn price_from_tokens(ts: Seq<Seq<char>>) -> Result<PriceV, PriceParseError> {
    if ts.len() < 1 {
        Err(PriceParseError::Name)
    } else if ts.len() < 2 || parsed_u32(ts[1]) is None {
        Err(PriceParseError::Buy)
    } else if ts.len() < 3 || parsed_u32(ts[2]) is None {
        Err(PriceParseError::Sell)
    } else if ts.len() > 3 {
        Err(PriceParseError::UnexpectedAdditionalParameter)
    } else {
        Ok(
            PriceV {
                name: ts[0],
                buy: parsed_u32(ts[1])->Some_0,
                sell: parsed_u32(ts[2])->Some_0,
            },
        )
    }
}

impl Price {
    /// Parse one cleaned line as a price record.
    pub fn from_prmrow(row: &str) -> (r: Result<Price, PriceParseError>)
        ensures
            match r {
                Ok(p) => price_from_tokens(tokens_of(row@)) == Ok::<PriceV, PriceParseError>(p@),
                Err(e) => price_from_tokens(tokens_of(row@)) == Err::<PriceV, PriceParseError>(e),
            },
    {
        let toks = split_tokens(row);
        let ghost ts = tokens_of(row@);
        proof {
            assert(forall|i: int| 0 <= i < toks@.len() ==> ts[i] == #[trigger] toks@[i]@);
        }
        if toks.len() < 1 {
            return Err(PriceParseError::Name);
        }
        let buy = match token_u32(&toks, 1) {
            Some(b) => b,
            None => {
                return Err(PriceParseError::Buy);
            },
        };
        let sell = match token_u32(&toks, 2) {
            Some(s) => s,
            None => {
                return Err(PriceParseError::Sell);
            },
        };
        if toks.len() > 3 {
            return Err(PriceParseError::UnexpectedAdditionalParameter);
        }
        let name = toks[0].clone();
        Ok(Price { name, buy, sell })
    }
}

/// The mapping denoted by the remaining lines, given the currently open group
/// and the groups sealed so far.  A title line (exactly one token) seals the
/// open group and opens a new one under the line's content; an item line with
/// no open group is a structural error; the end of input seals the last open
/// group.
pub open spec fn prices_from_lines(
    lines: Seq<Seq<char>>,
    cur: Option<(Seq<char>, Seq<PriceV>)>,
    acc: Map<Seq<char>, Seq<PriceV>>,
) -> Result<Map<Seq<char>, Seq<PriceV>>, PriceParseError>
    decreases lines.len(),
{
    if lines.len() == 0 {
        match cur {
            Some(kv) => Ok(acc.insert(kv.0, kv.1)),
            None => Ok(acc),
        }
    } else {
        let ts = tokens_of(lines[0]);
        if ts.len() == 1 {
            let acc2 = match cur {
                Some(kv) => acc.insert(kv.0, kv.1),
                None => acc,
            };
            prices_from_lines(lines.skip(1), Some((lines[0], Seq::empty())), acc2)
        } else if cur is None {
            Err(PriceParseError::ExpectedTitleBlock)
        } else {
            match price_from_tokens(ts) {
                Ok(p) => prices_from_lines(
                    lines.skip(1),
                    Some((cur->Some_0.0, cur->Some_0.1.push(p))),
                    acc,
                ),
                Err(e) => Err(e),
            }
        }
    }
}

/// The price table denoted by the cleaned content lines of the price file.
pub open spec fn table_price_from_lines(lines: Seq<Seq<char>>) -> Result<
    Map<Seq<char>, Seq<PriceV>>,
    PriceParseError,
> {
    prices_from_lines(lines, None, Map::empty())
}

/// The table of prices, keyed by title line.
#[derive(Debug)]
pub struct TablePrice {
    pub prices: AssocVec<Vec<Price>>,
}

impl View for TablePrice {
    type V = Map<Seq<char>, Seq<PriceV>>;

    open spec fn view(&self) -> Map<Seq<char>, Seq<PriceV>> {
        self.prices@
    }
}

impl TablePrice {
    /// The table's invariant.
    pub open spec fn wf(&self) -> bool {
        self.prices.wf()
    }

    /// The name of the source file of this table.
    pub fn file_name() -> (r: &'static str)
        ensures
            r@ == "price.prm"@,
    {
        "price.prm"
    }

    /// Assemble the table from the cleaned content lines (the signature line
    /// already removed).
    pub fn from_rows(rows: &Vec<String>) -> (r: Result<TablePrice, PrmParseError>)
        ensures
            match r {
                Ok(t) => t.wf() && table_price_from_lines(str_views(rows@)) == Ok::<
                    Map<Seq<char>, Seq<PriceV>>,
                    PriceParseError,
                >(t@),
                Err(e) => match e {
                    PrmParseError::Price(pe) => table_price_from_lines(str_views(rows@)) == Err::<
                        Map<Seq<char>, Seq<PriceV>>,
                        PriceParseError,
                    >(pe),
                    _ => false,
                },
            },
    {
        let ghost all = str_views(rows@);
        let mut prices: AssocVec<Vec<Price>> = AssocVec::new();
        let mut cur_key: Option<String> = None;
        let mut cur_items: Vec<Price> = Vec::new();
        let mut i: usize = 0;
        proof {
            assert(all.skip(0) =~= all);
        }
        while i < rows.len()
            invariant
                0 <= i <= rows.len(),
                all == str_views(rows@),
                prices.wf(),
                table_price_from_lines(all) == prices_from_lines(
                    all.skip(i as int),
                    match cur_key {
                        Some(k) => Some((k@, cur_items@.map_values(|p: Price| p@))),
                        None => None::<(Seq<char>, Seq<PriceV>)>,
                    },
                    prices@,
                ),
            decreases rows.len() - i,
        {
            let ghost rem = all.skip(i as int);
            proof {
                assert(rem[0] == rows@[i as int]@);
                assert(rem.skip(1) =~= all.skip(i as int + 1));
            }
            let toks = split_tokens(rows[i].as_str());
            proof {
                assert(str_views(toks@).len() == toks@.len());
            }
            if toks.len() == 1 {
                let ghost itemsd = cur_items.deep_view();
                let ghost itemsv = cur_items@.map_values(|p: Price| p@);
                proof {
                    assert(itemsd =~= itemsv);
                }
                match cur_key {
                    Some(k) => {
                        prices.insert(k, cur_items);
                    },
                    None => {},
                }
                cur_key = Some(rows[i].clone());
                cur_items = Vec::new();
                proof {
                    assert(cur_items@.map_values(|p: Price| p@) =~= Seq::<PriceV>::empty());
                }
            } else {
                if cur_key.is_none() {
                    return Err(PrmParseError::Price(PriceParseError::ExpectedTitleBlock));
                }
                let ghost old_items = cur_items@.map_values(|p: Price| p@);
                match Price::from_prmrow(rows[i].as_str()) {
                    Ok(p) => {
                        let ghost pv = p@;
                        cur_items.push(p);
                        proof {
                            assert(cur_items@.map_values(|p: Price| p@) =~= old_items.push(pv));
                        }
                    },
                    Err(e) => {
                        return Err(PrmParseError::Price(e));
                    },
                }
            }
            i = i + 1;
        }
        proof {
            assert(all.skip(rows@.len() as int) =~= Seq::<Seq<char>>::empty());
        }
        let ghost itemsd = cur_items.deep_view();
        let ghost itemsv = cur_items@.map_values(|p: Price| p@);
        proof {
            assert(itemsd =~= itemsv);
        }
        match cur_key {
            Some(k) => {
                prices.insert(k, cur_items);
            },
            None => {},
        }
        Ok(TablePrice { prices })
    }
}

} // verus!
