//! The items table: a count on the first cleaned line, then exactly that
//! many item records, one per line; lines beyond the declared count are
//! ignored.

use vstd::prelude::*;

use crate::text::{
    parse_usize, parsed_i32, parsed_u32, parsed_usize, split_tokens, str_views, token_i32,
    token_u32, tokens_of, trim, trim_spec,
};
use crate::PrmParseError;

verus! {

/// Field and structure errors of the items table.
#[derive(Debug, Clone, Copy, PartialEq, Eq, Structural)]
pub enum ItemParseError {
    Title,
    Name,
    Type,
    SteelerFull,
    SteelerEmpty,
    Size,
    Count,
    Param1,
    Param2,
    /// The title declares more items than lines follow.
    ExpectedAdditionalItem,
    UnexpectedAdditionalParameter,
}

/// The two steeler values of an item.
#[derive(Debug, Clone, Copy)]
pub struct SteelerType {
    pub full: i32,
    pub empty: i32,
}

impl View for SteelerType {
    type V = SteelerType;

    open spec fn view(&self) -> SteelerType {
        *self
    }
}

/// One item record.
#[derive(Debug)]
pub struct Item {
    pub name: String,
    pub kind: i32,
    pub steeler: SteelerType,
    pub size: u32,
    pub count: u32,
    pub param1: i32,
    pub param2: i32,
}

/// The mathematical content of an `Item`.
pub ghost struct ItemV {
    pub name: Seq<char>,
    pub kind: i32,
    pub steeler: SteelerType,
    pub size: u32,
    pub count: u32,
    pub param1: i32,
    pub param2: i32,
}

impl View for Item {
    type V = ItemV;

    open spec fn view(&self) -> ItemV {
        ItemV {
            name: self.name@,
            kind: self.kind,
            steeler: self.steeler,
            size: self.size,
            count: self.count,
            param1: self.param1,
            param2: self.param2,
        }
    }
}

/// The item record denoted by one line's tokens: a name, a type number, the
/// two steeler values, a size, a count and two parameters, and nothing more.
pub open spec fn item_from_tokens(ts: Seq<Seq<char>>) -> Result<ItemV, ItemParseError> {
    if ts.len() < 1 {
        Err(ItemParseError::Name)
    } else if ts.len() < 2 || parsed_i32(ts[1]) is None {
        Err(ItemParseError::Type)
    } else if ts.len() < 3 || parsed_i32(ts[2]) is None {
        Err(ItemParseError::SteelerFull)
    } else if ts.len() < 4 || parsed_i32(ts[3]) is None {
        Err(ItemParseError::SteelerEmpty)
    } else if ts.len() < 5 || parsed_u32(ts[4]) is None {
        Err(ItemParseError::Size)
    } else if ts.len() < 6 || parsed_u32(ts[5]) is None {
        Err(ItemParseError::Count)
    } else if ts.len() < 7 || parsed_i32(ts[6]) is None {
        Err(ItemParseError::Param1)
    } else if ts.len() < 8 || parsed_i32(ts[7]) is None {
        Err(ItemParseError::Param2)
    } else if ts.len() > 8 {
        Err(ItemParseError::UnexpectedAdditionalParameter)
    } else {
        Ok(
            ItemV {
                name: ts[0],
                kind: parsed_i32(ts[1])->Some_0,
                steeler: SteelerType {
                    full: parsed_i32(ts[2])->Some_0,
                    empty: parsed_i32(ts[3])->Some_0,
                },
                size: parsed_u32(ts[4])->Some_0,
                count: parsed_u32(ts[5])->Some_0,
                param1: parsed_i32(ts[6])->Some_0,
                param2: parsed_i32(ts[7])->Some_0,
            },
        )
    }
}

impl Item {
    /// Parse one cleaned line as an item record.
    pub fn from_prmrow(row: &str) -> (r: Result<Item, ItemParseError>)
        ensures
            match r {
                Ok(it) => item_from_tokens(tokens_of(row@)) == Ok::<ItemV, ItemParseError>(it@),
                Err(e) => item_from_tokens(tokens_of(row@)) == Err::<ItemV, ItemParseError>(e),
            },
    {
        let toks = split_tokens(row);
        let ghost ts = tokens_of(row@);
        proof {
            assert(forall|i: int| 0 <= i < toks@.len() ==> ts[i] == #[trigger] toks@[i]@);
        }
        if toks.len() < 1 {
            return Err(ItemParseError::Name);
        }
        let kind = match token_i32(&toks, 1) {
            Some(v) => v,
            None => {
                return Err(ItemParseError::Type);
            },
        };
        let full = match token_i32(&toks, 2) {
            Some(v) => v,
            None => {
                return Err(ItemParseError::SteelerFull);
            },
        };
        let empty = match token_i32(&toks, 3) {
            Some(v) => v,
            None => {
                return Err(ItemParseError::SteelerEmpty);
            },
        };
        let size = match token_u32(&toks, 4) {
            Some(v) => v,
            None => {
                return Err(ItemParseError::Size);
            },
        };
        let count = match token_u32(&toks, 5) {
            Some(v) => v,
            None => {
                return Err(ItemParseError::Count);
            },
        };
        let param1 = match token_i32(&toks, 6) {
            Some(v) => v,
            None => {
                return Err(ItemParseError::Param1);
            },
        };
        let param2 = match token_i32(&toks, 7) {
            Some(v) => v,
            None => {
                return Err(ItemParseError::Param2);
            },
        };
        if toks.len() > 8 {
            return Err(ItemParseError::UnexpectedAdditionalParameter);
        }
        let name = toks[0].clone();
        Ok(Item { name, kind, steeler: SteelerType { full, empty }, size, count, param1, param2 })
    }
}

/// The item sequence denoted by `lines` when `count` records are owed: the
/// declared count drives consumption, and running out of lines is an error
/// distinct from a record's own failure.
pub open spec fn items_from_lines(lines: Seq<Seq<char>>, count: int) -> Result<
    Seq<ItemV>,
    ItemParseError,
>
    decreases count,
{
    if count <= 0 {
        Ok(Seq::empty())
    } else if lines.len() == 0 {
        Err(ItemParseError::ExpectedAdditionalItem)
    } else {
        match item_from_tokens(tokens_of(lines[0])) {
            Ok(it) => match items_from_lines(lines.skip(1), count - 1) {
                Ok(rest) => Ok(seq![it] + rest),
                Err(e) => Err(e),
            },
            Err(e) => Err(e),
        }
    }
}

/// The items table denoted by the cleaned content lines of the items file:
/// the first line declares the count; lines beyond the declared count are
/// ignored.
pub open spec fn table_item_from_lines(lines: Seq<Seq<char>>) -> Result<Seq<ItemV>, ItemParseError> {
    if lines.len() == 0 || parsed_usize(trim_spec(lines[0])) is None {
        Err(ItemParseError::Title)
    } else {
        items_from_lines(lines.skip(1), parsed_usize(trim_spec(lines[0]))->Some_0 as int)
    }
}

/// The table of all items.
#[derive(Debug)]
pub struct TableItem {
    pub items: Vec<Item>,
}

impl View for TableItem {
    type V = Seq<ItemV>;

    open spec fn view(&self) -> Seq<ItemV> {
        self.items@.map_values(|it: Item| it@)
    }
}

impl TableItem {
    /// The name of the source file of this table.
    pub fn file_name() -> (r: &'static str)
        ensures
            r@ == "item.prm"@,
    {
        "item.prm"
    }

    /// Assemble the table from the cleaned content lines (the signature line
    /// already removed).
    pub fn from_rows(rows: &Vec<String>) -> (r: Result<TableItem, PrmParseError>)
        ensures
            match r {
                Ok(t) => table_item_from_lines(str_views(rows@)) == Ok::<Seq<ItemV>, ItemParseError>(
                    t@,
                ),
                Err(e) => match e {
                    PrmParseError::Item(ie) => table_item_from_lines(str_views(rows@)) == Err::<
                        Seq<ItemV>,
                        ItemParseError,
                    >(ie),
                    _ => false,
                },
            },
    {
        let ghost all = str_views(rows@);
        if rows.len() == 0 {
            return Err(PrmParseError::Item(ItemParseError::Title));
        }
        let title = trim(rows[0].as_str());
        let count = match parse_usize(title.as_str()) {
            Some(c) => c,
            None => {
                return Err(PrmParseError::Item(ItemParseError::Title));
            },
        };
        proof {
            assert(all[0] == rows@[0]@);
        }
        let mut items: Vec<Item> = Vec::new();
        let mut k: usize = 0;
        proof {
            assert(all.skip(1) =~= all.skip(1 + k));
            assert(items@.map_values(|it: Item| it@) =~= Seq::<ItemV>::empty());
        }
        while k < count
            invariant
                0 <= k <= count,
                k == items@.len(),
                all == str_views(rows@),
                all.len() == rows@.len(),
                all.len() > 0,
                1 + k <= all.len(),
                parsed_usize(trim_spec(all[0])) == Some(count),
                items_from_lines(all.skip(1), count as int) == match items_from_lines(
                    all.skip(1 + k),
                    count - k,
                ) {
                    Ok(rest) => Ok::<Seq<ItemV>, ItemParseError>(
                        items@.map_values(|it: Item| it@) + rest,
                    ),
                    Err(e) => Err::<Seq<ItemV>, ItemParseError>(e),
                },
            decreases count - k,
        {
            if 1 + k >= rows.len() {
                proof {
                    assert(all.skip(1 + k).len() == 0);
                }
                return Err(PrmParseError::Item(ItemParseError::ExpectedAdditionalItem));
            }
            let ghost rem = all.skip(1 + k);
            proof {
                assert(rem[0] == rows@[1 + k as int]@);
                assert(rem.skip(1) =~= all.skip(1 + k + 1));
            }
            let ghost old_views = items@.map_values(|it: Item| it@);
            match Item::from_prmrow(rows[1 + k].as_str()) {
                Ok(it) => {
                    let ghost iv = it@;
                    items.push(it);
                    proof {
                        assert(items@.map_values(|it: Item| it@) =~= old_views.push(iv));
                        match items_from_lines(all.skip(1 + k + 1), count - k - 1) {
                            Ok(rest) => {
                                assert(old_views + (seq![iv] + rest) =~= old_views.push(iv) + rest);
                            },
                            Err(_) => {},
                        }
                    }
                },
                Err(e) => {
                    return Err(PrmParseError::Item(e));
                },
            }
            k = k + 1;
        }
        proof {
            assert(items@.map_values(|it: Item| it@) + Seq::<ItemV>::empty() =~= items@.map_values(
                |it: Item| it@,
            ));
        }
        Ok(TableItem { items })
    }
}

} // verus!
