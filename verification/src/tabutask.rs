//! The tabutask table: groups of task records, delimited by title lines as
//! in the price table.  The token layout of a task record is not given by
//! the format documentation at hand, so the record parser fails on every
//! line, surfacing the missing specification distinctly rather than
//! defaulting silently.

use vstd::prelude::*;

use crate::assoc::AssocVec;
use crate::text::{split_tokens, str_views, tokens_of};
use crate::PrmParseError;

verus! {

/// Field and structure errors of the tabutask table.
#[derive(Debug, Clone, Copy, PartialEq, Eq, Structural)]
pub enum TabutaskParseError {
    Cash,
    Luck,
    Cycle,
    Target,
    Work,
    Item,
    Count,
    UnexpectedAdditionalParameter,
    ExpectedTitleBlock,
    /// The record kind exists in the format but no parser specifies it yet.
    UnimplementedRecord,
}

/// One task record; its layout awaits the format documentation.
#[derive(Debug)]
pub struct Tabutask {
    pub name: String,
    pub buy: u32,
    pub sell: u32,
}

/// The mathematical content of a `Tabutask`.
pub ghost struct TabutaskV {
    pub name: Seq<char>,
    pub buy: u32,
    pub sell: u32,
}

impl View for Tabutask {
    type V = TabutaskV;

    open spec fn view(&self) -> TabutaskV {
        TabutaskV { name: self.name@, buy: self.buy, sell: self.sell }
    }
}

impl DeepView for Tabutask {
    type V = TabutaskV;

    open spec fn deep_view(&self) -> TabutaskV {
        self@
    }
}

/// The task record denoted by one line's tokens: no layout is specified, so
/// every line is refused.
pub open spec fn tabutask_from_tokens(ts: Seq<Seq<char>>) -> Result<TabutaskV, TabutaskParseError> {
    Err(TabutaskParseError::UnimplementedRecord)
}

impl Tabutask {
    /// Parse one cleaned line as a task record; fails on every line, since
    /// the record layout is unspecified.
    pub fn from_prmrow(row: &str) -> (r: Result<Tabutask, TabutaskParseError>)
        ensures
            match r {
                Ok(t) => tabutask_from_tokens(tokens_of(row@)) == Ok::<TabutaskV, TabutaskParseError>(
                    t@,
                ),
                Err(e) => tabutask_from_tokens(tokens_of(row@)) == Err::<
                    TabutaskV,
                    TabutaskParseError,
                >(e),
            },
    {
        Err(TabutaskParseError::UnimplementedRecord)
    }
}

/// The mapping denoted by the remaining lines, given the currently open
/// group and the groups sealed so far; the structure mirrors the price
/// table's title-delimited grouping.
pub open spec fn tabutasks_from_lines(
    lines: Seq<Seq<char>>,
    cur: Option<(Seq<char>, Seq<TabutaskV>)>,
    acc: Map<Seq<char>, Seq<TabutaskV>>,
) -> Result<Map<Seq<char>, Seq<TabutaskV>>, TabutaskParseError>
    decreases lines.len(),
{
    if lines.len() == 0 {
        match cur {
            Some(kv) => Ok(acc.insert(kv.0, kv.1)),
            None => Ok(acc),
        }
    } else {
        let ts = tokens_of(lines[0]);
        if ts.len() == 1 {
            let acc2 = match cur {
                Some(kv) => acc.insert(kv.0, kv.1),
                None => acc,
            };
            tabutasks_from_lines(lines.skip(1), Some((lines[0], Seq::empty())), acc2)
        } else if cur is None {
            Err(TabutaskParseError::ExpectedTitleBlock)
        } else {
            match tabutask_from_tokens(ts) {
                Ok(t) => tabutasks_from_lines(
                    lines.skip(1),
                    Some((cur->Some_0.0, cur->Some_0.1.push(t))),
                    acc,
                ),
                Err(e) => Err(e),
            }
        }
    }
}

/// The tabutask table denoted by the cleaned content lines of its file.
pub open spec fn table_tabutask_from_lines(lines: Seq<Seq<char>>) -> Result<
    Map<Seq<char>, Seq<TabutaskV>>,
    TabutaskParseError,
> {
    tabutasks_from_lines(lines, None, Map::empty())
}

/// The table of tasks, keyed by title line.
#[derive(Debug)]
pub struct TableTabutask {
    pub tabutasks: AssocVec<Vec<Tabutask>>,
}

impl View for TableTabutask {
    type V = Map<Seq<char>, Seq<TabutaskV>>;

    open spec fn view(&self) -> Map<Seq<char>, Seq<TabutaskV>> {
        self.tabutasks@
    }
}

impl TableTabutask {
    /// The table's invariant.
    pub open spec fn wf(&self) -> bool {
        self.tabutasks.wf()
    }

    /// The name of the source file of this table.
    pub fn file_name() -> (r: &'static str)
        ensures
            r@ == "tabutask.prm"@,
    {
        "tabutask.prm"
    }

    /// Assemble the table from the cleaned content lines (the signature line
    /// already removed).
    pub fn from_rows(rows: &Vec<String>) -> (r: Result<TableTabutask, PrmParseError>)
        ensures
            match r {
                Ok(t) => t.wf() && table_tabutask_from_lines(str_views(rows@)) == Ok::<
                    Map<Seq<char>, Seq<TabutaskV>>,
                    TabutaskParseError,
                >(t@),
                Err(e) => match e {
                    PrmParseError::Tabutask(te) => table_tabutask_from_lines(str_views(rows@))
                        == Err::<Map<Seq<char>, Seq<TabutaskV>>, TabutaskParseError>(te),
                    _ => false,
                },
            },
    {
        let ghost all = str_views(rows@);
        let mut tabutasks: AssocVec<Vec<Tabutask>> = AssocVec::new();
        let mut cur_key: Option<String> = None;
        let mut cur_items: Vec<Tabutask> = Vec::new();
        let mut i: usize = 0;
        proof {
            assert(all.skip(0) =~= all);
        }
        while i < rows.len()
            invariant
                0 <= i <= rows.len(),
                all == str_views(rows@),
                tabutasks.wf(),
                table_tabutask_from_lines(all) == tabutasks_from_lines(
                    all.skip(i as int),
                    match cur_key {
                        Some(k) => Some((k@, cur_items@.map_values(|t: Tabutask| t@))),
                        None => None::<(Seq<char>, Seq<TabutaskV>)>,
                    },
                    tabutasks@,
                ),
            decreases rows.len() - i,
        {
            let ghost rem = all.skip(i as int);
            proof {
                assert(rem[0] == rows@[i as int]@);
                assert(rem.skip(1) =~= all.skip(i as int + 1));
            }
            let toks = split_tokens(rows[i].as_str());
            if toks.len() == 1 {
                let ghost itemsd = cur_items.deep_view();
                let ghost itemsv = cur_items@.map_values(|t: Tabutask| t@);
                proof {
                    assert(itemsd =~= itemsv);
                }
                match cur_key {
                    Some(k) => {
                        tabutasks.insert(k, cur_items);
                    },
                    None => {},
                }
                cur_key = Some(rows[i].clone());
                cur_items = Vec::new();
                proof {
                    assert(cur_items@.map_values(|t: Tabutask| t@) =~= Seq::<TabutaskV>::empty());
                }
            } else {
                if cur_key.is_none() {
                    return Err(PrmParseError::Tabutask(TabutaskParseError::ExpectedTitleBlock));
                }
                match Tabutask::from_prmrow(rows[i].as_str()) {
                    Ok(t) => {
                        let ghost tv = t@;
                        let ghost old_items = cur_items@.map_values(|t: Tabutask| t@);
                        cur_items.push(t);
                        proof {
                            assert(cur_items@.map_values(|t: Tabutask| t@) =~= old_items.push(tv));
                        }
                    },
                    Err(e) => {
                        return Err(PrmParseError::Tabutask(e));
                    },
                }
            }
            i = i + 1;
        }
        proof {
            assert(all.skip(rows@.len() as int) =~= Seq::<Seq<char>>::empty());
        }
        let ghost itemsd = cur_items.deep_view();
        let ghost itemsv = cur_items@.map_values(|t: Tabutask| t@);
        proof {
            assert(itemsd =~= itemsv);
        }
        match cur_key {
            Some(k) => {
                tabutasks.insert(k, cur_items);
            },
            None => {},
        }
        Ok(TableTabutask { tabutasks })
    }
}

} // verus!
