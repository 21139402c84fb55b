//! The vangers-weight table: a total count on the first cleaned line, then
//! one world/weight pair per line.

use vstd::prelude::*;

use crate::assoc::AssocVec;
use crate::text::{parse_u32, parsed_u32, split_tokens, str_views, tokens_of};
use crate::PrmParseError;

verus! {

/// Field errors of the vangers-weight table.
#[derive(Debug, Clone, Copy, PartialEq, Eq, Structural)]
pub enum VangersWeightParseError {
    VangersTotal,
    RelativeWeight,
    UnexpectedAdditionalParameterAtRelativeWeightLine,
}

/// The weight mapping denoted by the lines after the total: each line a world
/// name and a relative weight, a repeated world overwriting the earlier
/// weight.
pub open spec fn weights_from_lines(lines: Seq<Seq<char>>, acc: Map<Seq<char>, u32>) -> Result<
    Map<Seq<char>, u32>,
    VangersWeightParseError,
>
    decreases lines.len(),
{
    if lines.len() == 0 {
        Ok(acc)
    } else {
        let ts = tokens_of(lines[0]);
        if ts.len() < 2 || parsed_u32(ts[1]) is None {
            Err(VangersWeightParseError::RelativeWeight)
        } else if ts.len() > 2 {
            Err(VangersWeightParseError::UnexpectedAdditionalParameterAtRelativeWeightLine)
        } else {
            weights_from_lines(lines.skip(1), acc.insert(ts[0], parsed_u32(ts[1])->Some_0))
        }
    }
}

/// The table denoted by the cleaned content lines of the vangers file: the
/// first line is the total, parsed as one whole-line numeral.
pub open spec fn table_vangers_from_lines(lines: Seq<Seq<char>>) -> Result<
    (u32, Map<Seq<char>, u32>),
    VangersWeightParseError,
> {
    if lines.len() == 0 || parsed_u32(lines[0]) is None {
        Err(VangersWeightParseError::VangersTotal)
    } else {
        match weights_from_lines(lines.skip(1), Map::empty()) {
            Ok(m) => Ok((parsed_u32(lines[0])->Some_0, m)),
            Err(e) => Err(e),
        }
    }
}

/// The table of relative world weights.
#[derive(Debug)]
pub struct TableVangersWeight {
    /// Total number of computer-driven vangers at one moment.
    pub vangers_total: u32,
    /// Relative weight of each world's vanger density, keyed by world name.
    pub weights: AssocVec<u32>,
}

impl View for TableVangersWeight {
    type V = (u32, Map<Seq<char>, u32>);

    open spec fn view(&self) -> (u32, Map<Seq<char>, u32>) {
        (self.vangers_total, self.weights@)
    }
}

impl TableVangersWeight {
    /// The table's invariant.
    pub open spec fn wf(&self) -> bool {
        self.weights.wf()
    }

    /// The name of the source file of this table.
    pub fn file_name() -> (r: &'static str)
        ensures
            r@ == "vangers.prm"@,
    {
        "vangers.prm"
    }

    /// Assemble the table from the cleaned content lines (the signature line
    /// already removed).
    pub fn from_rows(rows: &Vec<String>) -> (r: Result<TableVangersWeight, PrmParseError>)
        ensures
            match r {
                Ok(t) => t.wf() && table_vangers_from_lines(str_views(rows@)) == Ok::<
                    (u32, Map<Seq<char>, u32>),
                    VangersWeightParseError,
                >(t@),
                Err(e) => match e {
                    PrmParseError::VangersWeight(ve) => table_vangers_from_lines(str_views(rows@))
                        == Err::<(u32, Map<Seq<char>, u32>), VangersWeightParseError>(ve),
                    _ => false,
                },
            },
    {
        let ghost all = str_views(rows@);
        if rows.len() == 0 {
            return Err(PrmParseError::VangersWeight(VangersWeightParseError::VangersTotal));
        }
        let vangers_total = match parse_u32(rows[0].as_str()) {
            Some(v) => v,
            None => {
                return Err(PrmParseError::VangersWeight(VangersWeightParseError::VangersTotal));
            },
        };
        let mut weights: AssocVec<u32> = AssocVec::new();
        let mut i: usize = 1;
        proof {
            assert(all[0] == rows@[0]@);
        }
        while i < rows.len()
            invariant
                1 <= i <= rows.len(),
                all == str_views(rows@),
                all.len() == rows@.len(),
                parsed_u32(all[0]) == Some(vangers_total),
                weights.wf(),
                weights_from_lines(all.skip(1), Map::empty()) == weights_from_lines(
                    all.skip(i as int),
                    weights@,
                ),
            decreases rows.len() - i,
        {
            let ghost rem = all.skip(i as int);
            proof {
                assert(rem[0] == rows@[i as int]@);
                assert(rem.skip(1) =~= all.skip(i as int + 1));
            }
            let toks = split_tokens(rows[i].as_str());
            if toks.len() < 2 {
                return Err(PrmParseError::VangersWeight(VangersWeightParseError::RelativeWeight));
            }
            let weight = match parse_u32(toks[1].as_str()) {
                Some(w) => w,
                None => {
                    return Err(
                        PrmParseError::VangersWeight(VangersWeightParseError::RelativeWeight),
                    );
                },
            };
            if toks.len() > 2 {
                return Err(
                    PrmParseError::VangersWeight(
                        VangersWeightParseError::UnexpectedAdditionalParameterAtRelativeWeightLine,
                    ),
                );
            }
            let world = toks[0].clone();
            proof {
                assert(world@ == tokens_of(rem[0])[0]);
            }
            weights.insert(world, weight);
            i = i + 1;
        }
        proof {
            assert(all.skip(rows@.len() as int) =~= Seq::<Seq<char>>::empty());
        }
        Ok(TableVangersWeight { vangers_total, weights })
    }
}

} // verus!
