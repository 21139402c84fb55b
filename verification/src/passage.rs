//! The passages table: a flat table of one corridor record per cleaned line.

use vstd::prelude::*;

use crate::text::{parsed_i32, split_tokens, str_views, token_i32, tokens_of};
use crate::PrmParseError;

verus! {

/// Field errors of a passage record.
#[derive(Debug, Clone, Copy, PartialEq, Eq, Structural)]
pub enum PassageParseError {
    Name,
    PosX,
    PosY,
    WorldSource,
    WorldDestination,
    UnexpectedAdditionalParameter,
}

/// One corridor between worlds.
#[derive(Debug)]
pub struct Passage {
    /// Name of the corridor.
    pub name: String,
    /// Name of the world the corridor starts in.
    pub world_src_name: String,
    /// Name of the world the corridor leads to.
    pub world_dest_name: String,
    /// Abscissa of the corridor.
    pub pos_x: i32,
    /// Ordinate of the corridor.
    pub pos_y: i32,
}

/// The mathematical content of a `Passage`.
pub ghost struct PassageV {
    pub name: Seq<char>,
    pub world_src_name: Seq<char>,
    pub world_dest_name: Seq<char>,
    pub pos_x: i32,
    pub pos_y: i32,
}

impl View for Passage {
    type V = PassageV;

    open spec fn view(&self) -> PassageV {
        PassageV {
            name: self.name@,
            world_src_name: self.world_src_name@,
            world_dest_name: self.world_dest_name@,
            pos_x: self.pos_x,
            pos_y: self.pos_y,
        }
    }
}

/// The passage record denoted by one line's tokens: a name, the two world
/// names, the two coordinates, and nothing more.
pub open spec fn passage_from_tokens(ts: Seq<Seq<char>>) -> Result<PassageV, PassageParseError> {
    if ts.len() < 1 {
        Err(PassageParseError::Name)
    } else if ts.len() < 2 {
        Err(PassageParseError::WorldSource)
    } else if ts.len() < 3 {
        Err(PassageParseError::WorldDestination)
    } else if ts.len() < 4 || parsed_i32(ts[3]) is None {
        Err(PassageParseError::PosX)
    } else if ts.len() < 5 || parsed_i32(ts[4]) is None {
        Err(PassageParseError::PosY)
    } else if ts.len() > 5 {
        Err(PassageParseError::UnexpectedAdditionalParameter)
    } else {
        Ok(
            PassageV {
                name: ts[0],
                world_src_name: ts[1],
                world_dest_name: ts[2],
                pos_x: parsed_i32(ts[3])->Some_0,
                pos_y: parsed_i32(ts[4])->Some_0,
            },
        )
    }
}

impl Passage {
    /// Parse one cleaned line as a passage record.
    pub fn from_prmrow(row: &str) -> (r: Result<Passage, PassageParseError>)
        ensures
            match r {
                Ok(p) => passage_from_tokens(tokens_of(row@)) == Ok::<PassageV, PassageParseError>(
                    p@,
                ),
                Err(e) => passage_from_tokens(tokens_of(row@)) == Err::<PassageV, PassageParseError>(
                    e,
                ),
            },
    {
        let toks = split_tokens(row);
        let ghost ts = tokens_of(row@);
        proof {
            assert(forall|i: int| 0 <= i < toks@.len() ==> ts[i] == #[trigger] toks@[i]@);
        }
        if toks.len() < 1 {
            return Err(PassageParseError::Name);
        }
        if toks.len() < 2 {
            return Err(PassageParseError::WorldSource);
        }
        if toks.len() < 3 {
            return Err(PassageParseError::WorldDestination);
        }
        let pos_x = match token_i32(&toks, 3) {
            Some(x) => x,
            None => {
                return Err(PassageParseError::PosX);
            },
        };
        let pos_y = match token_i32(&toks, 4) {
            Some(y) => y,
            None => {
                return Err(PassageParseError::PosY);
            },
        };
        if toks.len() > 5 {
            return Err(PassageParseError::UnexpectedAdditionalParameter);
        }
        let name = toks[0].clone();
        let world_src_name = toks[1].clone();
        let world_dest_name = toks[2].clone();
        Ok(Passage { name, world_src_name, world_dest_name, pos_x, pos_y })
    }
}

/// The table denoted by the cleaned content lines of the passages file: each
/// line one passage record, the first failure aborting the table.
pub open spec fn passages_from_lines(lines: Seq<Seq<char>>) -> Result<
    Seq<PassageV>,
    PassageParseError,
>
    decreases lines.len(),
{
    if lines.len() == 0 {
        Ok(Seq::empty())
    } else {
        match passage_from_tokens(tokens_of(lines[0])) {
            Ok(p) => match passages_from_lines(lines.skip(1)) {
                Ok(rest) => Ok(seq![p] + rest),
                Err(e) => Err(e),
            },
            Err(e) => Err(e),
        }
    }
}

/// The table of all passages.
#[derive(Debug)]
pub struct TableSpot {
    pub passages: Vec<Passage>,
}

impl View for TableSpot {
    type V = Seq<PassageV>;

    open spec fn view(&self) -> Seq<PassageV> {
        self.passages@.map_values(|p: Passage| p@)
    }
}

impl TableSpot {
    /// The name of the source file of this table.
    pub fn file_name() -> (r: &'static str)
        ensures
            r@ == "passages.prm"@,
    {
        "passages.prm"
    }

    /// Assemble the table from the cleaned content lines (the signature line
    /// already removed).
    pub fn from_rows(rows: &Vec<String>) -> (r: Result<TableSpot, PrmParseError>)
        ensures
            match r {
                Ok(t) => passages_from_lines(str_views(rows@)) == Ok::<
                    Seq<PassageV>,
                    PassageParseError,
                >(t@),
                Err(e) => match e {
                    PrmParseError::Passage(pe) => passages_from_lines(str_views(rows@)) == Err::<
                        Seq<PassageV>,
                        PassageParseError,
                    >(pe),
                    _ => false,
                },
            },
    {
        let ghost all = str_views(rows@);
        let mut passages: Vec<Passage> = Vec::new();
        let mut i: usize = 0;
        proof {
            assert(all.skip(0) =~= all);
            assert(passages@.map_values(|p: Passage| p@) =~= Seq::<PassageV>::empty());
        }
        while i < rows.len()
            invariant
                0 <= i <= rows.len(),
                all == str_views(rows@),
                passages_from_lines(all) == match passages_from_lines(all.skip(i as int)) {
                    Ok(rest) => Ok::<Seq<PassageV>, PassageParseError>(
                        passages@.map_values(|p: Passage| p@) + rest,
                    ),
                    Err(e) => Err::<Seq<PassageV>, PassageParseError>(e),
                },
            decreases rows.len() - i,
        {
            let ghost rem = all.skip(i as int);
            proof {
                assert(rem[0] == rows@[i as int]@);
                assert(rem.skip(1) =~= all.skip(i as int + 1));
            }
            let ghost old_views = passages@.map_values(|p: Passage| p@);
            match Passage::from_prmrow(rows[i].as_str()) {
                Ok(p) => {
                    let ghost pv = p@;
                    passages.push(p);
                    proof {
                        assert(passages@.map_values(|p: Passage| p@) =~= old_views.push(pv));
                        match passages_from_lines(all.skip(i as int + 1)) {
                            Ok(rest) => {
                                assert(old_views + (seq![pv] + rest) =~= old_views.push(pv) + rest);
                            },
                            Err(_) => {},
                        }
                    }
                },
                Err(e) => {
                    return Err(PrmParseError::Passage(e));
                },
            }
            i = i + 1;
        }
        proof {
            assert(all.skip(rows@.len() as int) =~= Seq::<Seq<char>>::empty());
            assert(passages@.map_values(|p: Passage| p@) + Seq::<PassageV>::empty()
                =~= passages@.map_values(|p: Passage| p@));
        }
        Ok(TableSpot { passages })
    }
}

} // verus!
