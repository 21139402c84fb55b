//! The worlds table: a flat table of one record per cleaned line.

use vstd::prelude::*;

use crate::text::{parsed_u32, split_tokens, str_views, token_u32, tokens_of};
use crate::PrmParseError;

verus! {

/// Field errors of a world record.
#[derive(Debug, Clone, Copy, PartialEq, Eq, Structural)]
pub enum WorldParseError {
    Name,
    Width,
    Height,
    UnexpectedAdditionalParameter,
}

/// One world: a name and the two map dimensions.
#[derive(Debug)]
pub struct World {
    pub name: String,
    pub width: u32,
    pub height: u32,
}

/// The mathematical content of a `World`.
pub ghost struct WorldV {
    pub name: Seq<char>,
    pub width: u32,
    pub height: u32,
}

impl View for World {
    type V = WorldV;

    open spec fn view(&self) -> WorldV {
        WorldV { name: self.name@, width: self.width, height: self.height }
    }
}

/// The world record denoted by one line's tokens: a name, a width and a
/// height, and nothing more.
pub open spec fn world_from_tokens(ts: Seq<Seq<char>>) -> Result<WorldV, WorldParseError> {
    if ts.len() < 1 {
        Err(WorldParseError::Name)
    } else if ts.len() < 2 || parsed_u32(ts[1]) is None {
        Err(WorldParseError::Width)
    } else if ts.len() < 3 || parsed_u32(ts[2]) is None {
        Err(WorldParseError::Height)
    } else if ts.len() > 3 {
        Err(WorldParseError::UnexpectedAdditionalParameter)
    } else {
        Ok(
            WorldV {
                name: ts[0],
                width: parsed_u32(ts[1])->Some_0,
                height: parsed_u32(ts[2])->Some_0,
            },
        )
    }
}

impl World {
    /// Parse one cleaned line as a world record.
    pub fn from_prmrow(row: &str) -> (r: Result<World, WorldParseError>)
        ensures
            match r {
                Ok(w) => world_from_tokens(tokens_of(row@)) == Ok::<WorldV, WorldParseError>(w@),
                Err(e) => world_from_tokens(tokens_of(row@)) == Err::<WorldV, WorldParseError>(e),
            },
    {
        let toks = split_tokens(row);
        let ghost ts = tokens_of(row@);
        proof {
            assert(forall|i: int| 0 <= i < toks@.len() ==> ts[i] == #[trigger] toks@[i]@);
        }
        if toks.len() < 1 {
            return Err(WorldParseError::Name);
        }
        let width = match token_u32(&toks, 1) {
            Some(w) => w,
            None => {
                return Err(WorldParseError::Width);
            },
        };
        let height = match token_u32(&toks, 2) {
            Some(h) => h,
            None => {
                return Err(WorldParseError::Height);
            },
        };
        if toks.len() > 3 {
            return Err(WorldParseError::UnexpectedAdditionalParameter);
        }
        let name = toks[0].clone();
        Ok(World { name, width, height })
    }
}

/// The table denoted by the cleaned content lines of the worlds file: each
/// line one world record, the first failure aborting the table.
pub open spec fn worlds_from_lines(lines: Seq<Seq<char>>) -> Result<Seq<WorldV>, WorldParseError>
    decreases lines.len(),
{
    if lines.len() == 0 {
        Ok(Seq::empty())
    } else {
        match world_from_tokens(tokens_of(lines[0])) {
            Ok(w) => match worlds_from_lines(lines.skip(1)) {
                Ok(rest) => Ok(seq![w] + rest),
                Err(e) => Err(e),
            },
            Err(e) => Err(e),
        }
    }
}

/// The table of all worlds.
#[derive(Debug)]
pub struct TableWorld {
    worlds: Vec<World>,
}

impl View for TableWorld {
    type V = Seq<WorldV>;

    closed spec fn view(&self) -> Seq<WorldV> {
        self.worlds@.map_values(|w: World| w@)
    }
}

impl TableWorld {
    /// Read-only access to the parsed worlds.
    pub fn worlds(&self) -> (r: &[World])
        ensures
            r@.map_values(|w: World| w@) == self@,
    {
        self.worlds.as_slice()
    }

    /// The name of the source file of this table.
    pub fn file_name() -> (r: &'static str)
        ensures
            r@ == "worlds.prm"@,
    {
        "worlds.prm"
    }

    /// Assemble the table from the cleaned content lines (the signature line
    /// already removed).
    pub fn from_rows(rows: &Vec<String>) -> (r: Result<TableWorld, PrmParseError>)
        ensures
            match r {
                Ok(t) => worlds_from_lines(str_views(rows@)) == Ok::<Seq<WorldV>, WorldParseError>(
                    t@,
                ),
                Err(e) => match e {
                    PrmParseError::World(we) => worlds_from_lines(str_views(rows@)) == Err::<
                        Seq<WorldV>,
                        WorldParseError,
                    >(we),
                    _ => false,
                },
            },
    {
        let ghost all = str_views(rows@);
        let mut worlds: Vec<World> = Vec::new();
        let mut i: usize = 0;
        proof {
            assert(all.skip(0) =~= all);
            assert(worlds@.map_values(|w: World| w@) =~= Seq::<WorldV>::empty());
        }
        while i < rows.len()
            invariant
                0 <= i <= rows.len(),
                all == str_views(rows@),
                worlds_from_lines(all) == match worlds_from_lines(all.skip(i as int)) {
                    Ok(rest) => Ok::<Seq<WorldV>, WorldParseError>(
                        worlds@.map_values(|w: World| w@) + rest,
                    ),
                    Err(e) => Err::<Seq<WorldV>, WorldParseError>(e),
                },
            decreases rows.len() - i,
        {
            let ghost rem = all.skip(i as int);
            proof {
                assert(rem[0] == rows@[i as int]@);
                assert(rem.skip(1) =~= all.skip(i as int + 1));
            }
            let ghost old_views = worlds@.map_values(|w: World| w@);
            match World::from_prmrow(rows[i].as_str()) {
                Ok(w) => {
                    let ghost wv = w@;
                    worlds.push(w);
                    proof {
                        assert(worlds@.map_values(|w: World| w@) =~= old_views.push(wv));
                        match worlds_from_lines(all.skip(i as int + 1)) {
                            Ok(rest) => {
                                assert(old_views + (seq![wv] + rest) =~= old_views.push(wv) + rest);
                            },
                            Err(_) => {},
                        }
                    }
                },
                Err(e) => {
                    return Err(PrmParseError::World(e));
                },
            }
            i = i + 1;
        }
        proof {
            assert(all.skip(rows@.len() as int) =~= Seq::<Seq<char>>::empty());
            assert(worlds@.map_values(|w: World| w@) + Seq::<WorldV>::empty() =~= worlds@.map_values(
                |w: World| w@,
            ));
        }
        Ok(TableWorld { worlds })
    }
}

} // verus!
