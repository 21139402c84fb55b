//! Parser library for the PRM family of line-oriented, comment-annotated
//! static data files: raw text is cleaned of comments, checked for a fixed
//! signature line, and parsed into typed in-memory tables.

pub mod assoc;
pub mod bunch;
pub mod cursor;
pub mod item;
pub mod mechos;
pub mod passage;
pub mod price;
pub mod spot;
pub mod strip;
pub mod tabutask;
pub mod text;
pub mod vangers;
pub mod world;

use vstd::prelude::*;

pub use strip::read_without_comments;

use crate::text::str_views;

verus! {

/// The fixed signature token expected as the first cleaned line of every
/// PRM file.
pub open spec fn signature_seq() -> Seq<char> {
    "uniVang-ParametersFile_Ver_1"@
}

/// The fixed signature token, as a string.
pub fn signature_line() -> (r: &'static str)
    ensures
        r@ == signature_seq(),
{
    "uniVang-ParametersFile_Ver_1"
}

/// Failures of the file-loading protocol: the source could not be read, or
/// its first cleaned line is not the expected signature.
#[derive(Debug, PartialEq, Eq)]
pub enum PrmOpenError {
    /// The source could not be read; carries the reader's description.
    IO(String),
    /// The file is present but its first cleaned line is missing or wrong.
    WrongSignature,
}

/// Any failure while constructing a table: the open/signature failure, or
/// the table family's own parse error.
#[derive(Debug, PartialEq, Eq)]
pub enum PrmParseError {
    OpenFile(PrmOpenError),
    Bunch(bunch::BunchParseError),
    Item(item::ItemParseError),
    Mechos(mechos::MechosParseError),
    World(world::WorldParseError),
    Passage(passage::PassageParseError),
    Price(price::PriceParseError),
    Spot(spot::SpotParseError),
    VangersWeight(vangers::VangersWeightParseError),
    Tabutask(tabutask::TabutaskParseError),
}

/// Check the signature line of a cleaned PRM file and discard it: fails when
/// the file has no content lines or the first differs from the signature,
/// and otherwise returns the remaining lines in order.
pub fn check_signature(rows: Vec<String>) -> (r: Result<Vec<String>, PrmOpenError>)
    ensures
        match r {
            Ok(rest) => rows@.len() > 0 && rows@[0]@ == signature_seq() && str_views(rest@)
                == str_views(rows@).skip(1),
            Err(e) => e is WrongSignature && (rows@.len() == 0 || rows@[0]@ != signature_seq()),
        },
{
    if rows.len() == 0 {
        return Err(PrmOpenError::WrongSignature);
    }
    let sig = signature_line().to_owned();
    if !rows[0].eq(&sig) {
        return Err(PrmOpenError::WrongSignature);
    }
    let mut rest = rows;
    rest.remove(0);
    proof {
        assert forall|i: int| 0 <= i < rest@.len() implies #[trigger] str_views(rest@)[i]
            == str_views(rows@).skip(1)[i] by {
            assert(rest@[i] == rows@[i + 1]);
        }
        assert(str_views(rest@) =~= str_views(rows@).skip(1));
    }
    Ok(rest)
}

} // verus!
