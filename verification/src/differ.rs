//! Parsing of the configured external differ command.
//!
//! The differ itself runs outside the library; the library only decides
//! how the configured command line splits into a program and its
//! arguments, and rejects a configuration with no program at all.

use vstd::prelude::*;
use vstd::string::StrSliceExecFns;

use crate::error::Error;
use crate::error::ErrorView;
use crate::text::split_ws;
use crate::text::split_ws_strings;

verus! {

/// Split the configured differ command line into the program (its first
/// word) and the argument words; a command with no words is rejected with
/// a differ-configuration error naming it.
pub fn parse_differ_command(tool: &str) -> (r: Result<(String, Vec<String>), Error>)
    ensures
        match r {
            Ok(pa) => split_ws(tool@).len() > 0 && pa.0@ == split_ws(tool@)[0]
                && pa.1.deep_view() == split_ws(tool@).skip(1),
            Err(e) => split_ws(tool@).len() == 0 && e@ == ErrorView::Differ(tool@),
        },
{
    let mut words = split_ws_strings(tool);
    if words.len() == 0 {
        proof {
            assert(words.deep_view().len() == 0);
        }
        Err(Error::Differ(tool.to_owned()))
    } else {
        let ghost dv0 = words.deep_view();
        let program = words.remove(0);
        proof {
            assert(words.deep_view() =~= dv0.skip(1));
        }
        Ok((program, words))
    }
}

} // verus!
