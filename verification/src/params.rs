//! Parsing of `KEY=value` template parameters.

use vstd::prelude::*;
use vstd::string::StrSliceExecFns;
use vstd::string::StringExecFns;

use crate::text::find_from;
use crate::text::lemma_find_from_some;
use crate::text::str_find_from;

verus! {

/// Split a `KEY=value` argument at its first `=`.
///
/// The key is everything before the first `=`, the value everything after
/// it; an argument without any `=` is rejected with a message naming it.
pub fn parse_key_val(s: &str) -> (r: Result<(String, String), String>)
    ensures
        match r {
            Ok(kv) => {
                &&& find_from(s@, "="@, 0) matches Some(p) && kv.0@ == s@.subrange(0, p)
                    && kv.1@ == s@.subrange(p + "="@.len(), s@.len() as int)
            },
            Err(m) => {
                &&& find_from(s@, "="@, 0) is None
                &&& m@ == "invalid KEY=value: no `=` found in `"@ + s@ + "`"@
            },
        },
{
    let n = s.unicode_len();
    match str_find_from(s, "=", 0) {
        Option::Some(p) => {
            proof {
                lemma_find_from_some(s@, "="@, 0, p as int);
                reveal_strlit("=");
            }
            let eq_len = "=".unicode_len();
            let key = s.substring_char(0, p).to_owned();
            let value = s.substring_char(p + eq_len, n).to_owned();
            Ok((key, value))
        },
        Option::None => {
            let mut m = String::from_str("invalid KEY=value: no `=` found in `");
            m.append(s);
            m.append("`");
            proof {
                assert(m@ =~= "invalid KEY=value: no `=` found in `"@ + s@ + "`"@);
            }
            Err(m)
        },
    }
}

} // verus!
