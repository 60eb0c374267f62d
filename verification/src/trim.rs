//! Parsing of the trim range argument: a start and an end timestamp in one
//! token, separated by the first comma.

use vstd::prelude::*;

verus! {

/// `r` is the split of `s` at its first comma: `s` is rebuilt from the two
/// halves with a comma between them, and the first half holds no comma.
pub open spec fn is_first_comma_split(s: Seq<char>, r: (Seq<char>, Seq<char>)) -> bool {
    &&& s == r.0 + seq![','] + r.1
    &&& !r.0.contains(',')
}

/// Splits a trim token such as `"0:00,1:30"` at its first comma into the
/// start and end timestamps. A token without a comma is rejected with a
/// usage message.
pub fn trim_parser(arg: &str) -> (r: Result<(String, String), String>)
    ensures
        r matches Ok(p) ==> is_first_comma_split(arg@, (p.0@, p.1@)),
        r matches Err(e) ==> {
            &&& !arg@.contains(',')
            &&& e@ == "Invalid formatting. For example: 0 to 10 seconds is \"0:00,0:10\""@
        },
{
    let n = arg.unicode_len();
    let mut i: usize = 0;
    while i < n
        invariant
            i <= n,
            n == arg@.len(),
            forall|j: int| 0 <= j < i ==> arg@[j] != ',',
        decreases n - i,
    {
        if arg.get_char(i) == ',' {
            let start = arg.substring_char(0, i).to_owned();
            let end = arg.substring_char(i + 1, n).to_owned();
            proof {
                assert(start@ + seq![','] + end@ =~= arg@);
            }
            return Ok((start, end));
        }
        i += 1;
    }
    Err("Invalid formatting. For example: 0 to 10 seconds is \"0:00,0:10\"".to_owned())
}

} // verus!
