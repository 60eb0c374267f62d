//! The exact argument lists handed to the external downloader and
//! transcoder, built as plain strings from a plan.

use vstd::prelude::*;

use crate::plan::{Directive, Plan, TranscodeStep};

verus! {

pub open spec fn digit_char(d: nat) -> char {
    if d == 0 {
        '0'
    } else if d == 1 {
        '1'
    } else if d == 2 {
        '2'
    } else if d == 3 {
        '3'
    } else if d == 4 {
        '4'
    } else if d == 5 {
        '5'
    } else if d == 6 {
        '6'
    } else if d == 7 {
        '7'
    } else if d == 8 {
        '8'
    } else {
        '9'
    }
}

/// The decimal digits of `n`, most significant first, without leading
/// zeros.
pub open spec fn dec_str(n: nat) -> Seq<char>
    decreases n,
{
    if n < 10 {
        seq![digit_char(n)]
    } else {
        dec_str(n / 10) + seq![digit_char(n % 10)]
    }
}

/// The downloader's section-selection token: `*start-end`.
pub open spec fn section_spec(start: Seq<char>, end: Seq<char>) -> Seq<char> {
    "*"@ + start + "-"@ + end
}

/// The transcoder's bitrate flag for a cap of `b` units: `-b:v=<b>M`.
pub open spec fn bitrate_arg_spec(b: nat) -> Seq<char> {
    "-b:v="@ + dec_str(b) + "M"@
}

fn digit_str(d: u8) -> (r: &'static str)
    requires
        d < 10,
    ensures
        r@ == seq![digit_char(d as nat)],
{
    if d == 0 {
        proof {
            reveal_strlit("0");
            assert("0"@ =~= seq![digit_char(0)]);
        }
        "0"
    } else if d == 1 {
        proof {
            reveal_strlit("1");
            assert("1"@ =~= seq![digit_char(1)]);
        }
        "1"
    } else if d == 2 {
        proof {
            reveal_strlit("2");
            assert("2"@ =~= seq![digit_char(2)]);
        }
        "2"
    } else if d == 3 {
        proof {
            reveal_strlit("3");
            assert("3"@ =~= seq![digit_char(3)]);
        }
        "3"
    } else if d == 4 {
        proof {
            reveal_strlit("4");
            assert("4"@ =~= seq![digit_char(4)]);
        }
        "4"
    } else if d == 5 {
        proof {
            reveal_strlit("5");
            assert("5"@ =~= seq![digit_char(5)]);
        }
        "5"
    } else if d == 6 {
        proof {
            reveal_strlit("6");
            assert("6"@ =~= seq![digit_char(6)]);
        }
        "6"
    } else if d == 7 {
        proof {
            reveal_strlit("7");
            assert("7"@ =~= seq![digit_char(7)]);
        }
        "7"
    } else if d == 8 {
        proof {
            reveal_strlit("8");
            assert("8"@ =~= seq![digit_char(8)]);
        }
        "8"
    } else {
        proof {
            reveal_strlit("9");
            assert("9"@ =~= seq![digit_char(9)]);
        }
        "9"
    }
}

/// Writes `n` in decimal, most significant digit first.
pub fn decimal_string(n: u8) -> (r: String)
    ensures
        r@ == dec_str(n as nat),
    decreases n,
{
    if n < 10 {
        digit_str(n).to_owned()
    } else {
        let prefix = decimal_string(n / 10);
        prefix.concat(digit_str(n % 10))
    }
}

/// The downloader's section-selection token for a trim range.
pub fn section_arg(start: &str, end: &str) -> (r: String)
    ensures
        r@ == section_spec(start@, end@),
{
    let mut s = "*".to_owned();
    s.append(start);
    s.append("-");
    s.append(end);
    proof {
        assert(s@ =~= section_spec(start@, end@));
    }
    s
}

/// The transcoder's bitrate flag for a cap of `b` units.
pub fn bitrate_arg(b: u8) -> (r: String)
    ensures
        r@ == bitrate_arg_spec(b as nat),
{
    let digits = decimal_string(b);
    let mut s = "-b:v=".to_owned();
    s.append(digits.as_str());
    s.append("M");
    proof {
        assert(s@ =~= bitrate_arg_spec(b as nat));
    }
    s
}

/// The downloader's full argument list: the source URL, the
/// section-selection token for the trim range, and the intermediate file as
/// destination.
pub fn download_args(plan: &Plan) -> (r: Vec<String>)
    ensures
        r@.len() == 5,
        r@[0]@ == plan.url@,
        r@[1]@ == "--download-sections"@,
        r@[2]@ == section_spec(plan.trim_start@, plan.trim_end@),
        r@[3]@ == "--output"@,
        r@[4]@ == plan.intermediate@,
{
    let mut v: Vec<String> = Vec::new();
    v.push(plan.url.clone());
    v.push("--download-sections".to_owned());
    v.push(section_arg(plan.trim_start.as_str(), plan.trim_end.as_str()));
    v.push("--output".to_owned());
    v.push(plan.intermediate.clone());
    v
}

/// The transcoder's full argument list: the intermediate file as input, the
/// requested output, the bitrate flag or the stream-copy flag (the unused
/// one left as an empty token), and the overwrite flag.
pub fn transcode_args(step: &TranscodeStep) -> (r: Vec<String>)
    ensures
        r@.len() == 6,
        r@[0]@ == "-i"@,
        r@[1]@ == step.input@,
        r@[2]@ == step.output@,
        step.directive matches Directive::BitrateLimit(b) ==> r@[3]@ == bitrate_arg_spec(b as nat)
            && r@[4]@ == ""@,
        step.directive is StreamCopy ==> r@[3]@ == ""@ && r@[4]@ == "-c=copy"@,
        r@[5]@ == "-y"@,
{
    let (rate, copy) = match step.directive {
        Directive::BitrateLimit(b) => (bitrate_arg(b), "".to_owned()),
        Directive::StreamCopy => ("".to_owned(), "-c=copy".to_owned()),
    };
    let mut v: Vec<String> = Vec::new();
    v.push("-i".to_owned());
    v.push(step.input.clone());
    v.push(step.output.clone());
    v.push(rate);
    v.push(copy);
    v.push("-y".to_owned());
    v
}

} // verus!
