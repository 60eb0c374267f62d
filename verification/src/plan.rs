//! The run plan: what the tool has decided to do before any external
//! process is started. A plan names the intermediate download file, and
//! holds the optional transcode step together with whether the intermediate
//! file is to be removed afterwards.

use vstd::prelude::*;

use crate::naming::{intermediate_name, intermediate_spec, out_ext_or_default, output_extension};
use crate::quality::{effective_quality, parse_quality, quality_value};

verus! {

/// How the transcoder is to write its output: capped at a target video
/// bitrate, or copying the streams unchanged.
#[derive(Clone, Copy, Debug, PartialEq, Eq)]
pub enum Directive {
    BitrateLimit(u8),
    StreamCopy,
}

/// One conversion of the intermediate file into the requested output.
#[derive(Debug, PartialEq, Eq)]
pub struct TranscodeStep {
    pub input: String,
    pub output: String,
    pub directive: Directive,
}

/// Everything a run does, decided up front: download into the intermediate
/// file, optionally transcode it to the output, and remove the intermediate
/// file exactly when a transcode ran.
#[derive(Debug, PartialEq, Eq)]
pub struct Plan {
    pub url: String,
    pub trim_start: String,
    pub trim_end: String,
    pub intermediate: String,
    pub transcode: Option<TranscodeStep>,
    pub remove_intermediate: bool,
}

#[derive(Clone, Copy, Debug, PartialEq, Eq)]
pub enum PlanError {
    InvalidQuality,
}

/// The reference maximum video bitrate, scaled linearly by the quality
/// percentage.
pub open spec fn bitrate_spec(q: nat) -> nat {
    12 * q / 100
}

/// The transcoder directive for a quality percentage: a bitrate cap below
/// full quality, a stream copy at or above it.
pub open spec fn directive_for(q: nat) -> Directive {
    if q < 100 {
        Directive::BitrateLimit(bitrate_spec(q) as u8)
    } else {
        Directive::StreamCopy
    }
}

/// A transcode is needed when the requested output extension differs from
/// the downloader's fixed container, or a quality was asked for.
pub open spec fn needs_transcode(output: Seq<char>, quality_given: bool) -> bool {
    out_ext_or_default(output) != "webm"@ || quality_given
}

pub open spec fn quality_view(q: Option<String>) -> Option<Seq<char>> {
    match q {
        Some(s) => Some(s@),
        None => None,
    }
}

/// The target video bitrate for a quality percentage: the quality's share
/// of the 12-unit reference maximum, rounded down.
pub fn bitrate_for(quality: u8) -> (r: u8)
    ensures
        r as nat == bitrate_spec(quality as nat),
{
    ((12u16 * (quality as u16)) / 100) as u8
}

/// Decides the whole run from the parsed arguments: derives the
/// intermediate filename, reads the quality, and settles whether and how a
/// transcode runs. Fails exactly when a quality token was given whose
/// digits name no valid percentage.
pub fn make_plan(url: &str, output: &str, quality: &Option<String>, trim: &(String, String)) -> (r:
    Result<Plan, PlanError>)
    ensures
        (r is Err) <==> ((*quality) matches Some(s) && quality_value(s@) is None),
        r matches Err(e) ==> e == PlanError::InvalidQuality,
        r matches Ok(p) ==> {
            &&& p.url@ == url@
            &&& p.trim_start@ == trim.0@
            &&& p.trim_end@ == trim.1@
            &&& p.intermediate@ == intermediate_spec(output@)
            &&& (p.transcode is Some) <==> needs_transcode(output@, (*quality) is Some)
            &&& p.remove_intermediate <==> (p.transcode is Some)
            &&& (p.transcode matches Some(t) ==> {
                &&& t.input@ == intermediate_spec(output@)
                &&& t.output@ == output@
                &&& (effective_quality(quality_view(*quality)) matches Some(q) && t.directive
                    == directive_for(q))
            })
        },
{
    let intermediate = intermediate_name(output);
    let out_ext = output_extension(output);
    let webm = "webm".to_owned();
    let needs = !(out_ext == webm) || quality.is_some();
    if !needs {
        return Ok(
            Plan {
                url: url.to_owned(),
                trim_start: trim.0.clone(),
                trim_end: trim.1.clone(),
                intermediate,
                transcode: None,
                remove_intermediate: false,
            },
        );
    }
    let q = match parse_quality(quality) {
        Some(q) => q,
        None => {
            return Err(PlanError::InvalidQuality);
        },
    };
    let directive = if q < 100 {
        Directive::BitrateLimit(bitrate_for(q))
    } else {
        Directive::StreamCopy
    };
    let step = TranscodeStep { input: intermediate.clone(), output: output.to_owned(), directive };
    Ok(
        Plan {
            url: url.to_owned(),
            trim_start: trim.0.clone(),
            trim_end: trim.1.clone(),
            intermediate,
            transcode: Some(step),
            remove_intermediate: true,
        },
    )
}

} // verus!
