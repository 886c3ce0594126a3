//! The pure core of IP detection: turning what a detector fetched — a
//! command's captured standard output, or an HTTP response body — into an
//! IP address, or into the error that says why there is none.

use vstd::prelude::*;
use vstd::string::StringExecFns;
use vstd::string::StringSliceAdditionalSpecFns;
use crate::addr::{parse_ip_spec, parse_ip_trimmed, trim_spec, IpAddress};
use crate::daemon::{DetectCause, RefreshErrorKind};

verus! {

/// A pattern compilation error of the regular-expression engine.
#[verifier::external_type_specification]
#[verifier::external_body]
pub struct ExRegexError(regex::Error);

/// Whether a pattern is a well-formed regular expression.
pub uninterp spec fn regex_ok(pattern: Seq<u8>) -> bool;

/// What the first capture group of a pattern's first match in a text holds:
/// `None` when the pattern does not match the text, or matches without a
/// first capture group.
pub uninterp spec fn regex_capture(pattern: Seq<u8>, text: Seq<u8>) -> Option<Seq<u8>>;

/// Relies on regex::Regex::new and regex::Regex::captures: whether a pattern
/// compiles, and what the first capture group of its first match in a text
/// holds, are functions of the pattern and the text alone.
#[verifier::external_body]
fn regex_first_capture(pattern: &str, text: &str) -> (r: Result<Option<Vec<u8>>, regex::Error>)
    ensures
        r is Ok <==> regex_ok(pattern.spec_bytes()),
        (match r {
            Ok(Some(c)) => regex_capture(pattern.spec_bytes(), text.spec_bytes()) == Some(c@),
            Ok(None) => regex_capture(pattern.spec_bytes(), text.spec_bytes()) is None,
            Err(_) => true,
        }),
{
    match regex::Regex::new(pattern) {
        Ok(re) => match re.captures(text) {
            Some(caps) => match caps.get(1) {
                Some(m) => Ok(Some(m.as_str().as_bytes().to_vec())),
                None => Ok(None),
            },
            None => Ok(None),
        },
        Err(e) => Err(e),
    }
}

/// The command strategy's parsing step: trim the command's captured standard
/// output and read it as an IP literal. Output that does not trim to a
/// literal — among it output that is not text at all — is a detection error.
pub fn cmd_output_address(stdout: &[u8]) -> (r: Result<IpAddress, RefreshErrorKind>)
    ensures
        match r {
            Ok(ip) => parse_ip_spec(trim_spec(stdout@)) == Some(ip),
            Err(e) => parse_ip_spec(trim_spec(stdout@)) is None && (e matches
                RefreshErrorKind::DetectError(c) && c is AddressParse),
        },
{
    match parse_ip_trimmed(stdout) {
        Some(ip) => Ok(ip),
        None => Err(RefreshErrorKind::DetectError(DetectCause::AddressParse)),
    }
}

/// The HTTP strategy's extraction step. Without a pattern, the trimmed body
/// is the candidate. With one, the pattern's first capture group in the body
/// is the candidate; a pattern that does not compile is a detection error,
/// and one that yields no capture is a runtime error that names the body and
/// the pattern. A candidate that does not trim to an IP literal is a
/// detection error.
pub fn http_body_address(body: &str, pattern: Option<&str>) -> (r: Result<
    IpAddress,
    RefreshErrorKind,
>)
    ensures
        match pattern {
            None => match r {
                Ok(ip) => parse_ip_spec(trim_spec(body.spec_bytes())) == Some(ip),
                Err(e) => parse_ip_spec(trim_spec(body.spec_bytes())) is None && (e matches
                    RefreshErrorKind::DetectError(c) && c is AddressParse),
            },
            Some(p) => if !regex_ok(p.spec_bytes()) {
                r matches Err(RefreshErrorKind::DetectError(c)) && c is PatternInvalid
            } else {
                match regex_capture(p.spec_bytes(), body.spec_bytes()) {
                    None => r matches Err(RefreshErrorKind::RuntimeError(m)) && m@
                        == "Unable to find IP in "@ + body@ + " with regex "@ + p@,
                    Some(c) => match r {
                        Ok(ip) => parse_ip_spec(trim_spec(c)) == Some(ip),
                        Err(e) => parse_ip_spec(trim_spec(c)) is None && (e matches
                            RefreshErrorKind::DetectError(cause) && cause is AddressParse),
                    },
                }
            },
        },
{
    match pattern {
        None => match parse_ip_trimmed(body.as_bytes()) {
            Some(ip) => Ok(ip),
            None => Err(RefreshErrorKind::DetectError(DetectCause::AddressParse)),
        },
        Some(p) => match regex_first_capture(p, body) {
            Err(_) => Err(RefreshErrorKind::DetectError(DetectCause::PatternInvalid)),
            Ok(None) => {
                let mut msg = String::new();
                msg.append("Unable to find IP in ");
                msg.append(body);
                msg.append(" with regex ");
                msg.append(p);
                proof {
                    assert(msg@ =~= "Unable to find IP in "@ + body@ + " with regex "@ + p@);
                }
                Err(RefreshErrorKind::RuntimeError(msg))
            },
            Ok(Some(c)) => match parse_ip_trimmed(c.as_slice()) {
                Some(ip) => Ok(ip),
                None => Err(RefreshErrorKind::DetectError(DetectCause::AddressParse)),
            },
        },
    }
}

} // verus!
