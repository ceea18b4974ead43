//! The SOAP side of the ContentDirectory service: which action a request
//! names, and the fault that answers a request that names none we serve.

use crate::text::{chars_of, slice_is, slice_starts_with};
use vstd::prelude::*;
use vstd::string::{StrSliceExecFns, StringExecFns};

verus! {

/// What every action of the ContentDirectory service starts with.
pub const SERVICE_PREFIX: &'static str = "urn:schemas-upnp-org:service:ContentDirectory:1#";

/// The one action that is served.
pub const BROWSE: &'static str = "Browse";

/// The fault code of every fault: the request was at fault.
pub const FAULT_CODE: &'static str = "SOAP-ENV:Client";

/// The fault string for a request without a `SOAPACTION` header.
pub const NO_HEADER: &'static str = "No Soapaction header.";

/// What the fault string for an action of another service starts with.
pub const UNKNOWN_NAMESPACE: &'static str = "Unknown action namespace: ";

/// What the fault string for an action that is not served starts with.
pub const UNKNOWN_ACTION: &'static str = "Unknown action ";

/// The first index from `i` on that holds no double quote.
pub open spec fn skip_quotes(s: Seq<char>, i: int) -> int
    decreases s.len() - i,
{
    if 0 <= i < s.len() && s[i] == '"' {
        skip_quotes(s, i + 1)
    } else {
        i
    }
}

/// The end of `s` without the double quotes that stand before `j`, down to
/// `lo`.
pub open spec fn drop_quotes(s: Seq<char>, lo: int, j: int) -> int
    decreases j,
{
    if 0 <= lo < j <= s.len() && s[j - 1] == '"' {
        drop_quotes(s, lo, j - 1)
    } else {
        j
    }
}

/// `s` without the double quotes at its start and at its end.
pub open spec fn unquoted(s: Seq<char>) -> Seq<char> {
    let lo = skip_quotes(s, 0);
    s.subrange(lo, drop_quotes(s, lo, s.len() as int))
}

/// The text `s` as a quoted string with its special characters escaped, the
/// way it is shown in messages.
pub uninterp spec fn quoted(s: Seq<char>) -> Seq<char>;

/// Quotes a text for a message.
///
/// Trusted: the `Debug` form of a `str`, through `format!`. The contract
/// only names the result: it is a function of the text alone.
#[verifier::external_body]
pub(crate) fn quote(s: &str) -> (out: String)
    ensures
        out@ == quoted(s@),
{
    format!("{:?}", s)
}

/// What the `SOAPACTION` header of a request asks for.
#[derive(Debug)]
pub enum SoapCall {
    /// The `Browse` action.
    Browse,
    /// An action of the service that is not served, by its name.
    UnknownAction(String),
    /// An action that is not of the ContentDirectory service, as the header
    /// named it.
    UnknownNamespace(String),
    /// The request has no such header.
    NoHeader,
}

/// What a [`SoapCall`] holds.
pub ghost enum SoapCallView {
    Browse,
    UnknownAction(Seq<char>),
    UnknownNamespace(Seq<char>),
    NoHeader,
}

impl View for SoapCall {
    type V = SoapCallView;

    open spec fn view(&self) -> SoapCallView {
        match self {
            SoapCall::Browse => SoapCallView::Browse,
            SoapCall::UnknownAction(name) => SoapCallView::UnknownAction(name@),
            SoapCall::UnknownNamespace(action) => SoapCallView::UnknownNamespace(action@),
            SoapCall::NoHeader => SoapCallView::NoHeader,
        }
    }
}

/// What a `SOAPACTION` header asks for.
///
/// The header names an action between optional double quotes. An action of
/// the ContentDirectory service is the service prefix and a name; only the
/// name `Browse` is served.
pub open spec fn soap_call(header: Option<Seq<char>>) -> SoapCallView {
    match header {
        None => SoapCallView::NoHeader,
        Some(value) => {
            let action = unquoted(value);
            if !SERVICE_PREFIX@.is_prefix_of(action) {
                SoapCallView::UnknownNamespace(action)
            } else {
                let name = action.skip(SERVICE_PREFIX@.len() as int);
                if name == BROWSE@ {
                    SoapCallView::Browse
                } else {
                    SoapCallView::UnknownAction(name)
                }
            }
        },
    }
}

/// Where the double quotes around `text` end and begin.
fn quote_bounds(text: &Vec<char>) -> (bounds: (usize, usize))
    ensures
        bounds.0 == skip_quotes(text@, 0),
        bounds.1 == drop_quotes(text@, bounds.0 as int, text@.len() as int),
        bounds.0 <= bounds.1 <= text@.len(),
{
    let mut lo: usize = 0;
    while lo < text.len() && text[lo] == '"'
        invariant
            lo <= text@.len(),
            skip_quotes(text@, 0) == skip_quotes(text@, lo as int),
        decreases text.len() - lo,
    {
        lo += 1;
    }
    let mut hi: usize = text.len();
    while hi > lo && text[hi - 1] == '"'
        invariant
            lo <= hi <= text@.len(),
            drop_quotes(text@, lo as int, text@.len() as int) == drop_quotes(
                text@,
                lo as int,
                hi as int,
            ),
        decreases hi,
    {
        hi -= 1;
    }
    (lo, hi)
}

/// Reads the `SOAPACTION` header of a request. See [`soap_call`].
pub fn parse_soap_action(header: Option<&str>) -> (call: SoapCall)
    ensures
        call@ == soap_call(
            match header {
                Some(value) => Some(value@),
                None => None,
            },
        ),
{
    let value = match header {
        Some(value) => value,
        None => {
            return SoapCall::NoHeader;
        },
    };
    let text = chars_of(value);
    let (lo, hi) = quote_bounds(&text);
    let ghost action = unquoted(value@);
    if !slice_starts_with(&text, lo, hi, SERVICE_PREFIX) {
        let action = value.substring_char(lo, hi);
        return SoapCall::UnknownNamespace(action.to_owned());
    }
    let from: usize = lo + SERVICE_PREFIX.unicode_len();
    assert(text@.subrange(from as int, hi as int) =~= action.skip(SERVICE_PREFIX@.len() as int));
    if slice_is(&text, from, hi, BROWSE) {
        SoapCall::Browse
    } else {
        let name = value.substring_char(from, hi);
        SoapCall::UnknownAction(name.to_owned())
    }
}

/// A SOAP fault.
#[derive(Debug)]
pub struct Fault {
    pub faultcode: &'static str,
    pub faultstring: String,
}

/// The fault string that answers a call that is not served, if it is not.
pub open spec fn fault_string(call: SoapCallView) -> Option<Seq<char>> {
    match call {
        SoapCallView::Browse => None,
        SoapCallView::UnknownAction(name) => Some(UNKNOWN_ACTION@ + quoted(name)),
        SoapCallView::UnknownNamespace(action) => Some(UNKNOWN_NAMESPACE@ + quoted(action)),
        SoapCallView::NoHeader => Some(NO_HEADER@),
    }
}

/// The fault with the given fault string.
pub fn fault(message: String) -> (fault: Fault)
    ensures
        fault.faultcode@ == FAULT_CODE@,
        fault.faultstring == message,
{
    Fault { faultcode: FAULT_CODE, faultstring: message }
}

/// The fault string for something that is not served: what it is, then its
/// name as quoted by the caller.
pub fn unknown_message(what: &str, quoted_name: &str) -> (message: String)
    ensures
        message@ == what@ + quoted_name@,
{
    let mut message = what.to_owned();
    message.append(quoted_name);
    message
}

/// The fault that answers a call, where the call is not served.
pub fn fault_for(call: &SoapCall) -> (answer: Option<Fault>)
    ensures
        match answer {
            Some(fault) => fault.faultcode@ == FAULT_CODE@ && fault_string(call@) == Some(
                fault.faultstring@,
            ),
            None => fault_string(call@) is None,
        },
{
    match call {
        SoapCall::Browse => None,
        SoapCall::UnknownAction(name) => {
            let name = quote(name.as_str());
            Some(fault(unknown_message(UNKNOWN_ACTION, name.as_str())))
        },
        SoapCall::UnknownNamespace(action) => {
            let action = quote(action.as_str());
            Some(fault(unknown_message(UNKNOWN_NAMESPACE, action.as_str())))
        },
        SoapCall::NoHeader => Some(fault(NO_HEADER.to_owned())),
    }
}

} // verus!
