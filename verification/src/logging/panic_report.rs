//! What is logged about a panic.
use vstd::prelude::*;

verus! {

/// The text that stands for a location that is not known.
pub open spec fn location_text(location: Option<Seq<char>>) -> Seq<char> {
    match location {
        Some(text) => text,
        None => "<unknown>"@,
    }
}

/// The text that stands for a payload that is not text.
pub open spec fn payload_text(payload: Option<Seq<char>>) -> Seq<char> {
    match payload {
        Some(text) => text,
        None => "<unknown payload>"@,
    }
}

/// The view of an optional text.
pub open spec fn optional_text(text: Option<&str>) -> Option<Seq<char>> {
    match text {
        Some(t) => Some(t@),
        None => None,
    }
}

/// An optional text is viewed as its characters, all of them, or as none.
pub proof fn law_optional_text(text: &str)
    ensures
        optional_text(Some(text)) == Some(text@),
        optional_text(None) is None,
{
}

/// A location and a payload that are known are reported as they are, and each that is not by a
/// text of its own.
pub proof fn law_what_is_known_is_reported(text: Seq<char>)
    ensures
        location_text(Some(text)) == text,
        payload_text(Some(text)) == text,
        location_text(None) == "<unknown>"@,
        payload_text(None) == "<unknown payload>"@,
        location_text(None) != payload_text(None),
{
    reveal_strlit("<unknown>");
    reveal_strlit("<unknown payload>");
}

/// The two messages that are logged about a panic, in this order.
#[derive(Debug)]
pub struct PanicReport {
    pub panic: String,
    pub backtrace: String,
}

/// Reports a panic. `payload` is what the panic carried, where that was text.
pub fn tracing_panic_hook(
    thread: &str,
    location: Option<&str>,
    payload: Option<&str>,
    backtrace: &str,
) -> (r: PanicReport)
    ensures
        r.panic@ == "panic on "@ + thread@ + " at "@ + location_text(optional_text(location))
            + ": "@ + payload_text(optional_text(payload)),
        r.backtrace@ == "backtrace:\n"@ + backtrace@,
        location matches Some(at) ==> (payload matches Some(text) ==> r.panic@ == "panic on "@
            + thread@ + " at "@ + at@ + ": "@ + text@),
{
    let location = match location {
        Some(text) => text,
        None => "<unknown>",
    };
    let payload = match payload {
        Some(text) => text,
        None => "<unknown payload>",
    };
    let mut panic = "panic on ".to_owned();
    panic.append(thread);
    panic.append(" at ");
    panic.append(location);
    panic.append(": ");
    panic.append(payload);
    let mut trace = "backtrace:\n".to_owned();
    trace.append(backtrace);
    PanicReport { panic, backtrace: trace }
}

} // verus!
