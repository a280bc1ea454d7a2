//! Removing identifying data from a panic log before it is stored: serial
//! number, IMEI, UDID, device name and the user folder of a path.
use crate::patterns::{regex_replace_all, regex_replaced};
use vstd::prelude::*;

verus! {

pub open spec fn serial_pattern() -> Seq<char> {
    "(?i)(serial(?: number|\\s*n\u{c2}\u{b0})?\\s*[:=]\\s*)[A-Za-z0-9-]+"@
}

pub open spec fn imei_pattern() -> Seq<char> {
    "(?i)(imei\\s*[:=]\\s*)[0-9]+"@
}

pub open spec fn udid_pattern() -> Seq<char> {
    "(?i)(udid\\s*[:=]\\s*)[A-Za-z0-9-]+"@
}

pub open spec fn device_name_pattern() -> Seq<char> {
    "(?i)(device name\\s*[:=]\\s*).+"@
}

pub open spec fn user_folder_pattern() -> Seq<char> {
    "(?i)(/users?/|\\\\users\\\\)[^\\\\\\r\\n/]+(\\\\|/)"@
}

/// The log after the five replacements, in order: the value after a serial
/// number, an IMEI, a UDID and a device name becomes `[REDACTED]`, and the
/// user folder of a path `[REDACTED_USER]`.
pub open spec fn anonymized(log: Seq<char>) -> Seq<char> {
    let a = regex_replaced(serial_pattern(), log, "$1[REDACTED]"@);
    let b = regex_replaced(imei_pattern(), a, "$1[REDACTED]"@);
    let c = regex_replaced(udid_pattern(), b, "$1[REDACTED]"@);
    let d = regex_replaced(device_name_pattern(), c, "$1[REDACTED]"@);
    regex_replaced(user_folder_pattern(), d, "${1}[REDACTED_USER]${2}"@)
}

pub fn anonymize_panic_log(log: &str) -> (r: String)
    ensures
        r@ == anonymized(log@),
{
    let a = regex_replace_all("(?i)(serial(?: number|\\s*n\u{c2}\u{b0})?\\s*[:=]\\s*)[A-Za-z0-9-]+", log, "$1[REDACTED]");
    let b = regex_replace_all("(?i)(imei\\s*[:=]\\s*)[0-9]+", a.as_str(), "$1[REDACTED]");
    let c = regex_replace_all("(?i)(udid\\s*[:=]\\s*)[A-Za-z0-9-]+", b.as_str(), "$1[REDACTED]");
    let d = regex_replace_all("(?i)(device name\\s*[:=]\\s*).+", c.as_str(), "$1[REDACTED]");
    regex_replace_all("(?i)(/users?/|\\\\users\\\\)[^\\\\\\r\\n/]+(\\\\|/)", d.as_str(), "${1}[REDACTED_USER]${2}")
}

} // verus!
