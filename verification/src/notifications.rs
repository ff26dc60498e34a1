//! The desktop notification command line (`notify-send`).

use vstd::prelude::*;
use crate::text::{decimal, push_decimal};

verus! {

/// The `notify-send` arguments: application name, title, message, the hint
/// that makes notifications replace each other and, when given, a progress
/// value hint.
pub open spec fn notify_args(title: Seq<char>, message: Seq<char>, progress: Option<u8>) -> Seq<Seq<char>> {
    let base = seq![
        "--app-name"@,
        "Mimick"@,
        title,
        message,
        "-h"@,
        "string:x-canonical-private-synchronous:mimick-progress"@,
    ];
    match progress {
        Some(p) => base + seq!["-h"@, "int:value:"@ + decimal(p as nat)],
        None => base,
    }
}

/// Builds the `notify-send` arguments for a notification.
pub fn notification_args(title: &str, message: &str, progress: Option<u8>) -> (args: Vec<String>)
    ensures
        args@.map_values(|a: String| a@) == notify_args(title@, message@, progress),
{
    let mut args: Vec<String> = Vec::new();
    args.push(String::from_str("--app-name"));
    args.push(String::from_str("Mimick"));
    args.push(String::from_str(title));
    args.push(String::from_str(message));
    args.push(String::from_str("-h"));
    args.push(String::from_str("string:x-canonical-private-synchronous:mimick-progress"));
    match progress {
        Some(p) => {
            args.push(String::from_str("-h"));
            let mut v = String::from_str("int:value:");
            push_decimal(&mut v, p as u64);
            args.push(v);
        },
        None => {},
    }
    assert(args@.map_values(|a: String| a@) =~= notify_args(title@, message@, progress));
    args
}

} // verus!
