//! Device labels shown in the user's account.

use vstd::prelude::*;
use crate::text::{
    trim, trim_by, ws_pred, eq_pred, class_pred, CharClass, chars_of, string_of, trim_vec, chars_eq,
    cat, owned, upper_seq,
};
use crate::ifc::upper_vec;

verus! {

/// `Vex Atlas on <host>`, where the host is the trimmed host name when it is
/// non-empty and `Vex desktop` otherwise.
pub open spec fn spec_default_device_label(host: Option<Seq<char>>) -> Seq<char> {
    let h = match host {
        Some(v) => if trim(v).len() > 0 {
            trim(v)
        } else {
            "Vex desktop"@
        },
        None => "Vex desktop"@,
    };
    "Vex Atlas on "@ + h
}

/// The default label for a machine whose host name (from `COMPUTERNAME` or
/// `HOSTNAME`) is `host`.
pub fn default_device_label(host: Option<String>) -> (r: String)
    ensures
        r@ == spec_default_device_label(
            match host {
                Some(h) => Some(h@),
                None => None,
            },
        ),
{
    let h = match &host {
        Some(v) => {
            let t = trim_vec(&chars_of(v.as_str()), &CharClass::Whitespace);
            proof {
                assert(class_pred(CharClass::Whitespace) == ws_pred());
            }
            if t.len() > 0 {
                t
            } else {
                chars_of("Vex desktop")
            }
        },
        None => chars_of("Vex desktop"),
    };
    string_of(&cat(&chars_of("Vex Atlas on "), &h))
}

/// Shell placeholders for the computer name that a launcher passed unexpanded.
pub open spec fn spec_is_computer_name_placeholder(v: Seq<char>) -> bool {
    let n = upper_seq(trim_by(trim_by(v, eq_pred('"')), eq_pred('\'')));
    n == "%COMPUTERNAME%"@ || n == "%COMPUTER%"@ || n == "$ENV:COMPUTERNAME"@ || n
        == "${ENV:COMPUTERNAME}"@ || n == "$COMPUTERNAME"@ || n == "${COMPUTERNAME}"@ || n
        == "%HOSTNAME%"@ || n == "$HOSTNAME"@ || n == "${HOSTNAME}"@
}

pub fn is_computer_name_placeholder(value: &str) -> (r: bool)
    ensures
        r == spec_is_computer_name_placeholder(value@),
{
    let a = trim_vec(&chars_of(value), &CharClass::Exactly('"'));
    let b = trim_vec(&a, &CharClass::Exactly('\''));
    proof {
        assert(class_pred(CharClass::Exactly('"')) == eq_pred('"'));
        assert(class_pred(CharClass::Exactly('\'')) == eq_pred('\''));
    }
    let n = upper_vec(&b);
    chars_eq(&n, &chars_of("%COMPUTERNAME%")) || chars_eq(&n, &chars_of("%COMPUTER%")) || chars_eq(
        &n,
        &chars_of("$ENV:COMPUTERNAME"),
    ) || chars_eq(&n, &chars_of("${ENV:COMPUTERNAME}")) || chars_eq(&n, &chars_of("$COMPUTERNAME"))
        || chars_eq(&n, &chars_of("${COMPUTERNAME}")) || chars_eq(&n, &chars_of("%HOSTNAME%"))
        || chars_eq(&n, &chars_of("$HOSTNAME")) || chars_eq(&n, &chars_of("${HOSTNAME}"))
}

/// The trimmed input unless it is blank or a placeholder; otherwise `default_label`.
pub open spec fn spec_resolve_device_label(input: Option<Seq<char>>, default_label: Seq<char>) -> Seq<char> {
    match input {
        Some(v) => if spec_is_computer_name_placeholder(trim(v)) {
            default_label
        } else if trim(v).len() > 0 {
            trim(v)
        } else {
            default_label
        },
        None => default_label,
    }
}

/// Resolve a requested device label; `default_label` is the machine's default
/// label (see [`default_device_label`]).
pub fn resolve_device_label(input: Option<String>, default_label: String) -> (r: String)
    ensures
        r@ == spec_resolve_device_label(
            match input {
                Some(v) => Some(v@),
                None => None,
            },
            default_label@,
        ),
{
    match input {
        Some(v) => {
            let t = trim_vec(&chars_of(v.as_str()), &CharClass::Whitespace);
            proof {
                assert(class_pred(CharClass::Whitespace) == ws_pred());
            }
            let ts = string_of(&t);
            if is_computer_name_placeholder(ts.as_str()) {
                default_label
            } else if t.len() > 0 {
                ts
            } else {
                default_label
            }
        },
        None => default_label,
    }
}

/// A resolved device label is never empty: a blank or placeholder request
/// falls back to the machine's default label.
pub proof fn law_resolved_label_is_never_empty(input: Option<Seq<char>>, host: Option<Seq<char>>)
    ensures
        spec_resolve_device_label(input, spec_default_device_label(host)).len() > 0,
{
    reveal_strlit("Vex Atlas on ");
}

} // verus!
