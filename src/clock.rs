use vstd::prelude::*;

verus! {

/// Relies on chrono::Local::now and its `format`: the local time of the call,
/// written as `%Y-%m-%d %H:%M:%S`. It depends on the clock and the machine's
/// time zone, so nothing is stated of the text.
#[verifier::external_body]
pub(crate) fn local_timestamp() -> String {
    chrono::Local::now().format("%Y-%m-%d %H:%M:%S").to_string()
}

} // verus!
