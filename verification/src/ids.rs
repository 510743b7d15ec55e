//! Row-identifier generation.
//!
//! An identifier embeds a high-resolution timestamp followed by a
//! process-local counter value, both rendered in lowercase hexadecimal, so
//! that two identifiers drawn in the same instant still differ.  The caller
//! supplies the two values; reading the clock and stepping the counter are
//! the application's concern.

use vstd::prelude::*;
use vstd::string::StringExecFns;
use crate::encoding::{hex_of, u128_to_hex};

verus! {

/// The identifier formed from a timestamp (in nanoseconds) and a counter
/// value: the hexadecimal rendering of the first followed by that of the
/// second.
pub open spec fn id_of(ts_nanos: nat, counter: nat) -> Seq<char> {
    hex_of(ts_nanos) + hex_of(counter)
}

/// Formats the identifier for one (timestamp, counter) draw.
pub fn gen_id(ts_nanos: u128, counter: u32) -> (r: String)
    ensures
        r@ == id_of(ts_nanos as nat, counter as nat),
{
    let prefix = u128_to_hex(ts_nanos);
    let r = prefix.concat(u128_to_hex(counter as u128).as_str());
    r
}

} // verus!
