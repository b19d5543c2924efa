//! `GET /api/v1/ping`: the hot-path benchmark target, answered with a body
//! fixed at compile time.
use vstd::prelude::*;

verus! {

/// The pong body `{"success":true,"message":"pong"}`, as bytes.
pub open spec fn pong_body() -> Seq<u8> {
    seq![
        123u8, 34, 115, 117, 99, 99, 101, 115, 115, 34, 58, 116, 114, 117, 101, 44, 34, 109, 101,
        115, 115, 97, 103, 101, 34, 58, 34, 112, 111, 110, 103, 34, 125,
    ]
}

/// The pre-serialized pong response body.
pub const PONG_BODY: [u8; 33] = [
    123, 34, 115, 117, 99, 99, 101, 115, 115, 34, 58, 116, 114, 117, 101, 44, 34, 109, 101, 115,
    115, 97, 103, 101, 34, 58, 34, 112, 111, 110, 103, 34, 125,
];

/// The ping answer without HTTP: the pong body, no allocation.
pub fn ping_direct() -> (r: &'static [u8])
    ensures
        r@ == pong_body(),
{
    assert(PONG_BODY@ =~= pong_body());
    PONG_BODY.as_slice()
}

} // verus!
