use vstd::prelude::*;

verus! {

/// The bytes of the request that a peer answers: the ASCII text `ping`.
pub open spec fn ping_bytes() -> Seq<u8> {
    seq![112u8, 105u8, 110u8, 103u8]
}

/// The bytes of the answer: the ASCII text `pong`.
pub open spec fn pong_bytes() -> Seq<u8> {
    seq![112u8, 111u8, 110u8, 103u8]
}

/// The bytes sent to a peer that has just connected: the ASCII text
/// `Thanks for joining the Server`.
pub open spec fn greeting_bytes() -> Seq<u8> {
    seq![
        84u8, 104u8, 97u8, 110u8, 107u8, 115u8, 32u8, 102u8, 111u8, 114u8, 32u8, 106u8, 111u8,
        105u8, 110u8, 105u8, 110u8, 103u8, 32u8, 116u8, 104u8, 101u8, 32u8, 83u8, 101u8, 114u8,
        118u8, 101u8, 114u8,
    ]
}

/// The request, as bytes to send.
pub fn ping() -> (bytes: Vec<u8>)
    ensures
        bytes@ == ping_bytes(),
{
    let bytes: Vec<u8> = vec![112u8, 105u8, 110u8, 103u8];
    assert(bytes@ =~= ping_bytes());
    bytes
}

/// The answer, as bytes to send.
pub fn pong() -> (bytes: Vec<u8>)
    ensures
        bytes@ == pong_bytes(),
{
    let bytes: Vec<u8> = vec![112u8, 111u8, 110u8, 103u8];
    assert(bytes@ =~= pong_bytes());
    bytes
}

/// The greeting, as bytes to send.
pub fn greeting() -> (bytes: Vec<u8>)
    ensures
        bytes@ == greeting_bytes(),
{
    let bytes: Vec<u8> = vec![
        84u8, 104u8, 97u8, 110u8, 107u8, 115u8, 32u8, 102u8, 111u8, 114u8, 32u8, 106u8, 111u8,
        105u8, 110u8, 105u8, 110u8, 103u8, 32u8, 116u8, 104u8, 101u8, 32u8, 83u8, 101u8, 114u8,
        118u8, 101u8, 114u8,
    ];
    assert(bytes@ =~= greeting_bytes());
    bytes
}

/// Whether a payload is the request, byte for byte.
pub fn is_ping(payload: &[u8]) -> (b: bool)
    ensures
        b == (payload@ == ping_bytes()),
{
    if payload.len() != 4 {
        assert(ping_bytes().len() == 4);
        return false;
    }
    let b = payload[0] == 112u8 && payload[1] == 105u8 && payload[2] == 110u8 && payload[3] == 103u8;
    if b {
        assert(payload@ =~= ping_bytes());
    } else {
        assert(ping_bytes()[0] == 112u8 && ping_bytes()[1] == 105u8 && ping_bytes()[2] == 110u8
            && ping_bytes()[3] == 103u8);
    }
    b
}

} // verus!
