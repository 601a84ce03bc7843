//! Request framing and the fixed response.
//!
//! A request is complete as soon as the bytes read so far end with the
//! four-byte terminator CR LF CR LF.  The response is one fixed byte
//! sequence: a status line, two headers, a blank line and a twelve-byte
//! body.

use vstd::prelude::*;

verus! {

/// A request may never grow past this many bytes; a longer request fails
/// the connection instead of overflowing its buffer.
pub const REQUEST_CAPACITY: usize = 1024;

/// The four bytes that end a request: CR LF CR LF.
pub open spec fn terminator() -> Seq<u8> {
    seq![13u8, 10u8, 13u8, 10u8]
}

/// Whether the data read so far ends with the request terminator.
pub open spec fn ends_with_terminator(data: Seq<u8>) -> bool {
    data.len() >= 4 && data.subrange(data.len() - 4, data.len() as int) == terminator()
}

/// Scan the filled bytes for the terminator at their end.  Only the last
/// four bytes decide: a terminator split across earlier reads is found once
/// its final byte arrives, and bytes before the fill point are never
/// consulted twice.
pub fn request_complete(buf: &Vec<u8>) -> (r: bool)
    ensures
        r == ends_with_terminator(buf@),
{
    let n = buf.len();
    if n >= 4 {
        let r = buf[n - 4] == 13 && buf[n - 3] == 10 && buf[n - 2] == 13 && buf[n - 1] == 10;
        proof {
            if r {
                assert(buf@.subrange(n - 4, n as int) =~= terminator());
            } else {
                if buf@.subrange(n - 4, n as int) == terminator() {
                    assert(buf@.subrange(n - 4, n as int)[0] == 13u8);
                    assert(buf@.subrange(n - 4, n as int)[1] == 10u8);
                    assert(buf@.subrange(n - 4, n as int)[2] == 13u8);
                    assert(buf@.subrange(n - 4, n as int)[3] == 10u8);
                }
            }
        }
        r
    } else {
        false
    }
}

/// The fixed response, byte for byte: `HTTP/1.1 200 OK\r\n`,
/// `Content-Length: 12\n`, `Connection: close\r\n\r\n`, `Hello world!`.
pub open spec fn response_spec() -> Seq<u8> {
    seq![
        // H     T     T     P     /     1     .     1   sp      2     0     0   sp      O     K
        72u8, 84u8, 84u8, 80u8, 47u8, 49u8, 46u8, 49u8, 32u8, 50u8, 48u8, 48u8, 32u8, 79u8, 75u8,
        13u8, 10u8,
        // C     o      n      t      e      n      t     -      L      e      n      g
        67u8, 111u8, 110u8, 116u8, 101u8, 110u8, 116u8, 45u8, 76u8, 101u8, 110u8, 103u8,
        // t      h     :   sp      1     2
        116u8, 104u8, 58u8, 32u8, 49u8, 50u8, 10u8,
        // C     o      n      n      e      c     t      i      o      n     :   sp
        67u8, 111u8, 110u8, 110u8, 101u8, 99u8, 116u8, 105u8, 111u8, 110u8, 58u8, 32u8,
        // c     l      o      s      e
        99u8, 108u8, 111u8, 115u8, 101u8, 13u8, 10u8, 13u8, 10u8,
        // H     e      l      l      o    sp      w      o      r      l      d     !
        72u8, 101u8, 108u8, 108u8, 111u8, 32u8, 119u8, 111u8, 114u8, 108u8, 100u8, 33u8,
    ]
}

/// How many bytes the fixed response holds.
pub const RESPONSE_LEN: usize = 69;

/// The length the spec sequence works out to.
pub proof fn lemma_response_len()
    ensures
        response_spec().len() == RESPONSE_LEN,
{
}

/// Build the fixed response.
pub fn response_bytes() -> (r: Vec<u8>)
    ensures
        r@ == response_spec(),
        r@.len() == RESPONSE_LEN,
{
    let mut r: Vec<u8> = Vec::new();
    r.push(72); r.push(84); r.push(84); r.push(80); r.push(47);
    r.push(49); r.push(46); r.push(49); r.push(32); r.push(50);
    r.push(48); r.push(48); r.push(32); r.push(79); r.push(75);
    r.push(13); r.push(10);
    r.push(67); r.push(111); r.push(110); r.push(116); r.push(101);
    r.push(110); r.push(116); r.push(45); r.push(76); r.push(101);
    r.push(110); r.push(103); r.push(116); r.push(104); r.push(58);
    r.push(32); r.push(49); r.push(50); r.push(10);
    r.push(67); r.push(111); r.push(110); r.push(110); r.push(101);
    r.push(99); r.push(116); r.push(105); r.push(111); r.push(110);
    r.push(58); r.push(32); r.push(99); r.push(108); r.push(111);
    r.push(115); r.push(101); r.push(13); r.push(10); r.push(13); r.push(10);
    r.push(72); r.push(101); r.push(108); r.push(108); r.push(111);
    r.push(32); r.push(119); r.push(111); r.push(114); r.push(108);
    r.push(100); r.push(33);
    proof {
        assert(r@ =~= response_spec());
    }
    r
}

} // verus!
