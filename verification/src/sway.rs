//! The protocol of Sway's control socket: a header of six magic bytes, the length of
//! the payload and the kind of the message, and then the payload.

use vstd::prelude::*;

verus! {

/// The kind of a request for the outputs.
pub const GET_OUTPUTS: u32 = 3;

/// The length of a header.
pub const HEADER_LENGTH: usize = 14;

/// The order in which the bytes of a number follow each other.
pub enum ByteOrder {
    /// The lowest byte first.
    Little,
    /// The highest byte first.
    Big,
}

/// The letters `i3-ipc`, with which each message begins.
pub open spec fn magic() -> Seq<u8> {
    seq![105u8, 51u8, 45u8, 105u8, 112u8, 99u8]
}

/// The four bytes of a number, the lowest first.
pub open spec fn low_first(x: u32) -> Seq<u8> {
    seq![
        (x % 256) as u8,
        (x / 256 % 256) as u8,
        (x / 65536 % 256) as u8,
        (x / 16777216) as u8,
    ]
}

/// The four bytes of a number.
pub open spec fn number_bytes(order: ByteOrder, x: u32) -> Seq<u8> {
    match order {
        ByteOrder::Little => low_first(x),
        ByteOrder::Big => low_first(x).reverse(),
    }
}

/// The number that four bytes stand for, the lowest first.
pub open spec fn low_first_value(b: Seq<u8>) -> nat {
    (b[0] + 256 * b[1] + 65536 * b[2] + 16777216 * b[3]) as nat
}

/// The number that four bytes stand for.
pub open spec fn bytes_value(order: ByteOrder, b: Seq<u8>) -> nat {
    match order {
        ByteOrder::Little => low_first_value(b),
        ByteOrder::Big => low_first_value(b.reverse()),
    }
}

/// A message of one kind with a payload. Of the payload's length, the header has
/// room for the lowest 32 bits.
pub open spec fn message(order: ByteOrder, kind: u32, payload: Seq<u8>) -> Seq<u8> {
    magic() + number_bytes(order, (payload.len() % 0x1_0000_0000) as u32) + number_bytes(order, kind)
        + payload
}

/// The length of the payload that a header announces; nothing where the header does
/// not begin with the magic bytes.
pub open spec fn announced(order: ByteOrder, header: Seq<u8>) -> Option<nat> {
    if header.take(6) == magic() {
        Some(bytes_value(order, header.subrange(6, 10)))
    } else {
        None
    }
}

/// Calls `u32::to_ne_bytes`, which gives the bytes of a number in the order of the
/// machine. What is claimed is that this is one of the two orders; which of them
/// depends on the machine and is left unsaid.
#[verifier::external_body]
fn native_bytes(x: u32) -> (r: [u8; 4])
    ensures
        r@ == number_bytes(ByteOrder::Little, x) || r@ == number_bytes(ByteOrder::Big, x),
{
    x.to_ne_bytes()
}

/// The order in which the bytes of the number one were written, which is that of the
/// machine where they are `native_bytes`.
fn native_order(one: &[u8; 4]) -> (order: ByteOrder)
    requires
        one@ == number_bytes(ByteOrder::Little, 1) || one@ == number_bytes(ByteOrder::Big, 1),
    ensures
        one@ == number_bytes(order, 1),
{
    if one[0] == 1 {
        ByteOrder::Little
    } else {
        ByteOrder::Big
    }
}

fn push_number(out: &mut Vec<u8>, order: &ByteOrder, x: u32)
    ensures
        final(out)@ == old(out)@ + number_bytes(*order, x),
{
    let b0: u8 = (x % 256) as u8;
    let b1: u8 = (x / 256 % 256) as u8;
    let b2: u8 = (x / 65536 % 256) as u8;
    let b3: u8 = (x / 16777216) as u8;
    match order {
        ByteOrder::Little => {
            out.push(b0);
            out.push(b1);
            out.push(b2);
            out.push(b3);
        },
        ByteOrder::Big => {
            out.push(b3);
            out.push(b2);
            out.push(b1);
            out.push(b0);
        },
    }
    assert(out@ =~= old(out)@ + number_bytes(*order, x));
}

/// The bytes of a request in a given order.
pub fn request_in(order: &ByteOrder, kind: u32, payload: &[u8]) -> (r: Vec<u8>)
    ensures
        r@ == message(*order, kind, payload@),
{
    let mut out: Vec<u8> = Vec::new();
    out.push(105);
    out.push(51);
    out.push(45);
    out.push(105);
    out.push(112);
    out.push(99);
    assert(out@ =~= magic());
    let wide: u64 = payload.len() as u64;
    let length: u32 = (wide % 0x1_0000_0000) as u32;
    push_number(&mut out, order, length);
    push_number(&mut out, order, kind);
    let ghost header = out@;
    let mut i: usize = 0;
    while i < payload.len()
        invariant
            i <= payload@.len(),
            out@ == header + payload@.take(i as int),
        decreases payload@.len() - i,
    {
        out.push(payload[i]);
        assert(payload@.take(i + 1) =~= payload@.take(i as int).push(payload@[i as int]));
        assert(out@ =~= header + payload@.take(i + 1));
        i += 1;
    }
    assert(payload@.take(payload@.len() as int) =~= payload@);
    out
}

/// The bytes of a request in the order of the machine. Which of the two orders that is
/// depends on the machine, so the contract leaves it open.
pub fn request(kind: u32, payload: &[u8]) -> (r: Vec<u8>)
    ensures
        r@ == message(ByteOrder::Little, kind, payload@) || r@ == message(ByteOrder::Big, kind, payload@),
{
    let order = native_order(&native_bytes(1));
    request_in(&order, kind, payload)
}

/// The length of the payload that a header announces, read in a given order.
pub fn reply_length_in(order: &ByteOrder, header: &[u8; 14]) -> (r: Option<u32>)
    ensures
        (match r {
            Some(n) => announced(*order, header@) == Some(n as nat),
            None => announced(*order, header@) is None,
        }),
{
    let known = header[0] == 105 && header[1] == 51 && header[2] == 45 && header[3] == 105 && header[4]
        == 112 && header[5] == 99;
    if !known {
        assert(header@.take(6) != magic()) by {
            if header@.take(6) == magic() {
                let h = header@.take(6);
                assert(h[0] == 105 && h[1] == 51 && h[2] == 45 && h[3] == 105 && h[4] == 112 && h[5] == 99);
            }
        }
        return None;
    }
    assert(header@.take(6) =~= magic());
    let ghost field = header@.subrange(6, 10);
    let (b0, b1, b2, b3) = match order {
        ByteOrder::Little => (header[6], header[7], header[8], header[9]),
        ByteOrder::Big => (header[9], header[8], header[7], header[6]),
    };
    Some(b0 as u32 + 256 * (b1 as u32) + 65536 * (b2 as u32) + 16777216 * (b3 as u32))
}

/// The length of the payload that a header announces, read in the order of the
/// machine. Which of the two orders that is depends on the machine, so the contract
/// leaves it open.
pub fn reply_length(header: &[u8; 14]) -> (r: Option<u32>)
    ensures
        r is None <==> header@.take(6) != magic(),
        r matches Some(n) ==> announced(ByteOrder::Little, header@) == Some(n as nat) || announced(
            ByteOrder::Big,
            header@,
        ) == Some(n as nat),
{
    let order = native_order(&native_bytes(1));
    reply_length_in(&order, header)
}

/// The bytes of a number, read in the order in which they were written, give the
/// number back.
pub proof fn a_number_reads_back(order: ByteOrder, x: u32)
    ensures
        number_bytes(order, x).len() == 4,
        bytes_value(order, number_bytes(order, x)) == x,
{
    let b = low_first(x);
    assert(b.reverse().reverse() =~= b);
}

/// The header of a message announces its payload, and the payload follows it.
pub proof fn a_message_announces_its_payload(order: ByteOrder, kind: u32, payload: Seq<u8>)
    requires
        payload.len() < 0x1_0000_0000,
    ensures
        message(order, kind, payload).len() == HEADER_LENGTH + payload.len(),
        announced(order, message(order, kind, payload).take(HEADER_LENGTH as int)) == Some(payload.len()),
        message(order, kind, payload).skip(HEADER_LENGTH as int) == payload,
{
    let m = message(order, kind, payload);
    let n = payload.len() as u32;
    a_number_reads_back(order, n);
    a_number_reads_back(order, kind);
    let header = m.take(HEADER_LENGTH as int);
    assert(header.take(6) =~= magic());
    assert(header.subrange(6, 10) =~= number_bytes(order, n));
    assert(m.skip(HEADER_LENGTH as int) =~= payload);
}

/// A message names its kind behind the length of its payload, and begins with the letters
/// of the protocol.
pub proof fn a_message_names_its_kind(order: ByteOrder, kind: u32, payload: Seq<u8>)
    ensures
        message(order, kind, payload).len() == 14 + payload.len(),
        message(order, kind, payload).take(6) == seq![105u8, 51u8, 45u8, 105u8, 112u8, 99u8],
        bytes_value(order, message(order, kind, payload).subrange(10, 14)) == kind,
        message(order, kind, payload).skip(14) == payload,
{
    let m = message(order, kind, payload);
    let n = (payload.len() % 0x1_0000_0000) as u32;
    a_number_reads_back(order, n);
    a_number_reads_back(order, kind);
    assert(m.take(6) =~= magic());
    assert(m.subrange(10, 14) =~= number_bytes(order, kind));
    assert(m.skip(14) =~= payload);
}

/// The bytes of a number count by the powers of 256, from the lowest on.
pub proof fn bytes_count_by_their_place(x: u32)
    ensures
        ({
            let b = number_bytes(ByteOrder::Little, x);
            b.len() == 4 && b[0] + 256 * b[1] + 256 * 256 * b[2] + 256 * 256 * 256 * b[3] == x
        }),
        ({
            let b = number_bytes(ByteOrder::Big, x);
            b.len() == 4 && b[3] + 256 * b[2] + 256 * 256 * b[1] + 256 * 256 * 256 * b[0] == x
        }),
{
    let b = low_first(x);
    assert(b.reverse()[0] == b[3] && b.reverse()[1] == b[2] && b.reverse()[2] == b[1] && b.reverse()[3] == b[0]);
    a_number_reads_back(ByteOrder::Little, x);
}

/// A header that begins with the letters of the protocol announces the number in the four
/// bytes behind them; any other announces nothing.
pub proof fn a_header_announces_a_length(header: Seq<u8>)
    requires
        header.len() == 14,
    ensures
        header.take(6) != seq![105u8, 51u8, 45u8, 105u8, 112u8, 99u8] ==> announced(ByteOrder::Little, header) is None
            && announced(ByteOrder::Big, header) is None,
        header.take(6) == seq![105u8, 51u8, 45u8, 105u8, 112u8, 99u8] ==> announced(ByteOrder::Little, header)
            == Some(
            (header[6] + 256 * header[7] + 256 * 256 * header[8] + 256 * 256 * 256 * header[9]) as nat,
        ) && announced(ByteOrder::Big, header) == Some(
            (header[9] + 256 * header[8] + 256 * 256 * header[7] + 256 * 256 * 256 * header[6]) as nat,
        ),
{
}

} // verus!
