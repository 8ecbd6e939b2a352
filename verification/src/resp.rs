//! The wire reply formats the proxy produces, as specifications over byte
//! sequences, together with verified writers that append a reply to a
//! response buffer.

use vstd::prelude::*;

verus! {

/// The line terminator of the wire protocol: carriage return, line feed.
pub open spec fn crlf() -> Seq<u8> {
    seq![13u8, 10u8]
}

/// The shortest decimal representation of `n` in ASCII digits.
pub open spec fn dec_rep(n: nat) -> Seq<u8>
    decreases n,
{
    if n < 10 {
        seq![(48 + n) as u8]
    } else {
        dec_rep(n / 10) + seq![(48 + n % 10) as u8]
    }
}

/// A bulk value reply: `$<byte-length>\r\n<bytes>\r\n`.
pub open spec fn bulk_reply(v: Seq<u8>) -> Seq<u8> {
    seq![36u8] + dec_rep(v.len()) + crlf() + v + crlf()
}

/// The nil bulk reply for a miss: `$-1\r\n`.
pub open spec fn nil_reply() -> Seq<u8> {
    seq![36u8, 45u8, 49u8] + crlf()
}

/// An integer reply: `:<integer>\r\n`.
pub open spec fn integer_reply(n: nat) -> Seq<u8> {
    seq![58u8] + dec_rep(n) + crlf()
}

/// An array reply header: `*<count>\r\n`.
pub open spec fn array_header(n: nat) -> Seq<u8> {
    seq![42u8] + dec_rep(n) + crlf()
}

/// The concatenation of one bulk reply per element, in order.
pub open spec fn bulk_array_body(elems: Seq<Seq<u8>>) -> Seq<u8>
    decreases elems.len(),
{
    if elems.len() == 0 {
        Seq::<u8>::empty()
    } else {
        bulk_array_body(elems.drop_last()) + bulk_reply(elems.last())
    }
}

/// An array reply: header with the element count, then each element as a
/// bulk reply, with no separators beyond each element's own terminator.
pub open spec fn array_reply(elems: Seq<Seq<u8>>) -> Seq<u8> {
    array_header(elems.len()) + bulk_array_body(elems)
}

/// A simple error reply: `-ERR <message>\r\n`.
pub open spec fn error_line(msg: Seq<u8>) -> Seq<u8> {
    seq![45u8, 69u8, 82u8, 82u8, 32u8] + msg + crlf()
}

/// The byte views of a sequence of byte vectors.
pub open spec fn views(elems: Seq<Vec<u8>>) -> Seq<Seq<u8>> {
    elems.map_values(|e: Vec<u8>| e@)
}

/// Appends the line terminator.
pub fn push_crlf(buf: &mut Vec<u8>)
    ensures
        final(buf)@ == old(buf)@ + crlf(),
{
    buf.push(13u8);
    buf.push(10u8);
    assert(buf@ =~= old(buf)@ + crlf());
}

/// Appends the decimal digits of `n`.
pub fn push_decimal(buf: &mut Vec<u8>, n: u64)
    ensures
        final(buf)@ == old(buf)@ + dec_rep(n as nat),
    decreases n,
{
    if n < 10 {
        buf.push((48 + n) as u8);
        assert(buf@ =~= old(buf)@ + dec_rep(n as nat));
    } else {
        push_decimal(buf, n / 10);
        buf.push((48 + n % 10) as u8);
        assert(buf@ =~= old(buf)@ + dec_rep(n as nat));
    }
}

/// Appends every byte of `v`.
pub fn extend_bytes(buf: &mut Vec<u8>, v: &Vec<u8>)
    ensures
        final(buf)@ == old(buf)@ + v@,
{
    let mut i: usize = 0;
    while i < v.len()
        invariant
            i <= v.len(),
            buf@ == old(buf)@ + v@.take(i as int),
        decreases v.len() - i,
    {
        buf.push(v[i]);
        assert(buf@ =~= old(buf)@ + v@.take(i as int + 1));
        i = i + 1;
    }
    assert(v@.take(v.len() as int) =~= v@);
}

/// Appends a bulk value reply for `v`.
pub fn write_bulk(buf: &mut Vec<u8>, v: &Vec<u8>)
    ensures
        final(buf)@ == old(buf)@ + bulk_reply(v@),
{
    buf.push(36u8);
    push_decimal(buf, v.len() as u64);
    push_crlf(buf);
    extend_bytes(buf, v);
    push_crlf(buf);
    assert(buf@ =~= old(buf)@ + bulk_reply(v@));
}

/// Appends the nil bulk reply.
pub fn write_nil(buf: &mut Vec<u8>)
    ensures
        final(buf)@ == old(buf)@ + nil_reply(),
{
    buf.push(36u8);
    buf.push(45u8);
    buf.push(49u8);
    push_crlf(buf);
    assert(buf@ =~= old(buf)@ + nil_reply());
}

/// Appends an integer reply for `n`.
pub fn write_integer(buf: &mut Vec<u8>, n: u64)
    ensures
        final(buf)@ == old(buf)@ + integer_reply(n as nat),
{
    buf.push(58u8);
    push_decimal(buf, n);
    push_crlf(buf);
    assert(buf@ =~= old(buf)@ + integer_reply(n as nat));
}

/// Appends an array reply header with count `n`.
pub fn write_array_header(buf: &mut Vec<u8>, n: u64)
    ensures
        final(buf)@ == old(buf)@ + array_header(n as nat),
{
    buf.push(42u8);
    push_decimal(buf, n);
    push_crlf(buf);
    assert(buf@ =~= old(buf)@ + array_header(n as nat));
}

/// Appends a whole array reply: a header for the element count, then each
/// element of `elems` as a bulk reply, in order.
pub fn write_bulk_array(buf: &mut Vec<u8>, elems: &Vec<Vec<u8>>)
    ensures
        final(buf)@ == old(buf)@ + array_reply(views(elems@)),
{
    write_array_header(buf, elems.len() as u64);
    let ghost all: Seq<Seq<u8>> = views(elems@);
    let mut i: usize = 0;
    while i < elems.len()
        invariant
            i <= elems.len(),
            all == views(elems@),
            buf@ == old(buf)@ + array_header(elems@.len()) + bulk_array_body(all.take(i as int)),
        decreases elems.len() - i,
    {
        write_bulk(buf, &elems[i]);
        proof {
            assert(all.take(i as int + 1).drop_last() =~= all.take(i as int));
            assert(all.take(i as int + 1).last() == all[i as int]);
            assert(buf@ =~= old(buf)@ + array_header(elems@.len()) + bulk_array_body(
                all.take(i as int + 1),
            ));
        }
        i = i + 1;
    }
    assert(all.take(elems@.len() as int) =~= all);
    assert(buf@ =~= old(buf)@ + array_reply(views(elems@)));
}

/// Appends a simple error reply carrying `msg`.
pub fn write_error_line(buf: &mut Vec<u8>, msg: &Vec<u8>)
    ensures
        final(buf)@ == old(buf)@ + error_line(msg@),
{
    buf.push(45u8);
    buf.push(69u8);
    buf.push(82u8);
    buf.push(82u8);
    buf.push(32u8);
    extend_bytes(buf, msg);
    push_crlf(buf);
    assert(buf@ =~= old(buf)@ + error_line(msg@));
}

} // verus!
