//! The textual shapes of every reply: each fixed literal as a spec sequence
//! beside a verified writer that appends exactly those bytes.

use vstd::prelude::*;

use crate::command::CommandErrorV;
use crate::num::dec_int;

verus! {

/// Terminator of every reply line.
pub open spec fn crlf() -> Seq<u8> {
    seq![13u8, 10u8]
}

pub fn push_crlf(out: &mut Vec<u8>)
    ensures
        final(out)@ == old(out)@ + crlf(),
{
    out.push(13);
    out.push(10);
    proof {
        assert(out@ =~= old(out)@ + crlf());
    }
}

/// Success acknowledgment: `+OK`.
pub open spec fn ok_reply() -> Seq<u8> {
    seq![43u8, 79u8, 75u8, 13u8, 10u8]
}

pub fn push_ok_reply(out: &mut Vec<u8>)
    ensures
        final(out)@ == old(out)@ + ok_reply(),
{
    out.push(43);
    out.push(79);
    out.push(75);
    out.push(13);
    out.push(10);
    proof {
        assert(out@ =~= old(out)@ + ok_reply());
    }
}

/// Fixed acknowledgment to a ping: `+PONG`.
pub open spec fn pong_reply() -> Seq<u8> {
    seq![43u8, 80u8, 79u8, 78u8, 71u8, 13u8, 10u8]
}

pub fn push_pong_reply(out: &mut Vec<u8>)
    ensures
        final(out)@ == old(out)@ + pong_reply(),
{
    out.push(43);
    out.push(80);
    out.push(79);
    out.push(78);
    out.push(71);
    out.push(13);
    out.push(10);
    proof {
        assert(out@ =~= old(out)@ + pong_reply());
    }
}

/// Nil reply for an absent value: `$-1`.
pub open spec fn nil_reply() -> Seq<u8> {
    seq![36u8, 45u8, 49u8, 13u8, 10u8]
}

pub fn push_nil_reply(out: &mut Vec<u8>)
    ensures
        final(out)@ == old(out)@ + nil_reply(),
{
    out.push(36);
    out.push(45);
    out.push(49);
    out.push(13);
    out.push(10);
    proof {
        assert(out@ =~= old(out)@ + nil_reply());
    }
}

/// Empty array reply: `*0`.
pub open spec fn empty_array_reply() -> Seq<u8> {
    seq![42u8, 48u8, 13u8, 10u8]
}

pub fn push_empty_array_reply(out: &mut Vec<u8>)
    ensures
        final(out)@ == old(out)@ + empty_array_reply(),
{
    out.push(42);
    out.push(48);
    out.push(13);
    out.push(10);
    proof {
        assert(out@ =~= old(out)@ + empty_array_reply());
    }
}

/// Type-mismatch error for an increment of a non-integer value:
/// `-WRONGTYPE Operation against a key holding the wrong kind of value`.
pub open spec fn wrongtype_reply() -> Seq<u8> {
    seq![45u8, 87u8, 82u8, 79u8, 78u8, 71u8, 84u8, 89u8, 80u8, 69u8, 32u8, 79u8, 112u8, 101u8, 114u8, 97u8, 116u8, 105u8, 111u8, 110u8, 32u8, 97u8, 103u8, 97u8, 105u8, 110u8, 115u8, 116u8, 32u8, 97u8, 32u8, 107u8, 101u8, 121u8, 32u8, 104u8, 111u8, 108u8, 100u8, 105u8, 110u8, 103u8, 32u8, 116u8, 104u8, 101u8, 32u8, 119u8, 114u8, 111u8, 110u8, 103u8, 32u8, 107u8, 105u8, 110u8, 100u8, 32u8, 111u8, 102u8, 32u8, 118u8, 97u8, 108u8, 117u8, 101u8, 13u8, 10u8]
}

#[verifier::rlimit(100)]
pub fn push_wrongtype_reply(out: &mut Vec<u8>)
    ensures
        final(out)@ == old(out)@ + wrongtype_reply(),
{
    out.push(45);
    out.push(87);
    out.push(82);
    out.push(79);
    out.push(78);
    out.push(71);
    out.push(84);
    out.push(89);
    out.push(80);
    out.push(69);
    out.push(32);
    out.push(79);
    out.push(112);
    out.push(101);
    out.push(114);
    out.push(97);
    out.push(116);
    out.push(105);
    out.push(111);
    out.push(110);
    out.push(32);
    out.push(97);
    out.push(103);
    out.push(97);
    out.push(105);
    out.push(110);
    out.push(115);
    out.push(116);
    out.push(32);
    out.push(97);
    out.push(32);
    out.push(107);
    out.push(101);
    out.push(121);
    out.push(32);
    out.push(104);
    out.push(111);
    out.push(108);
    out.push(100);
    out.push(105);
    out.push(110);
    out.push(103);
    out.push(32);
    out.push(116);
    out.push(104);
    out.push(101);
    out.push(32);
    out.push(119);
    out.push(114);
    out.push(111);
    out.push(110);
    out.push(103);
    out.push(32);
    out.push(107);
    out.push(105);
    out.push(110);
    out.push(100);
    out.push(32);
    out.push(111);
    out.push(102);
    out.push(32);
    out.push(118);
    out.push(97);
    out.push(108);
    out.push(117);
    out.push(101);
    out.push(13);
    out.push(10);
    proof {
        assert(out@ =~= old(out)@ + wrongtype_reply());
    }
}

/// Lead-in of every parse-error reply: `-ERR `.
pub open spec fn err_prefix() -> Seq<u8> {
    seq![45u8, 69u8, 82u8, 82u8, 32u8]
}

pub fn push_err_prefix(out: &mut Vec<u8>)
    ensures
        final(out)@ == old(out)@ + err_prefix(),
{
    out.push(45);
    out.push(69);
    out.push(82);
    out.push(82);
    out.push(32);
    proof {
        assert(out@ =~= old(out)@ + err_prefix());
    }
}

/// Text of the wrong-arity error: `wrong number of arguments`.
pub open spec fn msg_arg_number() -> Seq<u8> {
    seq![119u8, 114u8, 111u8, 110u8, 103u8, 32u8, 110u8, 117u8, 109u8, 98u8, 101u8, 114u8, 32u8, 111u8, 102u8, 32u8, 97u8, 114u8, 103u8, 117u8, 109u8, 101u8, 110u8, 116u8, 115u8]
}

pub fn push_msg_arg_number(out: &mut Vec<u8>)
    ensures
        final(out)@ == old(out)@ + msg_arg_number(),
{
    out.push(119);
    out.push(114);
    out.push(111);
    out.push(110);
    out.push(103);
    out.push(32);
    out.push(110);
    out.push(117);
    out.push(109);
    out.push(98);
    out.push(101);
    out.push(114);
    out.push(32);
    out.push(111);
    out.push(102);
    out.push(32);
    out.push(97);
    out.push(114);
    out.push(103);
    out.push(117);
    out.push(109);
    out.push(101);
    out.push(110);
    out.push(116);
    out.push(115);
    proof {
        assert(out@ =~= old(out)@ + msg_arg_number());
    }
}

/// Lead-in of the unrecognized-keyword error, the offending name
/// following: `unknown command `.
pub open spec fn msg_unknown_prefix() -> Seq<u8> {
    seq![117u8, 110u8, 107u8, 110u8, 111u8, 119u8, 110u8, 32u8, 99u8, 111u8, 109u8, 109u8, 97u8, 110u8, 100u8, 32u8]
}

pub fn push_msg_unknown_prefix(out: &mut Vec<u8>)
    ensures
        final(out)@ == old(out)@ + msg_unknown_prefix(),
{
    out.push(117);
    out.push(110);
    out.push(107);
    out.push(110);
    out.push(111);
    out.push(119);
    out.push(110);
    out.push(32);
    out.push(99);
    out.push(111);
    out.push(109);
    out.push(109);
    out.push(97);
    out.push(110);
    out.push(100);
    out.push(32);
    proof {
        assert(out@ =~= old(out)@ + msg_unknown_prefix());
    }
}

/// Text of the empty-or-non-textual-request error: `invalid command`.
pub open spec fn msg_invalid_command() -> Seq<u8> {
    seq![105u8, 110u8, 118u8, 97u8, 108u8, 105u8, 100u8, 32u8, 99u8, 111u8, 109u8, 109u8, 97u8, 110u8, 100u8]
}

pub fn push_msg_invalid_command(out: &mut Vec<u8>)
    ensures
        final(out)@ == old(out)@ + msg_invalid_command(),
{
    out.push(105);
    out.push(110);
    out.push(118);
    out.push(97);
    out.push(108);
    out.push(105);
    out.push(100);
    out.push(32);
    out.push(99);
    out.push(111);
    out.push(109);
    out.push(109);
    out.push(97);
    out.push(110);
    out.push(100);
    proof {
        assert(out@ =~= old(out)@ + msg_invalid_command());
    }
}

/// Text of the absent-or-malformed-argument error: `invalid argument`.
pub open spec fn msg_invalid_argument() -> Seq<u8> {
    seq![105u8, 110u8, 118u8, 97u8, 108u8, 105u8, 100u8, 32u8, 97u8, 114u8, 103u8, 117u8, 109u8, 101u8, 110u8, 116u8]
}

pub fn push_msg_invalid_argument(out: &mut Vec<u8>)
    ensures
        final(out)@ == old(out)@ + msg_invalid_argument(),
{
    out.push(105);
    out.push(110);
    out.push(118);
    out.push(97);
    out.push(108);
    out.push(105);
    out.push(100);
    out.push(32);
    out.push(97);
    out.push(114);
    out.push(103);
    out.push(117);
    out.push(109);
    out.push(101);
    out.push(110);
    out.push(116);
    proof {
        assert(out@ =~= old(out)@ + msg_invalid_argument());
    }
}

/// Text of the malformed-duration error: `invalid duration`.
pub open spec fn msg_invalid_duration() -> Seq<u8> {
    seq![105u8, 110u8, 118u8, 97u8, 108u8, 105u8, 100u8, 32u8, 100u8, 117u8, 114u8, 97u8, 116u8, 105u8, 111u8, 110u8]
}

pub fn push_msg_invalid_duration(out: &mut Vec<u8>)
    ensures
        final(out)@ == old(out)@ + msg_invalid_duration(),
{
    out.push(105);
    out.push(110);
    out.push(118);
    out.push(97);
    out.push(108);
    out.push(105);
    out.push(100);
    out.push(32);
    out.push(100);
    out.push(117);
    out.push(114);
    out.push(97);
    out.push(116);
    out.push(105);
    out.push(111);
    out.push(110);
    proof {
        assert(out@ =~= old(out)@ + msg_invalid_duration());
    }
}

/// Text of the expiry-overflow error: `expiry out of range`.
pub open spec fn msg_invalid_expiry() -> Seq<u8> {
    seq![101u8, 120u8, 112u8, 105u8, 114u8, 121u8, 32u8, 111u8, 117u8, 116u8, 32u8, 111u8, 102u8, 32u8, 114u8, 97u8, 110u8, 103u8, 101u8]
}

pub fn push_msg_invalid_expiry(out: &mut Vec<u8>)
    ensures
        final(out)@ == old(out)@ + msg_invalid_expiry(),
{
    out.push(101);
    out.push(120);
    out.push(112);
    out.push(105);
    out.push(114);
    out.push(121);
    out.push(32);
    out.push(111);
    out.push(117);
    out.push(116);
    out.push(32);
    out.push(111);
    out.push(102);
    out.push(32);
    out.push(114);
    out.push(97);
    out.push(110);
    out.push(103);
    out.push(101);
    proof {
        assert(out@ =~= old(out)@ + msg_invalid_expiry());
    }
}

/// Integer reply: a colon, the decimal text, the terminator.
pub open spec fn int_reply(n: int) -> Seq<u8> {
    seq![58u8] + dec_int(n) + crlf()
}

pub fn int_reply_vec(n: i64) -> (r: Vec<u8>)
    ensures
        r@ == int_reply(n as int),
{
    let mut out: Vec<u8> = Vec::new();
    out.push(58);
    crate::num::push_dec_i64(&mut out, n);
    push_crlf(&mut out);
    proof {
        assert(out@ =~= int_reply(n as int));
    }
    out
}

/// Bulk textual reply: a plus sign, the value bytes, the terminator.
pub open spec fn bulk_reply(v: Seq<u8>) -> Seq<u8> {
    seq![43u8] + v + crlf()
}

pub fn bulk_reply_vec(v: &[u8]) -> (r: Vec<u8>)
    ensures
        r@ == bulk_reply(v@),
{
    let mut out: Vec<u8> = Vec::new();
    out.push(43);
    crate::bytes::push_bytes(&mut out, v);
    push_crlf(&mut out);
    proof {
        assert(out@ =~= bulk_reply(v@));
    }
    out
}

/// The description a parse error carries into its error reply.
pub open spec fn error_message(e: CommandErrorV) -> Seq<u8> {
    match e {
        CommandErrorV::ArgNumber => msg_arg_number(),
        CommandErrorV::NotSupported(name) => msg_unknown_prefix() + name,
        CommandErrorV::InvalidCommand => msg_invalid_command(),
        CommandErrorV::InvalidArgument => msg_invalid_argument(),
        CommandErrorV::InvalidDuration => msg_invalid_duration(),
        CommandErrorV::InvalidExpiry => msg_invalid_expiry(),
    }
}

/// Error reply for a failed parse: `-ERR `, the description, the terminator.
pub open spec fn error_reply(e: CommandErrorV) -> Seq<u8> {
    err_prefix() + error_message(e) + crlf()
}

pub fn error_reply_vec(e: &crate::command::RedisCommandError) -> (r: Vec<u8>)
    ensures
        r@ == error_reply(e@),
{
    let mut out: Vec<u8> = Vec::new();
    push_err_prefix(&mut out);
    match e {
        crate::command::RedisCommandError::ArgNumber => push_msg_arg_number(&mut out),
        crate::command::RedisCommandError::NotSupported(name) => {
            push_msg_unknown_prefix(&mut out);
            crate::bytes::push_bytes(&mut out, name.as_slice());
        },
        crate::command::RedisCommandError::InvalidCommand => push_msg_invalid_command(&mut out),
        crate::command::RedisCommandError::InvalidArgument => push_msg_invalid_argument(&mut out),
        crate::command::RedisCommandError::InvalidDuration => push_msg_invalid_duration(&mut out),
        crate::command::RedisCommandError::InvalidExpiry => push_msg_invalid_expiry(&mut out),
    }
    push_crlf(&mut out);
    proof {
        assert(out@ =~= error_reply(e@));
    }
    out
}

pub fn wrongtype_reply_vec() -> (r: Vec<u8>)
    ensures
        r@ == wrongtype_reply(),
{
    let mut out: Vec<u8> = Vec::new();
    push_wrongtype_reply(&mut out);
    proof {
        assert(out@ =~= wrongtype_reply());
    }
    out
}

pub fn ok_reply_vec() -> (r: Vec<u8>)
    ensures
        r@ == ok_reply(),
{
    let mut out: Vec<u8> = Vec::new();
    push_ok_reply(&mut out);
    proof {
        assert(out@ =~= ok_reply());
    }
    out
}

pub fn pong_reply_vec() -> (r: Vec<u8>)
    ensures
        r@ == pong_reply(),
{
    let mut out: Vec<u8> = Vec::new();
    push_pong_reply(&mut out);
    proof {
        assert(out@ =~= pong_reply());
    }
    out
}

pub fn nil_reply_vec() -> (r: Vec<u8>)
    ensures
        r@ == nil_reply(),
{
    let mut out: Vec<u8> = Vec::new();
    push_nil_reply(&mut out);
    proof {
        assert(out@ =~= nil_reply());
    }
    out
}

pub fn empty_array_reply_vec() -> (r: Vec<u8>)
    ensures
        r@ == empty_array_reply(),
{
    let mut out: Vec<u8> = Vec::new();
    push_empty_array_reply(&mut out);
    proof {
        assert(out@ =~= empty_array_reply());
    }
    out
}

} // verus!
