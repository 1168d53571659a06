//! The bytes a session writes: the registration handshake, the answer to a
//! liveness probe and the query commands.

use vstd::prelude::*;

verus! {

/// A word that can stand as one parameter of a command: not empty, not
/// opening with a colon, and free of NUL, line terminators and spaces.
pub open spec fn is_token(s: Seq<u8>) -> bool {
    s.len() > 0 && s[0] != 58 && forall|i: int|
        0 <= i < s.len() ==> #[trigger] s[i] != 0 && s[i] != 10 && s[i] != 13 && s[i] != 32
}

/// The line terminator.
pub open spec fn crlf() -> Seq<u8> {
    seq![13u8, 10u8]
}

/// `PASS `
pub open spec fn pass_word() -> Seq<u8> {
    seq![80u8, 65u8, 83u8, 83u8, 32u8]
}

/// `NICK `
pub open spec fn nick_word() -> Seq<u8> {
    seq![78u8, 73u8, 67u8, 75u8, 32u8]
}

/// `USER `
pub open spec fn user_word() -> Seq<u8> {
    seq![85u8, 83u8, 69u8, 82u8, 32u8]
}

/// ` 0 * :`, which stands between the user name and the real name.
pub open spec fn user_mode() -> Seq<u8> {
    seq![32u8, 48u8, 32u8, 42u8, 32u8, 58u8]
}

/// `PONG :`
pub open spec fn pong_word() -> Seq<u8> {
    seq![80u8, 79u8, 78u8, 71u8, 32u8, 58u8]
}

/// `STATS u` and the line terminator.
pub open spec fn uptime_command() -> Seq<u8> {
    seq![83u8, 84u8, 65u8, 84u8, 83u8, 32u8, 117u8, 13u8, 10u8]
}

/// `LUSERS` and the line terminator.
pub open spec fn users_command() -> Seq<u8> {
    seq![76u8, 85u8, 83u8, 69u8, 82u8, 83u8, 13u8, 10u8]
}

/// The registration handshake: the password where there is one, then the
/// nickname, then the user line, which repeats the nickname as user name
/// and real name.
pub open spec fn handshake(nick: Seq<u8>, password: Option<Seq<u8>>) -> Seq<u8> {
    let pass = match password {
        Some(p) => pass_word() + p + crlf(),
        None => Seq::<u8>::empty(),
    };
    pass + nick_word() + nick + crlf() + user_word() + nick + user_mode() + nick + crlf()
}

/// The answer to a liveness probe: the probe's payload, echoed.
pub open spec fn pong(payload: Seq<u8>) -> Seq<u8> {
    pong_word() + payload + crlf()
}

/// Whether the bytes can stand as one parameter of a command.
pub fn check_token(s: &Vec<u8>) -> (ok: bool)
    ensures
        ok == is_token(s@),
{
    if s.len() == 0 || s[0] == 58 {
        return false;
    }
    let mut i: usize = 0;
    while i < s.len()
        invariant
            i <= s.len(),
            forall|k: int| 0 <= k < i ==> #[trigger] s@[k] != 0 && s@[k] != 10 && s@[k] != 13 && s@[k] != 32,
        decreases s.len() - i,
    {
        let b = s[i];
        if b == 0 || b == 10 || b == 13 || b == 32 {
            return false;
        }
        i += 1;
    }
    true
}

/// Appends `bytes` to `out`.
pub fn append(out: &mut Vec<u8>, bytes: &Vec<u8>)
    ensures
        final(out)@ == old(out)@ + bytes@,
{
    let mut i: usize = 0;
    while i < bytes.len()
        invariant
            i <= bytes.len(),
            out@ == old(out)@ + bytes@.subrange(0, i as int),
        decreases bytes.len() - i,
    {
        out.push(bytes[i]);
        proof {
            assert(out@ =~= old(out)@ + bytes@.subrange(0, i + 1));
        }
        i += 1;
    }
    proof {
        assert(bytes@.subrange(0, bytes.len() as int) =~= bytes@);
    }
}

/// Builds the registration handshake.
pub fn build_handshake(nick: &Vec<u8>, password: &Option<Vec<u8>>) -> (out: Vec<u8>)
    ensures
        out@ == handshake(
            nick@,
            match *password {
                Some(p) => Some(p@),
                None => None,
            },
        ),
{
    let end = vec![13u8, 10u8];
    let mut out: Vec<u8> = Vec::new();
    match password {
        Some(p) => {
            append(&mut out, &vec![80u8, 65u8, 83u8, 83u8, 32u8]);
            append(&mut out, p);
            append(&mut out, &end);
            proof {
                assert(out@ =~= pass_word() + p@ + crlf());
            }
        },
        None => {},
    }
    append(&mut out, &vec![78u8, 73u8, 67u8, 75u8, 32u8]);
    append(&mut out, nick);
    append(&mut out, &end);
    append(&mut out, &vec![85u8, 83u8, 69u8, 82u8, 32u8]);
    append(&mut out, nick);
    append(&mut out, &vec![32u8, 48u8, 32u8, 42u8, 32u8, 58u8]);
    append(&mut out, nick);
    append(&mut out, &end);
    out
}

/// Appends the answer to a liveness probe to `out`.
pub fn append_pong(out: &mut Vec<u8>, payload: &Vec<u8>)
    ensures
        final(out)@ == old(out)@ + pong(payload@),
{
    let mut reply = vec![80u8, 79u8, 78u8, 71u8, 32u8, 58u8];
    append(&mut reply, payload);
    append(&mut reply, &vec![13u8, 10u8]);
    append(out, &reply);
}

} // verus!
