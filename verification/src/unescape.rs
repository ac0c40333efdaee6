use vstd::prelude::*;

use crate::text::{decimal, push_decimal, string_of};

verus! {

/// The scanner's state between two bytes.
#[derive(Copy, Clone, Debug, PartialEq, Eq, Structural)]
pub enum State {
    Normal,
    Escape,
}

/// A backslash followed by a byte that names no escape.
#[derive(Copy, Clone, Debug, PartialEq, Eq, Structural)]
pub struct UnescapeError {
    pub byte: u8,
}

/// The byte that an escape sequence `\x` stands for, if `x` names one.
pub open spec fn escape_value(x: u8) -> Option<u8> {
    if x == 48 {
        Some(0x0u8)
    } else if x == 39 || x == 34 || x == 95 || x == 92 || x == 37 {
        Some(x)
    } else if x == 98 {
        Some(0x8u8)
    } else if x == 110 {
        Some(0xau8)
    } else if x == 114 {
        Some(0xdu8)
    } else if x == 116 {
        Some(0x9u8)
    } else if x == 90 {
        Some(0x1au8)
    } else {
        None
    }
}

/// `prefix` put in front of a successful result.
pub open spec fn prefixed(prefix: Seq<u8>, r: Result<Seq<u8>, u8>) -> Result<Seq<u8>, u8> {
    match r {
        Ok(rest) => Ok(prefix + rest),
        Err(e) => Err(e),
    }
}

/// Unescaping `b` when the scanner starts in the given state: a backslash
/// starts an escape, an escaped byte is replaced by what it stands for, and
/// an escape that names nothing fails with its byte; a backslash at the very
/// end is dropped.
pub open spec fn unescaped_from(escaping: bool, b: Seq<u8>) -> Result<Seq<u8>, u8>
    decreases b.len(),
{
    if b.len() == 0 {
        Ok(Seq::empty())
    } else {
        let x = b[0];
        let rest = b.drop_first();
        if !escaping {
            if x == 92 {
                unescaped_from(true, rest)
            } else {
                prefixed(seq![x], unescaped_from(false, rest))
            }
        } else {
            match escape_value(x) {
                Some(v) => prefixed(seq![v], unescaped_from(false, rest)),
                None => Err(x),
            }
        }
    }
}

fn escape_value_exec(x: u8) -> (r: Option<u8>)
    ensures
        r == escape_value(x),
{
    match x {
        48 => Some(0x0),
        39 | 34 | 95 | 92 | 37 => Some(x),
        98 => Some(0x8),
        110 => Some(0xa),
        114 => Some(0xd),
        116 => Some(0x9),
        90 => Some(0x1a),
        _ => None,
    }
}

proof fn lemma_prefixed_assoc(p: Seq<u8>, q: Seq<u8>, r: Result<Seq<u8>, u8>)
    ensures
        prefixed(p, prefixed(q, r)) == prefixed(p + q, r),
{
    match r {
        Ok(rest) => {
            assert(p + (q + rest) =~= (p + q) + rest);
        },
        Err(_) => {},
    }
}

/// Replaces the MySQL-style backslash escapes of a dump by the bytes they
/// stand for.
pub fn unescape_bytes(input: &[u8]) -> (r: Result<Vec<u8>, UnescapeError>)
    ensures
        match r {
            Ok(out) => unescaped_from(false, input@) == Ok::<Seq<u8>, u8>(out@),
            Err(e) => unescaped_from(false, input@) == Err::<Seq<u8>, u8>(e.byte),
        },
{
    let mut output: Vec<u8> = Vec::with_capacity(input.len());
    let mut state = State::Normal;
    let n = input.len();
    let mut i: usize = 0;
    assert(input@.skip(0) =~= input@);
    assert(prefixed(output@, unescaped_from(false, input@)) =~= unescaped_from(false, input@)) by {
        match unescaped_from(false, input@) {
            Ok(rest) => {
                assert(output@ + rest =~= rest);
            },
            Err(_) => {},
        }
    }
    while i < n
        invariant
            n == input@.len(),
            i <= n,
            unescaped_from(false, input@) == prefixed(
                output@,
                unescaped_from(state == State::Escape, input@.skip(i as int)),
            ),
        decreases n - i,
    {
        let byte = input[i];
        let ghost old_out = output@;
        assert(input@.skip(i as int).drop_first() =~= input@.skip(i as int + 1));
        assert(input@.skip(i as int)[0] == byte);
        match state {
            State::Normal => {
                if byte == 92 {
                    state = State::Escape;
                } else {
                    output.push(byte);
                    proof {
                        lemma_prefixed_assoc(
                            old_out,
                            seq![byte],
                            unescaped_from(false, input@.skip(i as int + 1)),
                        );
                        assert(old_out + seq![byte] =~= output@);
                    }
                }
            },
            State::Escape => {
                match escape_value_exec(byte) {
                    Some(v) => {
                        output.push(v);
                        state = State::Normal;
                        proof {
                            lemma_prefixed_assoc(
                                old_out,
                                seq![v],
                                unescaped_from(false, input@.skip(i as int + 1)),
                            );
                            assert(old_out + seq![v] =~= output@);
                        }
                    },
                    None => {
                        return Err(UnescapeError { byte });
                    },
                }
            },
        }
        i = i + 1;
    }
    assert(input@.skip(n as int) =~= Seq::<u8>::empty());
    assert(output@ + Seq::<u8>::empty() =~= output@);
    Ok(output)
}

impl UnescapeError {
    /// The description of the error.
    pub fn message(&self) -> (r: String)
        ensures
            r@ == "Invalid escape character: "@ + decimal(self.byte as nat),
    {
        let mut s = string_of("Invalid escape character: ");
        push_decimal(&mut s, self.byte as u64);
        s
    }
}

/// Whether scanning `a` from the start leaves an escape open (it ends with a
/// backslash that escapes nothing yet).
pub open spec fn ends_inside_escape(a: Seq<u8>) -> bool
    decreases a.len(),
{
    if a.len() == 0 {
        false
    } else if a[0] == 92 {
        if a.len() == 1 {
            true
        } else {
            ends_inside_escape(a.drop_first().drop_first())
        }
    } else {
        ends_inside_escape(a.drop_first())
    }
}

/// Text without backslashes is left as it is.
pub proof fn lemma_unescape_plain(b: Seq<u8>)
    requires
        !b.contains(92u8),
    ensures
        unescaped_from(false, b) == Ok::<Seq<u8>, u8>(b),
    decreases b.len(),
{
    if b.len() > 0 {
        let rest = b.drop_first();
        assert(!rest.contains(92u8)) by {
            if rest.contains(92u8) {
                let k = choose|k: int| 0 <= k < rest.len() && rest[k] == 92u8;
                assert(b[k + 1] == 92u8);
            }
        }
        assert(b[0] != 92u8) by {
            assert(b.contains(b[0]));
        }
        lemma_unescape_plain(rest);
        assert(seq![b[0]] + rest =~= b);
    } else {
        assert(b =~= Seq::<u8>::empty());
    }
}

/// Unescaping goes byte by byte: the result for two pieces joined where no
/// escape is open is the results of the pieces joined (or the first failure).
pub proof fn lemma_unescape_concat(a: Seq<u8>, b: Seq<u8>)
    requires
        !ends_inside_escape(a),
    ensures
        unescaped_from(false, a + b) == (match unescaped_from(false, a) {
            Ok(x) => prefixed(x, unescaped_from(false, b)),
            Err(e) => Err(e),
        }),
    decreases a.len(),
{
    reveal_with_fuel(unescaped_from, 2);
    if a.len() > 0 {
        let x = a[0];
        let rest = a.drop_first();
        assert((a + b).drop_first() =~= rest + b);
        assert((a + b)[0] == x);
        if x != 92 {
            lemma_unescape_concat(rest, b);
            match unescaped_from(false, rest) {
                Ok(y) => lemma_prefixed_assoc(seq![x], y, unescaped_from(false, b)),
                Err(_) => {},
            }
        } else {
            let rest2 = rest.drop_first();
            assert(rest.len() > 0);
            assert((rest + b).drop_first() =~= rest2 + b);
            assert((rest + b)[0] == rest[0]);
            match escape_value(rest[0]) {
                Some(v) => {
                    lemma_unescape_concat(rest2, b);
                    match unescaped_from(false, rest2) {
                        Ok(y) => lemma_prefixed_assoc(seq![v], y, unescaped_from(false, b)),
                        Err(_) => {},
                    }
                },
                None => {},
            }
        }
    } else {
        assert(a + b =~= b);
        assert(Seq::<u8>::empty() + Seq::<u8>::empty() =~= Seq::<u8>::empty());
        match unescaped_from(false, b) {
            Ok(y) => {
                assert(Seq::<u8>::empty() + y =~= y);
            },
            Err(_) => {},
        }
    }
}

} // verus!
