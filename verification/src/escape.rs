//! JSON string escaping and unescaping, at the byte level.
//!
//! Message payloads are UTF-8 JSON. Content placed inside a JSON string
//! is escaped byte by byte: quote and backslash get a backslash escape,
//! control bytes become `\u00xx`, and every other byte — including the
//! bytes of multi-byte UTF-8 characters — passes through unchanged.
//! Reading accepts the full set of standard short escapes as well as
//! `\u00xx` for ASCII values, and fails on anything else: a malformed
//! string is a protocol violation, never guessed at.

use vstd::prelude::*;

verus! {

/// The byte a short escape `\x` stands for, if `x` is a standard JSON
/// short escape character.
pub open spec fn short_escape(e: u8) -> Option<u8> {
    if e == 34 {
        Some(34u8)  // \"
    } else if e == 92 {
        Some(92u8)  // \\
    } else if e == 47 {
        Some(47u8)  // \/
    } else if e == 98 {
        Some(8u8)  // \b
    } else if e == 102 {
        Some(12u8)  // \f
    } else if e == 110 {
        Some(10u8)  // \n
    } else if e == 114 {
        Some(13u8)  // \r
    } else if e == 116 {
        Some(9u8)  // \t
    } else {
        None
    }
}

/// The lowercase hex digit character for a value below 16.
pub open spec fn hex_digit(n: u8) -> u8 {
    if n < 10 {
        (48 + n) as u8
    } else {
        (87 + n) as u8
    }
}

/// The value of a hex digit character, or 255 for any other byte.
pub open spec fn hex_val(d: u8) -> u8 {
    if 48 <= d && d <= 57 {
        (d - 48) as u8
    } else if 97 <= d && d <= 102 {
        (d - 87) as u8
    } else if 65 <= d && d <= 70 {
        (d - 55) as u8
    } else {
        255u8
    }
}

pub open spec fn is_hex_digit(d: u8) -> bool {
    hex_val(d) < 16
}

/// The escaped form of one content byte.
pub open spec fn esc_byte(b: u8) -> Seq<u8> {
    if b == 34 {
        seq![92u8, 34u8]
    } else if b == 92 {
        seq![92u8, 92u8]
    } else if b < 32 {
        seq![92u8, 117u8, 48u8, 48u8, hex_digit(b / 16), hex_digit(b % 16)]
    } else {
        seq![b]
    }
}

/// The escaped form of a whole byte string.
pub open spec fn esc(content: Seq<u8>) -> Seq<u8>
    decreases content.len(),
{
    if content.len() == 0 {
        Seq::empty()
    } else {
        esc_byte(content[0]) + esc(content.skip(1))
    }
}

/// Escaping distributes over concatenation.
pub proof fn lemma_esc_append(a: Seq<u8>, b: Seq<u8>)
    ensures
        esc(a + b) == esc(a) + esc(b),
    decreases a.len(),
{
    if a.len() == 0 {
        assert(a + b =~= b);
        assert(esc(a) + esc(b) =~= esc(b));
    } else {
        assert((a + b).skip(1) =~= a.skip(1) + b);
        lemma_esc_append(a.skip(1), b);
        assert(esc(a + b) =~= esc(a) + esc(b));
    }
}

/// The escaped form of a single byte, as a string.
pub proof fn lemma_esc_single(x: u8)
    ensures
        esc(seq![x]) == esc_byte(x),
{
    assert(seq![x].skip(1) =~= Seq::<u8>::empty());
    assert(esc(Seq::<u8>::empty()) == Seq::<u8>::empty());
    assert(esc(seq![x]) == esc_byte(x) + esc(Seq::<u8>::empty()));
    assert(esc_byte(x) + Seq::<u8>::empty() =~= esc_byte(x));
}

/// Prepend a decoded byte to the result of reading the rest of a
/// string body.
pub open spec fn cons_read(c: u8, rest: Option<(Seq<u8>, Seq<u8>)>) -> Option<(Seq<u8>, Seq<u8>)> {
    match rest {
        Some((content, after)) => Some((seq![c] + content, after)),
        None => None,
    }
}

/// Read a JSON string body. `b` holds the bytes that follow the
/// opening quote; the result is the unescaped content together with
/// the bytes that follow the closing quote, or `None` if the body is
/// malformed. Raw control bytes are rejected, as JSON demands, and a
/// `\u` escape is accepted only for an ASCII value, which is all a
/// well-formed peer emits for the control characters it must escape.
pub open spec fn read_str_body(b: Seq<u8>) -> Option<(Seq<u8>, Seq<u8>)>
    decreases b.len(),
{
    if b.len() == 0 {
        None
    } else if b[0] == 34 {
        Some((Seq::empty(), b.skip(1)))
    } else if b[0] == 92 {
        if b.len() < 2 {
            None
        } else if b[1] == 117 {
            if b.len() >= 6 && b[2] == 48 && b[3] == 48 && is_hex_digit(b[4]) && is_hex_digit(b[5])
                && hex_val(b[4]) * 16 + hex_val(b[5]) < 128 {
                cons_read((hex_val(b[4]) * 16 + hex_val(b[5])) as u8, read_str_body(b.skip(6)))
            } else {
                None
            }
        } else {
            match short_escape(b[1]) {
                Some(c) => cons_read(c, read_str_body(b.skip(2))),
                None => None,
            }
        }
    } else if b[0] >= 32 {
        cons_read(b[0], read_str_body(b.skip(1)))
    } else {
        None
    }
}

/// Reading a string body is the inverse of escaping: escaped content
/// followed by the closing quote reads back as exactly that content,
/// whatever follows the quote.
pub proof fn lemma_read_escaped(content: Seq<u8>, rest: Seq<u8>)
    ensures
        read_str_body(esc(content) + seq![34u8] + rest) == Some((content, rest)),
    decreases content.len(),
{
    if content.len() == 0 {
        let b = esc(content) + seq![34u8] + rest;
        assert(b =~= seq![34u8] + rest);
        assert(b[0] == 34);
        assert(b.skip(1) =~= rest);
    } else {
        let x = content[0];
        let tail = content.skip(1);
        let b = esc(content) + seq![34u8] + rest;
        let b2 = esc(tail) + seq![34u8] + rest;
        assert(b =~= esc_byte(x) + b2);
        lemma_read_escaped(tail, rest);
        assert(seq![x] + tail =~= content);
        if x == 34 {
            assert(b =~= seq![92u8, 34u8] + b2);
            assert(b.skip(2) =~= b2);
            assert(read_str_body(b) == Some((content, rest)));
        } else if x == 92 {
            assert(b =~= seq![92u8, 92u8] + b2);
            assert(b.skip(2) =~= b2);
            assert(read_str_body(b) == Some((content, rest)));
        } else if x < 32 {
            let hi = (x / 16) as u8;
            let lo = (x % 16) as u8;
            assert(b =~= seq![92u8, 117u8, 48u8, 48u8, hex_digit(hi), hex_digit(lo)] + b2);
            assert(hex_val(hex_digit(hi)) == hi);
            assert(hex_val(hex_digit(lo)) == lo);
            assert(hex_val(b[4]) * 16 + hex_val(b[5]) == x);
            assert(b.skip(6) =~= b2);
            assert(read_str_body(b) == Some((content, rest)));
        } else {
            assert(b =~= seq![x] + b2);
            assert(b.skip(1) =~= b2);
            assert(read_str_body(b) == Some((content, rest)));
        }
    }
}

/// The lowercase hex digit character for a value below 16.
pub fn hex_digit_byte(n: u8) -> (r: u8)
    requires
        n < 16,
    ensures
        r == hex_digit(n),
{
    if n < 10 {
        48 + n
    } else {
        87 + n
    }
}

/// The value of a hex digit character, or 255 for any other byte.
pub fn hex_val_byte(d: u8) -> (r: u8)
    ensures
        r == hex_val(d),
{
    if 48 <= d && d <= 57 {
        d - 48
    } else if 97 <= d && d <= 102 {
        d - 87
    } else if 65 <= d && d <= 70 {
        d - 55
    } else {
        255
    }
}

/// Append the escaped form of `content` to `out`.
pub fn append_escaped(out: &mut Vec<u8>, content: &[u8])
    ensures
        final(out)@ == old(out)@ + esc(content@),
{
    let ghost start = out@;
    let mut i: usize = 0;
    while i < content.len()
        invariant
            i <= content@.len(),
            out@ == start + esc(content@.take(i as int)),
        decreases content@.len() - i,
    {
        let b = content[i];
        if b == 34 {
            out.push(92);
            out.push(34);
        } else if b == 92 {
            out.push(92);
            out.push(92);
        } else if b < 32 {
            out.push(92);
            out.push(117);
            out.push(48);
            out.push(48);
            out.push(hex_digit_byte(b / 16));
            out.push(hex_digit_byte(b % 16));
        } else {
            out.push(b);
        }
        proof {
            let pre = content@.take(i as int);
            assert(content@.take(i as int + 1) =~= pre + seq![b]);
            lemma_esc_append(pre, seq![b]);
            lemma_esc_single(b);
            assert(out@ =~= start + esc(content@.take(i as int + 1)));
        }
        i = i + 1;
    }
    proof {
        assert(content@.take(content@.len() as int) =~= content@);
    }
}

/// Unescape a JSON string body. `b[i..]` holds the bytes that follow
/// the opening quote; on success the result is the unescaped content
/// together with the index just past the closing quote.
pub fn unescape_str_body(b: &[u8], from: usize) -> (r: Option<(Vec<u8>, usize)>)
    requires
        from <= b@.len(),
    ensures
        match r {
            Some((content, j)) => {
                &&& from <= j <= b@.len()
                &&& read_str_body(b@.skip(from as int)) == Some((content@, b@.skip(j as int)))
            },
            None => read_str_body(b@.skip(from as int)) is None,
        },
{
    let mut out: Vec<u8> = Vec::new();
    let mut i: usize = from;
    proof {
        match read_str_body(b@.skip(from as int)) {
            Some((c0, r0)) => {
                assert(out@ + c0 =~= c0);
            },
            None => {},
        }
    }
    loop
        invariant
            from <= i <= b@.len(),
            match read_str_body(b@.skip(i as int)) {
                Some((c, r)) => read_str_body(b@.skip(from as int)) == Some((out@ + c, r)),
                None => read_str_body(b@.skip(from as int)) is None,
            },
        decreases b@.len() - i,
    {
        if i >= b.len() {
            proof {
                assert(b@.skip(i as int) =~= Seq::<u8>::empty());
                assert(read_str_body(b@.skip(i as int)) is None);
            }
            return None;
        }
        let c = b[i];
        proof {
            assert(b@.skip(i as int)[0] == c);
            assert(b@.skip(i as int).len() == b@.len() - i);
        }
        if c == 34 {
            proof {
                assert(b@.skip(i as int).skip(1) =~= b@.skip(i as int + 1));
                assert(out@ + Seq::<u8>::empty() =~= out@);
            }
            return Some((out, i + 1));
        } else if c == 92 {
            if i + 1 >= b.len() {
                proof {
                    assert(read_str_body(b@.skip(i as int)) is None);
                }
                return None;
            }
            let e = b[i + 1];
            proof {
                assert(b@.skip(i as int)[1] == e);
            }
            if e == 117 {
                if b.len() - i < 6 {
                    proof {
                        assert(b@.skip(i as int).len() < 6);
                        assert(read_str_body(b@.skip(i as int)) is None);
                    }
                    return None;
                }
                proof {
                    assert(b@.skip(i as int)[2] == b@[i as int + 2]);
                    assert(b@.skip(i as int)[3] == b@[i as int + 3]);
                    assert(b@.skip(i as int)[4] == b@[i as int + 4]);
                    assert(b@.skip(i as int)[5] == b@[i as int + 5]);
                }
                if b[i + 2] != 48 || b[i + 3] != 48 {
                    proof {
                        assert(read_str_body(b@.skip(i as int)) is None);
                    }
                    return None;
                }
                let hi = hex_val_byte(b[i + 4]);
                let lo = hex_val_byte(b[i + 5]);
                if hi >= 16 || lo >= 16 {
                    proof {
                        assert(read_str_body(b@.skip(i as int)) is None);
                    }
                    return None;
                }
                let v = hi * 16 + lo;
                if v >= 128 {
                    proof {
                        assert(read_str_body(b@.skip(i as int)) is None);
                    }
                    return None;
                }
                proof {
                    assert(b@.skip(i as int).skip(6) =~= b@.skip(i as int + 6));
                    step_preserves(b@, from as int, i as int, out@, v, 6);
                }
                out.push(v);
                i = i + 6;
            } else {
                match short_escape_byte(e) {
                    Some(decoded) => {
                        proof {
                            assert(b@.skip(i as int).skip(2) =~= b@.skip(i as int + 2));
                            step_preserves(b@, from as int, i as int, out@, decoded, 2);
                        }
                        out.push(decoded);
                        i = i + 2;
                    },
                    None => {
                        proof {
                            assert(read_str_body(b@.skip(i as int)) is None);
                        }
                        return None;
                    },
                }
            }
        } else if c >= 32 {
            proof {
                assert(b@.skip(i as int).skip(1) =~= b@.skip(i as int + 1));
                step_preserves(b@, from as int, i as int, out@, c, 1);
            }
            out.push(c);
            i = i + 1;
        } else {
            proof {
                assert(read_str_body(b@.skip(i as int)) is None);
            }
            return None;
        }
    }
}

/// The byte a short escape `\x` stands for, if `x` is a standard JSON
/// short escape character.
pub fn short_escape_byte(e: u8) -> (r: Option<u8>)
    ensures
        r == short_escape(e),
{
    if e == 34 {
        Some(34)
    } else if e == 92 {
        Some(92)
    } else if e == 47 {
        Some(47)
    } else if e == 98 {
        Some(8)
    } else if e == 102 {
        Some(12)
    } else if e == 110 {
        Some(10)
    } else if e == 114 {
        Some(13)
    } else if e == 116 {
        Some(9)
    } else {
        None
    }
}

/// One step of unescaping preserves the loop relation: if reading from
/// position `i` yields `cons_read(decoded, read at i + width)`, then
/// accounting `decoded` to the accumulator moves the position forward.
proof fn step_preserves(b: Seq<u8>, start: int, i: int, acc: Seq<u8>, decoded: u8, width: int)
    requires
        0 <= start <= i,
        i + width <= b.len(),
        read_str_body(b.skip(i)) == cons_read(decoded, read_str_body(b.skip(i + width))),
        match read_str_body(b.skip(i)) {
            Some((c, r)) => read_str_body(b.skip(start)) == Some((acc + c, r)),
            None => read_str_body(b.skip(start)) is None,
        },
    ensures
        match read_str_body(b.skip(i + width)) {
            Some((c, r)) => read_str_body(b.skip(start)) == Some(((acc + seq![decoded]) + c, r)),
            None => read_str_body(b.skip(start)) is None,
        },
{
    match read_str_body(b.skip(i + width)) {
        Some((c, r)) => {
            assert(read_str_body(b.skip(i)) == Some((seq![decoded] + c, r)));
            assert(acc + (seq![decoded] + c) =~= (acc + seq![decoded]) + c);
        },
        None => {},
    }
}

} // verus!
