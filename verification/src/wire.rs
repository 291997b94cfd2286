use vstd::prelude::*;

verus! {

/// The byte `[` that opens a payload.
pub const OPEN_BRACKET: u8 = 91;

/// The byte `]` that ends a payload.
pub const CLOSE_BRACKET: u8 = 93;

/// The byte `,` between two tokens.
pub const SEPARATOR: u8 = 44;

/// A decimal digit byte, `0` through `9`.
pub open spec fn is_ascii_digit(b: u8) -> bool {
    48 <= b && b <= 57
}

/// The numeric value of one digit byte; zero on anything else.
pub open spec fn digit_val(b: u8) -> nat {
    if is_ascii_digit(b) {
        (b - 48) as nat
    } else {
        0
    }
}

/// The value of a digit run, read most significant first.
pub open spec fn digits_value(s: Seq<u8>) -> nat
    decreases s.len(),
{
    if s.len() == 0 {
        0
    } else {
        digits_value(s.drop_last()) * 10 + digit_val(s.last())
    }
}

/// Whether every byte of the run is a digit.
pub open spec fn all_digits(s: Seq<u8>) -> bool {
    forall|i: int| 0 <= i < s.len() ==> is_ascii_digit(s[i])
}

/// The byte one token denotes: a non-empty digit run whose value fits in a
/// byte. Anything else — empty, a stray character, too large — denotes
/// nothing.
pub open spec fn token_value(s: Seq<u8>) -> Option<u8> {
    if s.len() > 0 && all_digits(s) && digits_value(s) <= 255 {
        Some(digits_value(s) as u8)
    } else {
        None
    }
}

/// The first separator at or after `from`, up to `to`; `to` when there is
/// none.
pub open spec fn first_sep(s: Seq<u8>, from: int, to: int) -> int
    decreases to - from,
{
    if from >= to {
        to
    } else if s[from] == SEPARATOR {
        from
    } else {
        first_sep(s, from + 1, to)
    }
}

/// `first_sep`, held inside the searched range so that recursion over it
/// visibly terminates; `lemma_first_sep` shows the two agree.
pub open spec fn next_sep(s: Seq<u8>, from: int, to: int) -> int {
    let j = first_sep(s, from, to);
    if j < from {
        from
    } else if j > to {
        to
    } else {
        j
    }
}

/// The bytes a token run between `from` and `to` denotes: one token per
/// byte, single separators between tokens. An empty or malformed token
/// anywhere rejects the whole run, so an empty run denotes nothing.
pub open spec fn parse_items(s: Seq<u8>, from: int, to: int) -> Option<Seq<u8>>
    recommends
        0 <= from <= to <= s.len(),
    decreases to - from,
{
    let j = next_sep(s, from, to);
    match token_value(s.subrange(from, j)) {
        None => None,
        Some(v) => if j >= to {
            Some(seq![v])
        } else {
            match parse_items(s, j + 1, to) {
                None => None,
                Some(rest) => Some(seq![v] + rest),
            }
        },
    }
}

/// The byte buffer a wire payload denotes: a bracketed, comma-separated
/// list of decimal bytes, the shape in which the UI layer serializes an
/// outbound write request. Anything else denotes nothing.
pub open spec fn parse_byte_list(s: Seq<u8>) -> Option<Seq<u8>> {
    if s.len() >= 2 && s[0] == OPEN_BRACKET && s[s.len() - 1] == CLOSE_BRACKET {
        parse_items(s, 1, s.len() - 1)
    } else {
        None
    }
}

/// `first_sep` stays in the searched range, points at a separator unless
/// it is `to`, and nothing before it is a separator.
proof fn lemma_first_sep(s: Seq<u8>, from: int, to: int)
    requires
        from <= to,
    ensures
        from <= first_sep(s, from, to) <= to,
        first_sep(s, from, to) < to ==> s[first_sep(s, from, to)] == SEPARATOR,
        forall|k: int| from <= k < first_sep(s, from, to) ==> s[k] != SEPARATOR,
    decreases to - from,
{
    if from < to && s[from] != SEPARATOR {
        lemma_first_sep(s, from + 1, to);
    }
}

/// Extending a digit run to the right never shrinks its value.
proof fn lemma_digits_value_take_le(s: Seq<u8>, k: int)
    requires
        0 <= k <= s.len(),
    ensures
        digits_value(s.take(k)) <= digits_value(s),
    decreases s.len() - k,
{
    if k == s.len() {
        assert(s.take(k) =~= s);
    } else {
        assert(s.take(k + 1).drop_last() =~= s.take(k));
        assert(s.take(k + 1).last() == s[k]);
        lemma_digits_value_take_le(s, k + 1);
    }
}

/// Scans for the separator that ends the token starting at `from`.
fn find_sep(s: &[u8], from: usize, to: usize) -> (j: usize)
    requires
        from <= to <= s@.len(),
    ensures
        j == next_sep(s@, from as int, to as int),
{
    proof {
        lemma_first_sep(s@, from as int, to as int);
    }
    let mut i: usize = from;
    while i < to
        invariant
            from <= i <= to <= s@.len(),
            first_sep(s@, from as int, to as int) == first_sep(s@, i as int, to as int),
        decreases to - i,
    {
        if s[i] == SEPARATOR {
            return i;
        }
        i += 1;
    }
    to
}

/// Reads the token between `from` and `to` as one byte.
fn parse_token(s: &[u8], from: usize, to: usize) -> (r: Option<u8>)
    requires
        from <= to <= s@.len(),
    ensures
        r == token_value(s@.subrange(from as int, to as int)),
{
    let ghost tok = s@.subrange(from as int, to as int);
    if from == to {
        return None;
    }
    let mut acc: u32 = 0;
    let mut i: usize = from;
    while i < to
        invariant
            from <= i <= to <= s@.len(),
            from < to,
            tok == s@.subrange(from as int, to as int),
            all_digits(tok.take(i as int - from as int)),
            acc == digits_value(tok.take(i as int - from as int)),
            acc <= 255,
        decreases to - i,
    {
        let b = s[i];
        proof {
            assert(tok[i as int - from as int] == s@[i as int]);
            assert(tok.take(i as int - from as int + 1).drop_last() =~= tok.take(
                i as int - from as int,
            ));
            assert(tok.take(i as int - from as int + 1).last() == tok[i as int - from as int]);
        }
        if b < 48 || b > 57 {
            proof {
                assert(!is_ascii_digit(tok[i as int - from as int]));
            }
            return None;
        }
        let d: u32 = (b - 48) as u32;
        let v: u32 = acc * 10 + d;
        if v > 255 {
            proof {
                assert(digits_value(tok.take(i as int - from as int + 1)) == v);
                lemma_digits_value_take_le(tok, i as int - from as int + 1);
            }
            return None;
        }
        acc = v;
        i += 1;
    }
    proof {
        assert(tok.take(to as int - from as int) =~= tok);
    }
    Some(acc as u8)
}

/// Reads the token run between `from` and `to`, appending each byte to
/// `out`; on failure `out` is abandoned half-filled and the result says so.
fn parse_items_into(s: &[u8], from: usize, to: usize, out: &mut Vec<u8>) -> (ok: bool)
    requires
        from <= to <= s@.len(),
    ensures
        ok == (parse_items(s@, from as int, to as int) is Some),
        parse_items(s@, from as int, to as int) matches Some(items) ==> final(out)@ == old(out)@
            + items,
    decreases to - from,
{
    proof {
        lemma_first_sep(s@, from as int, to as int);
    }
    let j = find_sep(s, from, to);
    match parse_token(s, from, j) {
        None => false,
        Some(v) => {
            out.push(v);
            if j >= to {
                proof {
                    assert(old(out)@ + seq![v] =~= out@);
                }
                true
            } else {
                let ok = parse_items_into(s, j + 1, to, out);
                proof {
                    if parse_items(s@, from as int, to as int) is Some {
                        let rest = parse_items(s@, j as int + 1, to as int).unwrap();
                        assert(out@ =~= old(out)@ + (seq![v] + rest));
                    }
                }
                ok
            }
        },
    }
}

/// Parses an outbound write request exactly as the UI layer serializes it:
/// a bracketed, comma-separated decimal byte list such as `[10,20]`.
/// Returns the denoted bytes, or nothing on any malformed payload.
pub fn to_array(s: &[u8]) -> (r: Option<Vec<u8>>)
    ensures
        (r is Some) == (parse_byte_list(s@) is Some),
        parse_byte_list(s@) matches Some(items) ==> (r matches Some(v) && v@ == items),
{
    let n = s.len();
    if n < 2 {
        return None;
    }
    if s[0] != OPEN_BRACKET || s[n - 1] != CLOSE_BRACKET {
        return None;
    }
    let mut out: Vec<u8> = Vec::new();
    if parse_items_into(s, 1, n - 1, &mut out) {
        proof {
            if parse_byte_list(s@) is Some {
                let items = parse_byte_list(s@).unwrap();
                assert(Seq::<u8>::empty() + items =~= items);
            }
        }
        Some(out)
    } else {
        None
    }
}

} // verus!
