//! The mathematical model of the two text forms that a serial payload takes:
//! the hex display (`"0A FF 41"`) and the whitespace-separated hex input that
//! the send form accepts.
use vstd::prelude::*;

verus! {

/// Why one whitespace-separated token of a hex payload was refused, with the
/// kinds that parsing a `u8` in radix 16 can report.
#[derive(Debug, Clone, Copy, PartialEq, Eq, Structural)]
pub enum HexTokenError {
    /// The token was empty.
    Empty,
    /// A character of the token is not a hex digit (a lone `+` counts as one).
    InvalidDigit,
    /// The digits spell a number above 255.
    TooLarge,
}

/// Unicode `White_Space`, the set of characters that separate hex tokens.
pub open spec fn is_space(c: char) -> bool {
    ||| ('\u{9}' <= c && c <= '\u{d}')
    ||| c == ' '
    ||| c == '\u{85}'
    ||| c == '\u{a0}'
    ||| c == '\u{1680}'
    ||| ('\u{2000}' <= c && c <= '\u{200a}')
    ||| c == '\u{2028}'
    ||| c == '\u{2029}'
    ||| c == '\u{202f}'
    ||| c == '\u{205f}'
    ||| c == '\u{3000}'
}

/// The value of a hex digit (either case), or `None` for any other character.
pub open spec fn digit_value(c: char) -> Option<u8> {
    if '0' <= c && c <= '9' {
        Some((c as u32 - 48) as u8)
    } else if 'a' <= c && c <= 'f' {
        Some((c as u32 - 87) as u8)
    } else if 'A' <= c && c <= 'F' {
        Some((c as u32 - 55) as u8)
    } else {
        None
    }
}

/// The upper-case hex digit of a nibble.
pub open spec fn nibble_char(n: u8) -> char {
    if n < 10 {
        (n + 48) as char
    } else {
        (n + 55) as char
    }
}

/// The two-digit upper-case hex form of a byte (`{:02X}`).
pub open spec fn byte_hex(b: u8) -> Seq<char> {
    seq![nibble_char(b / 16), nibble_char(b % 16)]
}

/// The hex display of a byte sequence: each byte as two upper-case hex digits,
/// separated by single spaces.
pub open spec fn hex_display(bytes: Seq<u8>) -> Seq<char>
    decreases bytes.len(),
{
    if bytes.len() == 0 {
        Seq::empty()
    } else if bytes.len() == 1 {
        byte_hex(bytes[0])
    } else {
        hex_display(bytes.drop_last()) + seq![' '] + byte_hex(bytes.last())
    }
}

/// Splitting on whitespace, read left to right: the tokens already closed and
/// the token still being read.
pub open spec fn split_state(s: Seq<char>) -> (Seq<Seq<char>>, Seq<char>)
    decreases s.len(),
{
    if s.len() == 0 {
        (Seq::empty(), Seq::empty())
    } else {
        let (done, cur) = split_state(s.drop_last());
        let c = s.last();
        if is_space(c) {
            if cur.len() > 0 {
                (done.push(cur), Seq::empty())
            } else {
                (done, Seq::empty())
            }
        } else {
            (done, cur.push(c))
        }
    }
}

/// The non-empty maximal runs of non-whitespace characters of `s`, in order.
pub open spec fn ws_tokens(s: Seq<char>) -> Seq<Seq<char>> {
    let (done, cur) = split_state(s);
    if cur.len() > 0 {
        done.push(cur)
    } else {
        done
    }
}

/// Reading hex digits left to right into a byte; the first failure wins.
pub open spec fn digits_value(d: Seq<char>) -> Result<u8, HexTokenError>
    decreases d.len(),
{
    if d.len() == 0 {
        Ok(0)
    } else {
        match digits_value(d.drop_last()) {
            Err(e) => Err(e),
            Ok(v) => match digit_value(d.last()) {
                None => Err(HexTokenError::InvalidDigit),
                Some(x) => if v * 16 + x > 255 {
                    Err(HexTokenError::TooLarge)
                } else {
                    Ok((v * 16 + x) as u8)
                },
            },
        }
    }
}

/// A token read as an unsigned byte in radix 16: an optional leading `+`,
/// then hex digits of either case.
pub open spec fn token_value(t: Seq<char>) -> Result<u8, HexTokenError> {
    if t.len() == 0 {
        Err(HexTokenError::Empty)
    } else if t.len() == 1 && (t[0] == '+' || t[0] == '-') {
        Err(HexTokenError::InvalidDigit)
    } else if t[0] == '+' {
        digits_value(t.drop_first())
    } else {
        digits_value(t)
    }
}

/// All tokens read in order; the first refused token decides the error.
pub open spec fn tokens_value(ts: Seq<Seq<char>>) -> Result<Seq<u8>, HexTokenError>
    decreases ts.len(),
{
    if ts.len() == 0 {
        Ok(Seq::empty())
    } else {
        match tokens_value(ts.drop_last()) {
            Err(e) => Err(e),
            Ok(v) => match token_value(ts.last()) {
                Err(e) => Err(e),
                Ok(b) => Ok(v.push(b)),
            },
        }
    }
}

/// The bytes that a hex payload denotes, or why it is refused.
pub open spec fn hex_payload(s: Seq<char>) -> Result<Seq<u8>, HexTokenError> {
    tokens_value(ws_tokens(s))
}

/// The text that reports a refused token.
pub open spec fn hex_error_text(e: HexTokenError) -> Seq<char> {
    match e {
        HexTokenError::Empty => "cannot parse integer from empty string"@,
        HexTokenError::InvalidDigit => "invalid digit found in string"@,
        HexTokenError::TooLarge => "number too large to fit in target type"@,
    }
}

// ---------------------------------------------------------------------------
// Lemmas
// ---------------------------------------------------------------------------

proof fn lemma_nibble(n: u8)
    requires
        n < 16,
    ensures
        digit_value(nibble_char(n)) == Some(n),
        !is_space(nibble_char(n)),
        nibble_char(n) != '+',
        nibble_char(n) != '-',
{
}

proof fn lemma_byte_hex_value(b: u8)
    ensures
        token_value(byte_hex(b)) == Ok::<u8, HexTokenError>(b),
        byte_hex(b).len() == 2,
        !is_space(byte_hex(b)[0]),
        !is_space(byte_hex(b)[1]),
{
    lemma_nibble(b / 16);
    lemma_nibble(b % 16);
    let t = byte_hex(b);
    assert(t.drop_last().drop_last() =~= Seq::<char>::empty());
    assert(t.drop_last() =~= seq![nibble_char(b / 16)]);
    assert(digits_value(t.drop_last().drop_last()) == Ok::<u8, HexTokenError>(0));
    assert(digits_value(t.drop_last()) == Ok::<u8, HexTokenError>(b / 16));
    assert((b / 16) * 16 + b % 16 == b) by (nonlinear_arith);
}

/// The tokens of the hex display of `bytes` are the two-digit forms of its bytes.
proof fn lemma_split_hex_display(bytes: Seq<u8>)
    requires
        bytes.len() > 0,
    ensures
        split_state(hex_display(bytes)) == (
            Seq::new((bytes.len() - 1) as nat, |i: int| byte_hex(bytes[i])),
            byte_hex(bytes.last()),
        ),
    decreases bytes.len(),
{
    lemma_byte_hex_value(bytes.last());
    let h = byte_hex(bytes.last());
    if bytes.len() == 1 {
        let s = hex_display(bytes);
        assert(s.drop_last().drop_last() =~= Seq::<char>::empty());
        assert(s.drop_last() =~= seq![h[0]]);
        assert(split_state(s.drop_last()) == (Seq::<Seq<char>>::empty(), seq![h[0]])) by {
            assert(seq![h[0]].drop_last() =~= Seq::<char>::empty());
            assert(split_state(Seq::<char>::empty()) == (Seq::<Seq<char>>::empty(), Seq::<char>::empty()));
            assert(Seq::<char>::empty().push(h[0]) =~= seq![h[0]]);
        }
        assert(seq![h[0]].push(h[1]) =~= h);
        assert(Seq::new((bytes.len() - 1) as nat, |i: int| byte_hex(bytes[i]))
            =~= Seq::<Seq<char>>::empty());
    } else {
        let prev = bytes.drop_last();
        lemma_split_hex_display(prev);
        lemma_byte_hex_value(prev.last());
        let x = hex_display(prev);
        let s = hex_display(bytes);
        assert(s == x + seq![' '] + h);
        let s1 = x + seq![' '];
        let s2 = s1.push(h[0]);
        assert(s1.drop_last() =~= x);
        assert(s2.drop_last() =~= s1);
        assert(s.drop_last() =~= s2);
        let done = Seq::new((prev.len() - 1) as nat, |i: int| byte_hex(prev[i]));
        assert(split_state(s1) == (done.push(byte_hex(prev.last())), Seq::<char>::empty()));
        assert(split_state(s2) == (done.push(byte_hex(prev.last())), seq![h[0]])) by {
            assert(Seq::<char>::empty().push(h[0]) =~= seq![h[0]]);
        }
        assert(seq![h[0]].push(h[1]) =~= h);
        assert(done.push(byte_hex(prev.last())) =~= Seq::new(
            (bytes.len() - 1) as nat,
            |i: int| byte_hex(bytes[i]),
        ));
    }
}

proof fn lemma_tokens_value_of_bytes(bytes: Seq<u8>)
    ensures
        tokens_value(Seq::new(bytes.len(), |i: int| byte_hex(bytes[i])))
            == Ok::<Seq<u8>, HexTokenError>(bytes),
    decreases bytes.len(),
{
    let ts = Seq::new(bytes.len(), |i: int| byte_hex(bytes[i]));
    if bytes.len() == 0 {
        assert(ts =~= Seq::<Seq<char>>::empty());
        assert(bytes =~= Seq::<u8>::empty());
    } else {
        let prev = bytes.drop_last();
        lemma_tokens_value_of_bytes(prev);
        assert(ts.drop_last() =~= Seq::new(prev.len(), |i: int| byte_hex(prev[i])));
        lemma_byte_hex_value(bytes.last());
        assert(prev.push(bytes.last()) =~= bytes);
    }
}

/// Law: reading back the hex display of any bytes gives those bytes again.
pub proof fn lemma_hex_display_roundtrip(bytes: Seq<u8>)
    ensures
        hex_payload(hex_display(bytes)) == Ok::<Seq<u8>, HexTokenError>(bytes),
{
    if bytes.len() == 0 {
        assert(ws_tokens(hex_display(bytes)) =~= Seq::<Seq<char>>::empty());
        assert(bytes =~= Seq::<u8>::empty());
    } else {
        lemma_split_hex_display(bytes);
        lemma_byte_hex_value(bytes.last());
        let ts = Seq::new(bytes.len(), |i: int| byte_hex(bytes[i]));
        assert(ws_tokens(hex_display(bytes)) =~= ts);
        lemma_tokens_value_of_bytes(bytes);
    }
}

/// Law: the hex display of `n > 0` bytes is `3n - 1` characters long, and has a
/// space exactly at every third position.
pub proof fn lemma_hex_display_shape(bytes: Seq<u8>)
    ensures
        bytes.len() == 0 ==> hex_display(bytes).len() == 0,
        bytes.len() > 0 ==> hex_display(bytes).len() == 3 * bytes.len() - 1,
        forall|i: int|
            0 <= i < hex_display(bytes).len() ==> (#[trigger] hex_display(bytes)[i] == ' ' <==> i
                % 3 == 2),
    decreases bytes.len(),
{
    if bytes.len() > 1 {
        let prev = bytes.drop_last();
        lemma_hex_display_shape(prev);
        lemma_byte_hex_value(bytes.last());
        let x = hex_display(prev);
        let s = hex_display(bytes);
        assert forall|i: int| 0 <= i < s.len() implies (#[trigger] s[i] == ' ' <==> i % 3 == 2) by {
            if i < x.len() {
                assert(s[i] == x[i]);
            } else if i == x.len() {
                assert(s[i] == ' ');
            } else {
                assert(s[i] == byte_hex(bytes.last())[i - x.len() - 1]);
            }
        }
    } else if bytes.len() == 1 {
        lemma_byte_hex_value(bytes[0]);
    }
}

} // verus!

verus! {

// ---------------------------------------------------------------------------
// Letter case and spacing
// ---------------------------------------------------------------------------

/// The ASCII upper-case form of a character (`char::to_ascii_uppercase`).
pub open spec fn ascii_upper(c: char) -> char {
    if 'a' <= c && c <= 'z' {
        (c as u32 - 32) as char
    } else {
        c
    }
}

/// A text with its ASCII letters made upper case (`str::to_ascii_uppercase`).
pub open spec fn upper_text(s: Seq<char>) -> Seq<char> {
    s.map_values(|c: char| ascii_upper(c))
}

/// Tokens joined by single spaces.
pub open spec fn join_spaced(ts: Seq<Seq<char>>) -> Seq<char>
    decreases ts.len(),
{
    if ts.len() == 0 {
        Seq::empty()
    } else if ts.len() == 1 {
        ts[0]
    } else {
        join_spaced(ts.drop_last()) + seq![' '] + ts.last()
    }
}

/// A token: non-empty, without whitespace.
pub open spec fn is_token(t: Seq<char>) -> bool {
    t.len() > 0 && forall|i: int| 0 <= i < t.len() ==> !is_space(#[trigger] t[i])
}

proof fn lemma_upper_char(c: char)
    ensures
        is_space(ascii_upper(c)) == is_space(c),
        digit_value(ascii_upper(c)) == digit_value(c),
        (ascii_upper(c) == '+') == (c == '+'),
        (ascii_upper(c) == '-') == (c == '-'),
{
}

proof fn lemma_split_upper(s: Seq<char>)
    ensures
        split_state(upper_text(s)) == (
            split_state(s).0.map_values(|t: Seq<char>| upper_text(t)),
            upper_text(split_state(s).1),
        ),
    decreases s.len(),
{
    let u = upper_text(s);
    if s.len() == 0 {
        assert(u =~= Seq::<char>::empty());
        assert(split_state(s).0.map_values(|t: Seq<char>| upper_text(t)) =~= Seq::<
            Seq<char>,
        >::empty());
        assert(upper_text(Seq::<char>::empty()) =~= Seq::<char>::empty());
    } else {
        lemma_split_upper(s.drop_last());
        lemma_upper_char(s.last());
        assert(u.drop_last() =~= upper_text(s.drop_last()));
        assert(u.last() == ascii_upper(s.last()));
        let (done, cur) = split_state(s.drop_last());
        let f = |t: Seq<char>| upper_text(t);
        assert(upper_text(cur.push(s.last())) =~= upper_text(cur).push(ascii_upper(s.last())));
        assert(done.push(cur).map_values(f) =~= done.map_values(f).push(upper_text(cur)));
        assert(upper_text(Seq::<char>::empty()) =~= Seq::<char>::empty());
    }
}

proof fn lemma_digits_upper(d: Seq<char>)
    ensures
        digits_value(upper_text(d)) == digits_value(d),
    decreases d.len(),
{
    if d.len() > 0 {
        lemma_digits_upper(d.drop_last());
        lemma_upper_char(d.last());
        assert(upper_text(d).drop_last() =~= upper_text(d.drop_last()));
    }
}

proof fn lemma_token_upper(t: Seq<char>)
    ensures
        token_value(upper_text(t)) == token_value(t),
{
    let u = upper_text(t);
    if t.len() > 0 {
        lemma_upper_char(t[0]);
        assert(u.drop_first() =~= upper_text(t.drop_first()));
        lemma_digits_upper(t.drop_first());
        lemma_digits_upper(t);
    }
}

proof fn lemma_tokens_upper(ts: Seq<Seq<char>>)
    ensures
        tokens_value(ts.map_values(|t: Seq<char>| upper_text(t))) == tokens_value(ts),
    decreases ts.len(),
{
    let f = |t: Seq<char>| upper_text(t);
    if ts.len() > 0 {
        lemma_tokens_upper(ts.drop_last());
        lemma_token_upper(ts.last());
        assert(ts.map_values(f).drop_last() =~= ts.drop_last().map_values(f));
    }
}

/// Law: letter case never changes what a hex payload denotes, nor which error
/// refuses it.
pub proof fn lemma_hex_payload_ignores_case(s: Seq<char>)
    ensures
        hex_payload(upper_text(s)) == hex_payload(s),
{
    let f = |t: Seq<char>| upper_text(t);
    lemma_split_upper(s);
    let (done, cur) = split_state(s);
    assert(upper_text(cur).len() == cur.len());
    if cur.len() > 0 {
        assert(done.push(cur).map_values(f) =~= done.map_values(f).push(upper_text(cur)));
        lemma_tokens_upper(done.push(cur));
    } else {
        lemma_tokens_upper(done);
    }
}

proof fn lemma_split_append_token_chars(x: Seq<char>, t: Seq<char>)
    requires
        forall|i: int| 0 <= i < t.len() ==> !is_space(#[trigger] t[i]),
    ensures
        split_state(x + t) == (split_state(x).0, split_state(x).1 + t),
    decreases t.len(),
{
    if t.len() == 0 {
        assert(x + t =~= x);
        assert(split_state(x).1 + t =~= split_state(x).1);
    } else {
        lemma_split_append_token_chars(x, t.drop_last());
        assert((x + t).drop_last() =~= x + t.drop_last());
        assert((x + t).last() == t.last());
        assert((split_state(x).1 + t.drop_last()).push(t.last()) =~= split_state(x).1 + t);
    }
}

proof fn lemma_split_join(ts: Seq<Seq<char>>)
    requires
        ts.len() > 0,
        forall|i: int| 0 <= i < ts.len() ==> is_token(#[trigger] ts[i]),
    ensures
        split_state(join_spaced(ts)) == (ts.drop_last(), ts.last()),
    decreases ts.len(),
{
    assert(is_token(ts.last()));
    if ts.len() == 1 {
        let e = Seq::<char>::empty();
        lemma_split_append_token_chars(e, ts[0]);
        assert(e + ts[0] =~= ts[0]);
        assert(split_state(e) == (Seq::<Seq<char>>::empty(), e));
        assert(e + ts[0] =~= ts[0]);
        assert(ts.drop_last() =~= Seq::<Seq<char>>::empty());
    } else {
        let prev = ts.drop_last();
        assert forall|i: int| 0 <= i < prev.len() implies is_token(#[trigger] prev[i]) by {
            assert(prev[i] == ts[i]);
        }
        lemma_split_join(prev);
        assert(is_token(prev.last()));
        let x = join_spaced(prev) + seq![' '];
        assert(x.drop_last() =~= join_spaced(prev));
        assert(split_state(x) == (prev, Seq::<char>::empty())) by {
            assert(prev.drop_last().push(prev.last()) =~= prev);
        }
        lemma_split_append_token_chars(x, ts.last());
        assert(Seq::<char>::empty() + ts.last() =~= ts.last());
    }
}

proof fn lemma_split_state_tokens(s: Seq<char>)
    ensures
        forall|i: int|
            0 <= i < split_state(s).0.len() ==> is_token(#[trigger] split_state(s).0[i]),
        forall|i: int|
            0 <= i < split_state(s).1.len() ==> !is_space(#[trigger] split_state(s).1[i]),
    decreases s.len(),
{
    if s.len() > 0 {
        lemma_split_state_tokens(s.drop_last());
        let (done, cur) = split_state(s.drop_last());
        let c = s.last();
        if is_space(c) {
            if cur.len() > 0 {
                assert forall|i: int| 0 <= i < done.push(cur).len() implies is_token(
                    #[trigger] done.push(cur)[i],
                ) by {
                    if i < done.len() {
                        assert(done.push(cur)[i] == done[i]);
                    }
                }
            }
        } else {
            assert forall|i: int| 0 <= i < cur.push(c).len() implies !is_space(
                #[trigger] cur.push(c)[i],
            ) by {
                if i < cur.len() {
                    assert(cur.push(c)[i] == cur[i]);
                }
            }
        }
    }
}

/// The tokens of a text are tokens: non-empty and free of whitespace.
pub proof fn lemma_ws_tokens_are_tokens(s: Seq<char>)
    ensures
        forall|i: int| 0 <= i < ws_tokens(s).len() ==> is_token(#[trigger] ws_tokens(s)[i]),
{
    lemma_split_state_tokens(s);
    let (done, cur) = split_state(s);
    if cur.len() > 0 {
        assert forall|i: int| 0 <= i < done.push(cur).len() implies is_token(
            #[trigger] done.push(cur)[i],
        ) by {
            if i < done.len() {
                assert(done.push(cur)[i] == done[i]);
            }
        }
    }
}

/// Law: the kind and amount of whitespace never change what a hex payload
/// denotes: the payload reads the same as its tokens joined by single spaces.
pub proof fn lemma_hex_payload_ignores_spacing(s: Seq<char>)
    ensures
        ws_tokens(join_spaced(ws_tokens(s))) == ws_tokens(s),
        hex_payload(join_spaced(ws_tokens(s))) == hex_payload(s),
{
    let ts = ws_tokens(s);
    lemma_ws_tokens_are_tokens(s);
    if ts.len() == 0 {
        assert(join_spaced(ts) =~= Seq::<char>::empty());
        assert(split_state(Seq::<char>::empty()) == (
            Seq::<Seq<char>>::empty(),
            Seq::<char>::empty(),
        ));
        assert(ws_tokens(join_spaced(ts)) =~= ts);
    } else {
        lemma_split_join(ts);
        assert(ts.drop_last().push(ts.last()) =~= ts);
    }
}

/// Law: two payloads whose tokens agree once their letters are made upper case
/// read the same, whatever their letter case and whatever whitespace, and how
/// much of it, separates their tokens.
pub proof fn lemma_hex_payload_same_tokens(a: Seq<char>, b: Seq<char>)
    requires
        ws_tokens(upper_text(a)) == ws_tokens(upper_text(b)),
    ensures
        hex_payload(a) == hex_payload(b),
{
    lemma_hex_payload_ignores_case(a);
    lemma_hex_payload_ignores_case(b);
}

} // verus!
