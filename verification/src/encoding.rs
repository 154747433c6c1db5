//! Standard base64 with padding, as the signing scheme writes every digest.

use vstd::prelude::*;

verus! {

/// The character that stands for the six-bit value `v` in the standard
/// alphabet: `A`-`Z`, `a`-`z`, `0`-`9`, `+`, `/`.
pub open spec fn base64_symbol(v: int) -> char {
    if v < 26 {
        (v + 65) as u8 as char
    } else if v < 52 {
        (v + 71) as u8 as char
    } else if v < 62 {
        (v - 4) as u8 as char
    } else if v == 62 {
        '+'
    } else {
        '/'
    }
}

/// The padded base64 text of `bytes`: four characters for every three bytes,
/// the last group filled up with `=`.
pub open spec fn base64_text(bytes: Seq<u8>) -> Seq<char>
    decreases bytes.len(),
{
    if bytes.len() == 0 {
        Seq::empty()
    } else if bytes.len() == 1 {
        let a = bytes[0] as int;
        seq![base64_symbol(a / 4), base64_symbol(a % 4 * 16), '=', '=']
    } else if bytes.len() == 2 {
        let a = bytes[0] as int;
        let b = bytes[1] as int;
        seq![base64_symbol(a / 4), base64_symbol(a % 4 * 16 + b / 16), base64_symbol(b % 16 * 4), '=']
    } else {
        let a = bytes[0] as int;
        let b = bytes[1] as int;
        let c = bytes[2] as int;
        seq![
            base64_symbol(a / 4),
            base64_symbol(a % 4 * 16 + b / 16),
            base64_symbol(b % 16 * 4 + c / 64),
            base64_symbol(c % 64),
        ] + base64_text(bytes.skip(3))
    }
}

/// The number of characters that `n` bytes take in padded base64.
pub open spec fn base64_len(n: int) -> int {
    4 * ((n + 2) / 3)
}

/// Whether `c` can occur in padded base64 text.
pub open spec fn is_base64_char(c: char) -> bool {
    ('A' <= c && c <= 'Z') || ('a' <= c && c <= 'z') || ('0' <= c && c <= '9') || c == '+'
        || c == '/' || c == '='
}

/// Encodes `bytes` with `base64::encode`, which uses the standard alphabet
/// and pads. The contract states the encoding in full; the call needs the
/// length of the text to fit in `usize`.
#[verifier::external_body]
pub(crate) fn encode(bytes: &[u8]) -> (text: String)
    requires
        base64_len(bytes@.len() as int) <= usize::MAX,
    ensures
        text@ == base64_text(bytes@),
{
    ::base64::encode(bytes)
}

/// Padded base64 text has four characters for every started group of three
/// bytes.
pub proof fn lemma_base64_len(bytes: Seq<u8>)
    ensures
        base64_text(bytes).len() == base64_len(bytes.len() as int),
    decreases bytes.len(),
{
    if bytes.len() >= 3 {
        lemma_base64_len(bytes.skip(3));
    }
}

/// Every six-bit value has a symbol of the alphabet.
pub proof fn lemma_symbol_in_alphabet(v: int)
    requires
        0 <= v < 64,
    ensures
        is_base64_char(base64_symbol(v)),
        base64_symbol(v) != '=',
{
}

/// Padded base64 text holds only characters of the alphabet and `=`.
pub proof fn lemma_base64_alphabet(bytes: Seq<u8>, i: int)
    requires
        0 <= i < base64_text(bytes).len(),
    ensures
        is_base64_char(base64_text(bytes)[i]),
    decreases bytes.len(),
{
    if bytes.len() >= 1 {
        let a = bytes[0] as int;
        lemma_symbol_in_alphabet(a / 4);
        if bytes.len() == 1 {
            lemma_symbol_in_alphabet(a % 4 * 16);
        } else {
            let b = bytes[1] as int;
            lemma_symbol_in_alphabet(a % 4 * 16 + b / 16);
            if bytes.len() == 2 {
                lemma_symbol_in_alphabet(b % 16 * 4);
            } else {
                let c = bytes[2] as int;
                lemma_symbol_in_alphabet(b % 16 * 4 + c / 64);
                lemma_symbol_in_alphabet(c % 64);
                if i >= 4 {
                    lemma_base64_alphabet(bytes.skip(3), i - 4);
                }
            }
        }
    }
}

/// Text that does not fill its last group ends with the padding character.
pub proof fn lemma_base64_padding(bytes: Seq<u8>)
    requires
        bytes.len() % 3 != 0,
    ensures
        base64_text(bytes).len() >= 4,
        base64_text(bytes).last() == '=',
    decreases bytes.len(),
{
    if bytes.len() >= 3 {
        lemma_base64_padding(bytes.skip(3));
    }
}

/// Two six-bit values with the same symbol are the same value.
pub proof fn lemma_symbol_injective(v: int, w: int)
    requires
        0 <= v < 64,
        0 <= w < 64,
        base64_symbol(v) == base64_symbol(w),
    ensures
        v == w,
{
}

/// Base64 loses nothing: two byte strings with the same text are the same
/// bytes.
pub proof fn lemma_base64_injective(a: Seq<u8>, b: Seq<u8>)
    requires
        base64_text(a) == base64_text(b),
    ensures
        a == b,
    decreases a.len(),
{
    lemma_base64_len(a);
    lemma_base64_len(b);
    let ta = base64_text(a);
    let tb = base64_text(b);
    if a.len() == 0 {
        assert(a =~= b);
    } else {
        assert(b.len() >= 1);
        let a0 = a[0] as int;
        let b0 = b[0] as int;
        lemma_symbol_in_alphabet(a0 / 4);
        lemma_symbol_in_alphabet(b0 / 4);
        assert(ta[0] == base64_symbol(a0 / 4));
        assert(tb[0] == base64_symbol(b0 / 4));
        lemma_symbol_injective(a0 / 4, b0 / 4);
        if a.len() == 1 || b.len() == 1 {
            if a.len() >= 2 {
                lemma_symbol_in_alphabet(a[1] as int % 16 * 4);
                lemma_symbol_in_alphabet(a[1] as int % 16 * 4 + (if a.len() >= 3 {
                    a[2] as int / 64
                } else {
                    0
                }));
                assert(ta[2] != '=');
                assert(tb[2] == '=');
            }
            if b.len() >= 2 {
                lemma_symbol_in_alphabet(b[1] as int % 16 * 4);
                lemma_symbol_in_alphabet(b[1] as int % 16 * 4 + (if b.len() >= 3 {
                    b[2] as int / 64
                } else {
                    0
                }));
                assert(tb[2] != '=');
                assert(ta[2] == '=');
            }
            assert(ta[1] == base64_symbol(a0 % 4 * 16));
            assert(tb[1] == base64_symbol(b0 % 4 * 16));
            lemma_symbol_injective(a0 % 4 * 16, b0 % 4 * 16);
            assert(a =~= b);
        } else {
            let a1 = a[1] as int;
            let b1 = b[1] as int;
            assert(ta[1] == base64_symbol(a0 % 4 * 16 + a1 / 16));
            assert(tb[1] == base64_symbol(b0 % 4 * 16 + b1 / 16));
            lemma_symbol_injective(a0 % 4 * 16 + a1 / 16, b0 % 4 * 16 + b1 / 16);
            if a.len() == 2 || b.len() == 2 {
                if a.len() >= 3 {
                    lemma_symbol_in_alphabet(a[2] as int % 64);
                    assert(ta[3] != '=');
                    assert(tb[3] == '=');
                }
                if b.len() >= 3 {
                    lemma_symbol_in_alphabet(b[2] as int % 64);
                    assert(tb[3] != '=');
                    assert(ta[3] == '=');
                }
                assert(ta[2] == base64_symbol(a1 % 16 * 4));
                assert(tb[2] == base64_symbol(b1 % 16 * 4));
                lemma_symbol_injective(a1 % 16 * 4, b1 % 16 * 4);
                assert(a =~= b);
            } else {
                let a2 = a[2] as int;
                let b2 = b[2] as int;
                assert(ta[2] == base64_symbol(a1 % 16 * 4 + a2 / 64));
                assert(tb[2] == base64_symbol(b1 % 16 * 4 + b2 / 64));
                assert(ta[3] == base64_symbol(a2 % 64));
                assert(tb[3] == base64_symbol(b2 % 64));
                lemma_symbol_injective(a1 % 16 * 4 + a2 / 64, b1 % 16 * 4 + b2 / 64);
                lemma_symbol_injective(a2 % 64, b2 % 64);
                let ra = base64_text(a.skip(3));
                let rb = base64_text(b.skip(3));
                assert(ra =~= ta.skip(4));
                assert(rb =~= tb.skip(4));
                lemma_base64_injective(a.skip(3), b.skip(3));
                assert(a.len() == b.len()) by {
                    assert(a.skip(3).len() == b.skip(3).len());
                }
                assert forall|i: int| 0 <= i < a.len() implies a[i] == b[i] by {
                    if i >= 3 {
                        assert(a[i] == a.skip(3)[i - 3]);
                        assert(b[i] == b.skip(3)[i - 3]);
                    }
                }
                assert(a =~= b);
            }
        }
    }
}

} // verus!
