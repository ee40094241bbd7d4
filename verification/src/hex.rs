//! Hexadecimal text forms of byte strings.

use vstd::prelude::*;
use vstd::string::StringExecFns;

verus! {

/// The upper-case hexadecimal digit for `n`, where `0 <= n < 16`.
pub open spec fn upper_hex_digit(n: int) -> char {
    seq!['0', '1', '2', '3', '4', '5', '6', '7', '8', '9', 'A', 'B', 'C', 'D', 'E', 'F'][n]
}

/// The lower-case hexadecimal digit for `n`, where `0 <= n < 16`.
pub open spec fn lower_hex_digit(n: int) -> char {
    seq!['0', '1', '2', '3', '4', '5', '6', '7', '8', '9', 'a', 'b', 'c', 'd', 'e', 'f'][n]
}

/// The character at position `k` of the upper-case hexadecimal form of `bytes`:
/// two digits for each byte, the high half first.
pub open spec fn hex_upper_char(bytes: Seq<u8>, k: int) -> char {
    if k % 2 == 0 {
        upper_hex_digit(bytes[k / 2] as int / 16)
    } else {
        upper_hex_digit(bytes[k / 2] as int % 16)
    }
}

/// The upper-case hexadecimal form of `bytes`, without separators.
pub open spec fn hex_upper(bytes: Seq<u8>) -> Seq<char> {
    Seq::new(2 * bytes.len(), |k: int| hex_upper_char(bytes, k))
}

/// The hexadecimal form of a concatenation is the concatenation of the forms.
pub proof fn lemma_hex_upper_concat(a: Seq<u8>, b: Seq<u8>)
    ensures
        hex_upper(a + b) == hex_upper(a) + hex_upper(b),
{
    let whole = hex_upper(a + b);
    let parts = hex_upper(a) + hex_upper(b);
    assert(whole.len() == parts.len());
    assert forall|k: int| 0 <= k < whole.len() implies whole[k] == parts[k] by {
        if k < 2 * a.len() {
            assert((a + b)[k / 2] == a[k / 2]);
        } else {
            let j = k - 2 * a.len();
            assert(j / 2 == k / 2 - a.len());
            assert(j % 2 == k % 2);
            assert((a + b)[k / 2] == b[j / 2]);
            assert(parts[k] == hex_upper(b)[j]);
        }
    }
    assert(whole =~= parts);
}

/// The text that `HEXUPPER.encode` of data-encoding gives for `input`: two
/// upper-case digits for each byte. The call panics on an input longer than
/// `usize::MAX / 512` bytes, which `requires` leaves out.
#[verifier::external_body]
fn hexupper_encode(input: &[u8]) -> (text: String)
    requires
        input@.len() <= usize::MAX / 512,
    ensures
        text@ == hex_upper(input@),
{
    data_encoding::HEXUPPER.encode(input)
}

/// The most bytes that are handed to the encoder in one call.
pub const HEX_CHUNK: usize = 0x10000;

/// Renders `bytes` as upper-case hexadecimal digits without separators.
///
/// Long inputs are encoded in runs of [`HEX_CHUNK`] bytes, so that the
/// encoder's limit on the length of one input is never reached.
pub fn encode_hex_upper(bytes: &[u8]) -> (text: String)
    ensures
        text@ == hex_upper(bytes@),
{
    let mut text = String::new();
    let mut done: usize = 0;
    assert(hex_upper(bytes@.take(0)) =~= Seq::<char>::empty());
    while done < bytes.len()
        invariant
            done <= bytes.len(),
            text@ == hex_upper(bytes@.take(done as int)),
        decreases bytes.len() - done,
    {
        let left: usize = bytes.len() - done;
        let run: usize = if left < HEX_CHUNK {
            left
        } else {
            HEX_CHUNK
        };
        let chunk = vstd::slice::slice_subrange(bytes, done, done + run);
        let part = hexupper_encode(chunk);
        proof {
            lemma_hex_upper_concat(bytes@.take(done as int), chunk@);
            assert(bytes@.take(done as int) + chunk@ =~= bytes@.take(done + run));
        }
        text.append(part.as_str());
        done += run;
    }
    assert(bytes@.take(done as int) =~= bytes@);
    text
}

/// The character at position `k` of the colon-separated form of `bytes`:
/// every third character is a colon, the others are the digits of byte `k / 3`.
pub open spec fn colon_hex_char(bytes: Seq<u8>, k: int) -> char {
    if k % 3 == 0 {
        lower_hex_digit(bytes[k / 3] as int / 16)
    } else if k % 3 == 1 {
        lower_hex_digit(bytes[k / 3] as int % 16)
    } else {
        ':'
    }
}

/// The number of characters in the colon-separated form of `n` bytes.
pub open spec fn colon_hex_len(n: nat) -> nat {
    if n == 0 {
        0
    } else {
        (3 * n - 1) as nat
    }
}

/// The colon-separated lower-case hexadecimal form of `bytes`, such as `4a:1f:09`.
pub open spec fn colon_hex(bytes: Seq<u8>) -> Seq<char> {
    Seq::new(colon_hex_len(bytes.len()), |k: int| colon_hex_char(bytes, k))
}

/// The number of places in `text` that hold the character `c`.
pub open spec fn count_char(text: Seq<char>, c: char) -> nat
    decreases text.len(),
{
    if text.len() == 0 {
        0
    } else {
        count_char(text.drop_last(), c) + if text.last() == c {
            1nat
        } else {
            0nat
        }
    }
}

/// No hexadecimal digit is a colon.
pub proof fn lemma_digit_is_no_colon(n: int)
    requires
        0 <= n < 16,
    ensures
        lower_hex_digit(n) != ':',
{
}

/// The first `m` characters of the colon-separated form hold one colon for
/// every three characters that are complete.
proof fn lemma_colons_in_prefix(bytes: Seq<u8>, m: int)
    requires
        0 <= m <= colon_hex_len(bytes.len()),
    ensures
        count_char(colon_hex(bytes).take(m), ':') == m / 3,
    decreases m,
{
    let text = colon_hex(bytes);
    if m > 0 {
        lemma_colons_in_prefix(bytes, m - 1);
        assert(text.take(m).drop_last() =~= text.take(m - 1));
        assert(text.take(m).last() == colon_hex_char(bytes, m - 1));
        if (m - 1) % 3 == 0 {
            lemma_digit_is_no_colon(bytes[(m - 1) / 3] as int / 16);
        } else if (m - 1) % 3 == 1 {
            lemma_digit_is_no_colon(bytes[(m - 1) / 3] as int % 16);
        }
    }
}

/// The shape of the colon-separated form of `n` bytes: `n` groups of two
/// digits, the two digits of each byte in its group, and `n - 1` colons, one
/// between each group and the next. No bytes give the empty text.
pub proof fn lemma_colon_hex_shape(bytes: Seq<u8>)
    ensures
        bytes.len() == 0 ==> colon_hex(bytes) == Seq::<char>::empty(),
        bytes.len() >= 1 ==> colon_hex(bytes).len() == 2 * bytes.len() + (bytes.len() - 1),
        bytes.len() >= 1 ==> count_char(colon_hex(bytes), ':') == bytes.len() - 1,
        forall|j: int|
            0 <= j < bytes.len() ==> {
                &&& #[trigger] colon_hex(bytes)[3 * j] == lower_hex_digit(bytes[j] as int / 16)
                &&& colon_hex(bytes)[3 * j + 1] == lower_hex_digit(bytes[j] as int % 16)
            },
        forall|j: int| 0 <= j < bytes.len() - 1 ==> #[trigger] colon_hex(bytes)[3 * j + 2] == ':',
{
    let text = colon_hex(bytes);
    if bytes.len() == 0 {
        assert(text =~= Seq::<char>::empty());
    } else {
        lemma_colons_in_prefix(bytes, text.len() as int);
        assert(text.take(text.len() as int) =~= text);
    }
    assert forall|j: int| 0 <= j < bytes.len() implies {
        &&& #[trigger] text[3 * j] == lower_hex_digit(bytes[j] as int / 16)
        &&& text[3 * j + 1] == lower_hex_digit(bytes[j] as int % 16)
    } by {
        assert((3 * j) / 3 == j && (3 * j) % 3 == 0);
        assert((3 * j + 1) / 3 == j && (3 * j + 1) % 3 == 1);
    }
    assert forall|j: int| 0 <= j < bytes.len() - 1 implies #[trigger] text[3 * j + 2] == ':' by {
        assert((3 * j + 2) % 3 == 2);
    }
}

/// The digit of the lower-case form as a string of one character.
fn lower_digit_str(n: u8) -> (digit: &'static str)
    requires
        n < 16,
    ensures
        digit@ == seq![lower_hex_digit(n as int)],
{
    proof {
        reveal_strlit("0");
        reveal_strlit("1");
        reveal_strlit("2");
        reveal_strlit("3");
        reveal_strlit("4");
        reveal_strlit("5");
        reveal_strlit("6");
        reveal_strlit("7");
        reveal_strlit("8");
        reveal_strlit("9");
        reveal_strlit("a");
        reveal_strlit("b");
        reveal_strlit("c");
        reveal_strlit("d");
        reveal_strlit("e");
        reveal_strlit("f");
    }
    let digit = match n {
        0 => "0",
        1 => "1",
        2 => "2",
        3 => "3",
        4 => "4",
        5 => "5",
        6 => "6",
        7 => "7",
        8 => "8",
        9 => "9",
        10 => "a",
        11 => "b",
        12 => "c",
        13 => "d",
        14 => "e",
        _ => "f",
    };
    assert(digit@ =~= seq![lower_hex_digit(n as int)]);
    digit
}

/// Renders `bytes` as lower-case hexadecimal pairs separated by colons.
///
/// The bytes are taken as they are: leading zero bytes keep their place. No
/// colon follows the last pair, and no bytes give the empty string.
pub fn colon_separated_hex(bytes: &[u8]) -> (text: String)
    ensures
        text@ == colon_hex(bytes@),
        bytes@.len() == 0 ==> text@.len() == 0,
        bytes@.len() >= 1 ==> text@.len() == 3 * bytes@.len() - 1,
        bytes@.len() >= 1 ==> count_char(text@, ':') == bytes@.len() - 1,
{
    let mut text = String::new();
    let mut i: usize = 0;
    while i < bytes.len()
        invariant
            i <= bytes.len(),
            text@.len() == colon_hex_len(i as nat),
            forall|k: int| 0 <= k < text@.len() ==> text@[k] == colon_hex_char(bytes@, k),
        decreases bytes.len() - i,
    {
        let b: u8 = bytes[i];
        if i > 0 {
            proof {
                reveal_strlit(":");
            }
            text.append(":");
        }
        text.append(lower_digit_str(b / 16));
        text.append(lower_digit_str(b % 16));
        i += 1;
    }
    assert(text@ =~= colon_hex(bytes@));
    proof {
        lemma_colon_hex_shape(bytes@);
    }
    text
}

} // verus!
