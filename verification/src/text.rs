//! Building blocks for text: decimal numerals, repeated pieces, and texts
//! brought up to a width.

use vstd::prelude::*;
use vstd::utf8::encode_utf8;

verus! {

/// The number of bytes that a text takes in UTF-8.
pub open spec fn byte_len(text: Seq<char>) -> nat {
    encode_utf8(text).len()
}

/// The character that writes the digit `d`.
pub open spec fn digit_char(d: nat) -> char {
    if d == 0 {
        '0'
    } else if d == 1 {
        '1'
    } else if d == 2 {
        '2'
    } else if d == 3 {
        '3'
    } else if d == 4 {
        '4'
    } else if d == 5 {
        '5'
    } else if d == 6 {
        '6'
    } else if d == 7 {
        '7'
    } else if d == 8 {
        '8'
    } else {
        '9'
    }
}

/// The decimal numeral of `n`, most significant digit first, without leading
/// zeros.
pub open spec fn decimal(n: nat) -> Seq<char>
    decreases n,
{
    if n < 10 {
        seq![digit_char(n)]
    } else {
        decimal(n / 10).push(digit_char(n % 10))
    }
}

/// A count of hundredths written with two decimal places: the whole part,
/// a point, and two digits.
pub open spec fn two_places(hundredths: nat) -> Seq<char> {
    decimal(hundredths / 100) + seq![
        '.',
        digit_char(hundredths / 10 % 10),
        digit_char(hundredths % 10),
    ]
}

/// `piece` written `count` times in a row.
pub open spec fn repeated(piece: Seq<char>, count: nat) -> Seq<char>
    decreases count,
{
    if count == 0 {
        Seq::empty()
    } else {
        repeated(piece, (count - 1) as nat) + piece
    }
}

/// `width` less `taken`, or nothing where more is taken than there is.
pub open spec fn room_left(width: nat, taken: nat) -> nat {
    if width >= taken {
        (width - taken) as nat
    } else {
        0
    }
}

/// A text after the spaces that bring it up to `width` characters. A text
/// that is as long or longer stays as it is.
pub open spec fn right_aligned(text: Seq<char>, width: nat) -> Seq<char> {
    repeated(" "@, room_left(width, text.len())) + text
}

/// A text followed by the spaces that bring it up to `width` characters. A
/// text that is as long or longer stays as it is.
pub open spec fn padded(text: Seq<char>, width: nat) -> Seq<char> {
    text + repeated(" "@, room_left(width, text.len()))
}

/// A numeral has one digit below ten, two below a hundred, three below a
/// thousand, and at least four from there on.
pub proof fn lemma_decimal_len(n: nat)
    ensures
        n < 10 ==> decimal(n).len() == 1,
        10 <= n < 100 ==> decimal(n).len() == 2,
        100 <= n < 1000 ==> decimal(n).len() == 3,
        1000 <= n ==> decimal(n).len() >= 4,
    decreases n,
{
    if n >= 10 {
        lemma_decimal_len(n / 10);
    }
}

/// A text that fills its width is aligned and padded as it stands.
pub proof fn lemma_aligned_when_wide(text: Seq<char>, width: nat)
    requires
        text.len() >= width,
    ensures
        right_aligned(text, width) == text,
        padded(text, width) == text,
{
    assert(repeated(" "@, 0) =~= Seq::<char>::empty());
    assert(right_aligned(text, width) =~= text);
    assert(padded(text, width) =~= text);
}

/// A padded text is as long as the longer of the text and the width, and
/// begins with the text.
pub proof fn lemma_padded_len(text: Seq<char>, width: nat)
    ensures
        padded(text, width).len() == if text.len() >= width {
            text.len()
        } else {
            width
        },
        padded(text, width).subrange(0, text.len() as int) == text,
{
    reveal_strlit(" ");
    lemma_repeated_len(" "@, room_left(width, text.len()));
    assert(padded(text, width).subrange(0, text.len() as int) =~= text);
}

/// A repetition is `count` times as long as its piece.
pub proof fn lemma_repeated_len(piece: Seq<char>, count: nat)
    ensures
        repeated(piece, count).len() == count * piece.len(),
    decreases count,
{
    if count > 0 {
        let fewer: nat = (count - 1) as nat;
        lemma_repeated_len(piece, fewer);
        assert(count * piece.len() == fewer * piece.len() + piece.len()) by (nonlinear_arith)
            requires
                count == fewer + 1,
        ;
    } else {
        assert(count * piece.len() == 0) by (nonlinear_arith)
            requires
                count == 0,
        ;
    }
}

/// Counts the bytes of a string.
pub fn byte_length(s: &str) -> (n: usize)
    ensures
        n == byte_len(s@),
{
    s.as_bytes().len()
}

/// The one-character string of a digit.
pub fn digit_str(d: u8) -> (s: &'static str)
    requires
        d < 10,
    ensures
        s@ == seq![digit_char(d as nat)],
{
    proof {
        reveal_strlit("0");
        reveal_strlit("1");
        reveal_strlit("2");
        reveal_strlit("3");
        reveal_strlit("4");
        reveal_strlit("5");
        reveal_strlit("6");
        reveal_strlit("7");
        reveal_strlit("8");
        reveal_strlit("9");
    }
    let s: &'static str = match d {
        0 => "0",
        1 => "1",
        2 => "2",
        3 => "3",
        4 => "4",
        5 => "5",
        6 => "6",
        7 => "7",
        8 => "8",
        _ => "9",
    };
    assert(s@ =~= seq![digit_char(d as nat)]);
    s
}

/// Appends the decimal numeral of `n` to `out`.
pub fn push_decimal(out: &mut String, n: u128)
    ensures
        final(out)@ == old(out)@ + decimal(n as nat),
    decreases n,
{
    if n >= 10 {
        push_decimal(out, n / 10);
    }
    let d: u8 = (n % 10) as u8;
    out.append(digit_str(d));
    assert(final(out)@ =~= old(out)@ + decimal(n as nat));
}

/// Appends `hundredths` to `out`, written with two decimal places.
pub fn push_two_places(out: &mut String, hundredths: u128)
    ensures
        final(out)@ == old(out)@ + two_places(hundredths as nat),
{
    proof {
        reveal_strlit(".");
    }
    push_decimal(out, hundredths / 100);
    out.append(".");
    let tenths: u8 = (hundredths / 10 % 10) as u8;
    let last: u8 = (hundredths % 10) as u8;
    out.append(digit_str(tenths));
    out.append(digit_str(last));
    assert(final(out)@ =~= old(out)@ + two_places(hundredths as nat));
}

/// Appends `text` to `out` after the spaces that bring it up to `width`
/// characters.
pub fn push_right_aligned(out: &mut String, text: &str, width: usize)
    ensures
        final(out)@ == old(out)@ + right_aligned(text@, width as nat),
{
    let length: usize = text.unicode_len();
    push_repeated(out, " ", width.saturating_sub(length));
    out.append(text);
    assert(final(out)@ =~= old(out)@ + right_aligned(text@, width as nat));
}

/// Appends the spaces that bring `text` up to `width` characters.
pub fn pad_to_width(text: String, width: usize) -> (line: String)
    ensures
        line@ == padded(text@, width as nat),
{
    let mut line: String = text;
    let length: usize = line.as_str().unicode_len();
    push_repeated(&mut line, " ", width.saturating_sub(length));
    line
}

/// Appends `piece` to `out`, `count` times.
pub fn push_repeated(out: &mut String, piece: &str, count: usize)
    ensures
        final(out)@ == old(out)@ + repeated(piece@, count as nat),
{
    let mut done: usize = 0;
    while done < count
        invariant
            done <= count,
            out@ == old(out)@ + repeated(piece@, done as nat),
        decreases count - done,
    {
        out.append(piece);
        done = done + 1;
        assert(out@ =~= old(out)@ + repeated(piece@, done as nat));
    }
}

} // verus!
