//! Hex dumps of byte strings, for logs: sixteen bytes to a line, each line with its offset,
//! the bytes in hex and the bytes as text.

use vstd::prelude::*;

verus! {

/// The number of bytes that one line of a dump shows.
pub const BYTES_PER_LINE: usize = 16;

/// The lower-case hex digit for a number below 16.
pub open spec fn hex_digit(n: nat) -> char {
    if n == 0 {
        '0'
    } else if n == 1 {
        '1'
    } else if n == 2 {
        '2'
    } else if n == 3 {
        '3'
    } else if n == 4 {
        '4'
    } else if n == 5 {
        '5'
    } else if n == 6 {
        '6'
    } else if n == 7 {
        '7'
    } else if n == 8 {
        '8'
    } else if n == 9 {
        '9'
    } else if n == 10 {
        'a'
    } else if n == 11 {
        'b'
    } else if n == 12 {
        'c'
    } else if n == 13 {
        'd'
    } else if n == 14 {
        'e'
    } else {
        'f'
    }
}

/// The number `n` in hex, with leading zeros up to `min_digits` digits.
pub open spec fn hex_number(n: nat, min_digits: nat) -> Seq<char>
    decreases n + min_digits,
{
    if n < 16 && min_digits <= 1 {
        seq![hex_digit(n)]
    } else {
        hex_number(n / 16, if min_digits > 0 {
            (min_digits - 1) as nat
        } else {
            0
        }).push(hex_digit(n % 16))
    }
}

/// The byte as it shows in the text column: itself where it is a printable ASCII character,
/// a dot elsewhere.
pub open spec fn printable(byte: u8) -> char {
    if 0x20 <= byte <= 0x7e {
        byte as char
    } else {
        '.'
    }
}

/// The cell of the hex column at `j`: two hex digits for a byte of the line, two blanks
/// behind its end, a blank after either, and one more blank before the ninth cell.
pub open spec fn hex_cell(chunk: Seq<u8>, j: int) -> Seq<char> {
    let gap = if j == 8 {
        seq![' ']
    } else {
        Seq::empty()
    };
    let body = if j < chunk.len() {
        seq![hex_digit((chunk[j] / 16) as nat), hex_digit((chunk[j] % 16) as nat)]
    } else {
        seq![' ', ' ']
    };
    gap + body + seq![' ']
}

/// The first `n` cells of the hex column.
pub open spec fn hex_cells(chunk: Seq<u8>, n: nat) -> Seq<char>
    decreases n,
{
    if n == 0 {
        Seq::empty()
    } else {
        hex_cells(chunk, (n - 1) as nat) + hex_cell(chunk, n - 1)
    }
}

/// The bytes as they show in the text column.
pub open spec fn text_column(chunk: Seq<u8>) -> Seq<char> {
    chunk.map_values(|b: u8| printable(b))
}

/// One line of a dump: the offset in at least four hex digits, two blanks, sixteen cells,
/// and the text between bars.
pub open spec fn hex_line(offset: nat, chunk: Seq<u8>) -> Seq<char> {
    hex_number(offset, 4) + seq![' ', ' '] + hex_cells(chunk, BYTES_PER_LINE as nat) + seq![
        ' ',
        '|',
    ] + text_column(chunk) + seq!['|']
}

/// The bytes that line `i` of the dump of `data` shows.
pub open spec fn chunk_at(data: Seq<u8>, i: int) -> Seq<u8> {
    data.subrange(
        i * BYTES_PER_LINE,
        if (i + 1) * BYTES_PER_LINE <= data.len() {
            (i + 1) * BYTES_PER_LINE
        } else {
            data.len() as int
        },
    )
}

/// The first `n` lines of the dump of `data`, with a line break between one and the next.
pub open spec fn hex_lines(data: Seq<u8>, n: nat) -> Seq<char>
    decreases n,
{
    if n == 0 {
        Seq::empty()
    } else {
        hex_lines(data, (n - 1) as nat) + if n > 1 {
            seq!['\n']
        } else {
            Seq::empty()
        } + hex_line(((n - 1) * BYTES_PER_LINE) as nat, chunk_at(data, n - 1))
    }
}

/// The number of lines of the dump of `len` bytes.
pub open spec fn line_count(len: nat) -> nat {
    (len + BYTES_PER_LINE - 1) as nat / BYTES_PER_LINE as nat
}

/// The dump of `data`: a line for every sixteen bytes, and none for no bytes.
pub open spec fn hex_dump(data: Seq<u8>) -> Seq<char> {
    hex_lines(data, line_count(data.len()))
}

/// Calls `String::push`: the character is put behind the text.
#[verifier::external_body]
fn push_char(text: &mut String, c: char)
    ensures
        final(text)@ == old(text)@.push(c),
{
    text.push(c)
}

/// Puts the hex digit for `n` behind the text.
fn push_hex_digit(text: &mut String, n: usize)
    requires
        n < 16,
    ensures
        final(text)@ == old(text)@.push(hex_digit(n as nat)),
{
    let digit: char = if n == 0 {
        '0'
    } else if n == 1 {
        '1'
    } else if n == 2 {
        '2'
    } else if n == 3 {
        '3'
    } else if n == 4 {
        '4'
    } else if n == 5 {
        '5'
    } else if n == 6 {
        '6'
    } else if n == 7 {
        '7'
    } else if n == 8 {
        '8'
    } else if n == 9 {
        '9'
    } else if n == 10 {
        'a'
    } else if n == 11 {
        'b'
    } else if n == 12 {
        'c'
    } else if n == 13 {
        'd'
    } else if n == 14 {
        'e'
    } else {
        'f'
    };
    push_char(text, digit);
}

/// Puts `n` in hex behind the text, with leading zeros up to `min_digits` digits.
pub(crate) fn push_hex_number(text: &mut String, n: usize, min_digits: usize)
    ensures
        final(text)@ == old(text)@ + hex_number(n as nat, min_digits as nat),
    decreases n + min_digits,
{
    let ghost start = text@;
    if n >= 16 || min_digits > 1 {
        let fewer: usize = if min_digits > 0 {
            min_digits - 1
        } else {
            0
        };
        push_hex_number(text, n / 16, fewer);
    }
    push_hex_digit(text, n % 16);
    assert(text@ =~= start + hex_number(n as nat, min_digits as nat));
}

/// Puts one line of a dump behind the text: the bytes of `data` from `from` up to `to`, at
/// most sixteen, with the offset `from`.
fn push_hex_line(text: &mut String, data: &[u8], from: usize, to: usize)
    requires
        from <= to <= data@.len(),
        to - from <= BYTES_PER_LINE,
    ensures
        final(text)@ == old(text)@ + hex_line(
            from as nat,
            data@.subrange(from as int, to as int),
        ),
{
    let ghost start = text@;
    let ghost chunk = data@.subrange(from as int, to as int);
    push_hex_number(text, from, 4);
    push_char(text, ' ');
    push_char(text, ' ');
    let ghost head = text@;
    assert(head =~= start + hex_number(from as nat, 4) + seq![' ', ' ']);
    let mut j: usize = 0;
    while j < BYTES_PER_LINE
        invariant
            j <= BYTES_PER_LINE,
            from <= to <= data@.len(),
            to - from <= BYTES_PER_LINE,
            chunk == data@.subrange(from as int, to as int),
            text@ == head + hex_cells(chunk, j as nat),
        decreases BYTES_PER_LINE - j,
    {
        let ghost before = text@;
        if j == 8 {
            push_char(text, ' ');
        }
        if j < to - from {
            let byte: u8 = data[from + j];
            push_hex_digit(text, (byte / 16) as usize);
            push_hex_digit(text, (byte % 16) as usize);
        } else {
            push_char(text, ' ');
            push_char(text, ' ');
        }
        push_char(text, ' ');
        assert(text@ =~= before + hex_cell(chunk, j as int));
        j += 1;
    }
    push_char(text, ' ');
    push_char(text, '|');
    let ghost middle = text@;
    assert(middle =~= head + hex_cells(chunk, BYTES_PER_LINE as nat) + seq![' ', '|']);
    let mut k: usize = from;
    while k < to
        invariant
            from <= k <= to <= data@.len(),
            chunk == data@.subrange(from as int, to as int),
            text@ == middle + text_column(chunk.take(k - from)),
        decreases to - k,
    {
        let byte: u8 = data[k];
        let shown: char = if byte >= 0x20 && byte <= 0x7e {
            byte as char
        } else {
            '.'
        };
        push_char(text, shown);
        assert(text_column(chunk.take(k + 1 - from)) =~= text_column(chunk.take(k - from)).push(
            printable(byte),
        ));
        k += 1;
    }
    assert(chunk.take(to - from) =~= chunk);
    push_char(text, '|');
    assert(text@ =~= start + hex_line(from as nat, chunk));
}

/// The hex dump of `data`: for every sixteen bytes a line with their offset, the bytes in
/// hex, and the bytes as text; the lines are separated by line breaks.
pub fn format_hex(data: &[u8]) -> (text: String)
    ensures
        text@ == hex_dump(data@),
{
    let len: usize = data.len();
    let mut text = String::new();
    let mut from: usize = 0;
    let ghost mut lines: nat = 0;
    while from < len
        invariant
            len == data@.len(),
            from <= len,
            from == lines * BYTES_PER_LINE || from == len,
            from == len ==> lines == line_count(len as nat),
            from < len ==> from == lines * BYTES_PER_LINE,
            text@ == hex_lines(data@, lines),
        decreases len - from,
    {
        let to: usize = if len - from > BYTES_PER_LINE {
            from + BYTES_PER_LINE
        } else {
            len
        };
        if from > 0 {
            push_char(&mut text, '\n');
        }
        push_hex_line(&mut text, data, from, to);
        proof {
            assert(chunk_at(data@, lines as int) == data@.subrange(from as int, to as int));
            lines = lines + 1;
        }
        from = to;
    }
    text
}

} // verus!
