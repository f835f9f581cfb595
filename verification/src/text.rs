//! Building blocks of emitted source text: pieces written one after another,
//! items joined by a separator, and the body of a string literal.

use vstd::prelude::*;
use vstd::string::*;

verus! {

/// All `pieces`, written one after another.
pub open spec fn concat_all(pieces: Seq<Seq<char>>) -> Seq<char>
    decreases pieces.len(),
{
    if pieces.len() == 0 {
        Seq::empty()
    } else {
        concat_all(pieces.drop_last()) + pieces.last()
    }
}

/// Where piece `i` begins inside `concat_all(pieces)`.
pub open spec fn piece_offset(pieces: Seq<Seq<char>>, i: int) -> int {
    concat_all(pieces.take(i)).len() as int
}

/// Appending a piece appends its text.
proof fn lemma_concat_all_push(pieces: Seq<Seq<char>>, piece: Seq<char>)
    ensures
        concat_all(pieces.push(piece)) == concat_all(pieces) + piece,
{
    assert(pieces.push(piece).drop_last() =~= pieces);
}

/// The text of the first `i + 1` pieces is the text of the first `i`,
/// followed by piece `i`.
proof fn lemma_concat_all_take_next(pieces: Seq<Seq<char>>, i: int)
    requires
        0 <= i < pieces.len(),
    ensures
        concat_all(pieces.take(i + 1)) == concat_all(pieces.take(i)) + pieces[i],
{
    assert(pieces.take(i + 1).drop_last() =~= pieces.take(i));
}

/// One step of writing pieces one after another: the text of the first
/// `i + 1` pieces is that of the first `i`, followed by piece `i`.
pub(crate) proof fn lemma_concat_pieces_step<A>(
    piece: spec_fn(A) -> Seq<char>,
    items: Seq<A>,
    i: int,
)
    requires
        0 <= i < items.len(),
    ensures
        concat_all(items.take(i + 1).map_values(piece)) == concat_all(
            items.take(i).map_values(piece),
        ) + piece(items[i]),
{
    assert(items.take(i + 1).map_values(piece) =~= items.take(i).map_values(piece).push(
        piece(items[i]),
    ));
    lemma_concat_all_push(items.take(i).map_values(piece), piece(items[i]));
}

/// Offsets grow with the index: an earlier piece ends before a later one
/// begins.
proof fn lemma_piece_offsets_ordered(pieces: Seq<Seq<char>>, i: int, j: int)
    requires
        0 <= i < j <= pieces.len(),
    ensures
        piece_offset(pieces, i) + pieces[i].len() <= piece_offset(pieces, j),
    decreases j - i,
{
    lemma_concat_all_take_next(pieces, j - 1);
    if i < j - 1 {
        lemma_piece_offsets_ordered(pieces, i, j - 1);
    }
}

/// Piece `i` stands unchanged in the whole text, at its offset.
proof fn lemma_piece_position(pieces: Seq<Seq<char>>, i: int)
    requires
        0 <= i < pieces.len(),
    ensures
        0 <= piece_offset(pieces, i),
        piece_offset(pieces, i) + pieces[i].len() <= concat_all(pieces).len(),
        concat_all(pieces).subrange(
            piece_offset(pieces, i),
            piece_offset(pieces, i) + pieces[i].len(),
        ) == pieces[i],
    decreases pieces.len(),
{
    let n = pieces.len() as int;
    let front = pieces.drop_last();
    if i == n - 1 {
        let start = concat_all(front).len() as int;
        let end = start + pieces.last().len();
    } else {
        lemma_piece_position(front, i);
        assert(front.take(i) =~= pieces.take(i));
        let start = piece_offset(front, i);
        let end = start + pieces[i].len();
    }
}

/// Whether piece `i` stands before piece `j` in the text of `pieces`: piece
/// `i` stands whole at its offset, and it ends before piece `j` begins.
pub open spec fn stands_before(pieces: Seq<Seq<char>>, i: int, j: int) -> bool {
    &&& concat_all(pieces).subrange(
        piece_offset(pieces, i),
        piece_offset(pieces, i) + pieces[i].len(),
    ) == pieces[i]
    &&& piece_offset(pieces, i) + pieces[i].len() <= piece_offset(pieces, j)
}

/// The pieces stand in the text in their order: an earlier piece stands
/// before every later one.
pub proof fn lemma_pieces_in_order(pieces: Seq<Seq<char>>, i: int, j: int)
    requires
        0 <= i < j < pieces.len(),
    ensures
        stands_before(pieces, i, j),
{
    lemma_piece_position(pieces, i);
    lemma_piece_offsets_ordered(pieces, i, j);
}

/// The `items`, with `separator` between each two neighbours.
pub open spec fn join_text(items: Seq<Seq<char>>, separator: Seq<char>) -> Seq<char>
    decreases items.len(),
{
    if items.len() == 0 {
        Seq::empty()
    } else if items.len() == 1 {
        items[0]
    } else {
        join_text(items.drop_last(), separator) + separator + items.last()
    }
}

/// Joins `items` into one text, with `separator` between each two neighbours.
pub fn join(items: &Vec<String>, separator: &str) -> (joined: String)
    ensures
        joined@ == join_text(items.deep_view(), separator@),
{
    let mut joined = String::new();
    let mut i: usize = 0;
    while i < items.len()
        invariant
            i <= items.len(),
            joined@ == join_text(items.deep_view().take(i as int), separator@),
        decreases items.len() - i,
    {
        proof {
            let all = items.deep_view();
            assert(all.take(i + 1).drop_last() =~= all.take(i as int));
            if i == 0 {
            }
        }
        if i > 0 {
            joined.append(separator);
        }
        joined.append(items[i].as_str());
        i = i + 1;
    }
    proof {
        assert(items.deep_view().take(items.len() as int) =~= items.deep_view());
    }
    joined
}

/// Whether `c` stands for itself inside a string literal: a printable ASCII
/// character other than the double quote and the backslash.
pub open spec fn is_plain(c: char) -> bool {
    32 <= c as u32 <= 126 && c != '"' && c != '\\'
}

/// The hexadecimal digit of value `d`, in lower case.
pub open spec fn hex_digit(d: int) -> char {
    "0123456789abcdef"@[d]
}

/// `n` in hexadecimal, without leading zeros.
pub open spec fn hex_text(n: nat) -> Seq<char>
    decreases n,
{
    if n < 16 {
        seq![hex_digit(n as int)]
    } else {
        hex_text(n / 16).push(hex_digit((n % 16) as int))
    }
}

/// How one character is written inside a string literal. A plain character is
/// written as it is; the double quote, the backslash, the line feed, the
/// carriage return and the tab get their two-character escapes; every other
/// character is written as `\u{..}` with its code in hexadecimal.
pub open spec fn escaped_char(c: char) -> Seq<char> {
    if c == '"' {
        seq!['\\', '"']
    } else if c == '\\' {
        seq!['\\', '\\']
    } else if c == '\n' {
        seq!['\\', 'n']
    } else if c == '\r' {
        seq!['\\', 'r']
    } else if c == '\t' {
        seq!['\\', 't']
    } else if is_plain(c) {
        seq![c]
    } else {
        seq!['\\', 'u', '{'] + hex_text(c as u32 as nat) + seq!['}']
    }
}

/// What stands between the quotes of a string literal whose value is `value`.
pub open spec fn literal_body(value: Seq<char>) -> Seq<char>
    decreases value.len(),
{
    if value.len() == 0 {
        Seq::empty()
    } else {
        literal_body(value.drop_last()) + escaped_char(value.last())
    }
}

/// A string literal whose value is `value`, quotes included.
pub open spec fn string_literal_text(value: Seq<char>) -> Seq<char> {
    seq!['"'] + literal_body(value) + seq!['"']
}

/// The value of the hexadecimal digit `c`.
pub open spec fn hex_digit_value(c: char) -> Option<nat> {
    if 48 <= c as u32 <= 57 {
        Some((c as u32 - 48) as nat)
    } else if 97 <= c as u32 <= 102 {
        Some((c as u32 - 87) as nat)
    } else {
        None
    }
}

/// The number that `digits` write in hexadecimal.
pub open spec fn hex_number(digits: Seq<char>) -> Option<nat>
    decreases digits.len(),
{
    if digits.len() == 0 {
        None
    } else if digits.len() == 1 {
        hex_digit_value(digits[0])
    } else {
        match (hex_number(digits.drop_last()), hex_digit_value(digits.last())) {
            (Some(high), Some(low)) => Some(16 * high + low),
            _ => None,
        }
    }
}

/// Whether `code` is the code of a character.
pub open spec fn is_char_code(code: nat) -> bool {
    code <= 0xD7FF || 0xE000 <= code <= 0x10FFFF
}

/// The index of the first `}` of `text` from `from` on, or the length of
/// `text` where there is none.
pub open spec fn closing_brace(text: Seq<char>, from: int) -> int
    decreases text.len() - from,
{
    if from < 0 || from >= text.len() {
        text.len() as int
    } else if text[from] == '}' {
        from
    } else {
        closing_brace(text, from + 1)
    }
}

/// `first`, followed by the value of what comes after it.
pub open spec fn read_on(first: char, rest: Option<Seq<char>>) -> Option<Seq<char>> {
    match rest {
        Some(value) => Some(seq![first] + value),
        None => None,
    }
}

/// The value that is read out of what stands between the quotes of a string
/// literal: a character other than the double quote, the backslash and the
/// carriage return stands for itself; `\"`, `\\`, `\n`, `\r` and `\t` stand
/// for the double quote, the backslash, the line feed, the carriage return
/// and the tab; and `\u{..}`, with one to six hexadecimal digits in lower
/// case, stands for the character of that code. `None` where `body` is not
/// made of these.
pub open spec fn literal_value(body: Seq<char>) -> Option<Seq<char>>
    decreases body.len(),
{
    if body.len() == 0 {
        Some(Seq::empty())
    } else if body[0] == '"' || body[0] == '\r' {
        None
    } else if body[0] != '\\' {
        read_on(body[0], literal_value(body.skip(1)))
    } else if body.len() == 1 {
        None
    } else if body[1] == '"' {
        read_on('"', literal_value(body.skip(2)))
    } else if body[1] == '\\' {
        read_on('\\', literal_value(body.skip(2)))
    } else if body[1] == 'n' {
        read_on('\n', literal_value(body.skip(2)))
    } else if body[1] == 'r' {
        read_on('\r', literal_value(body.skip(2)))
    } else if body[1] == 't' {
        read_on('\t', literal_value(body.skip(2)))
    } else if body[1] == 'u' && body.len() >= 3 && body[2] == '{' {
        let close = closing_brace(body, 3);
        if close < body.len() && 1 <= close - 3 <= 6 {
            match hex_number(body.subrange(3, close)) {
                Some(code) => if is_char_code(code) {
                    read_on(code as char, literal_value(body.skip(close + 1)))
                } else {
                    None
                },
                None => None,
            }
        } else {
            None
        }
    } else {
        None
    }
}

/// A hexadecimal digit has its value, and is no closing brace.
proof fn lemma_hex_digit(d: int)
    requires
        0 <= d < 16,
    ensures
        hex_digit_value(hex_digit(d)) == Some(d as nat),
        hex_digit(d) != '}',
{
    reveal_strlit("0123456789abcdef");
}

/// `16` to the power of `digits`.
spec fn sixteen_to(digits: nat) -> nat
    decreases digits,
{
    if digits == 0 {
        1
    } else {
        16 * sixteen_to((digits - 1) as nat)
    }
}

/// The hexadecimal text of `n` writes `n`, in digits alone, and in no more
/// digits than `n` needs.
proof fn lemma_hex_text(n: nat, digits: nat)
    requires
        digits >= 1,
        n < sixteen_to(digits),
    ensures
        1 <= hex_text(n).len() <= digits,
        hex_number(hex_text(n)) == Some(n),
        forall|k: int| 0 <= k < hex_text(n).len() ==> hex_text(n)[k] != '}',
    decreases n,
{
    if n < 16 {
        lemma_hex_digit(n as int);
    } else {
        lemma_hex_digit((n % 16) as int);
        assert(n / 16 < sixteen_to((digits - 1) as nat));
        lemma_hex_text(n / 16, (digits - 1) as nat);
        assert(hex_text(n).drop_last() =~= hex_text(n / 16));
    }
}

/// Where no closing brace stands between `from` and `to`, and one stands at
/// `to`, the first closing brace from `from` on is the one at `to`.
proof fn lemma_closing_brace(text: Seq<char>, from: int, to: int)
    requires
        0 <= from <= to < text.len(),
        forall|k: int| from <= k < to ==> text[k] != '}',
        text[to] == '}',
    ensures
        closing_brace(text, from) == to,
    decreases to - from,
{
    if from < to {
        lemma_closing_brace(text, from + 1, to);
    }
}

/// What is written for one character reads back as that character, and the
/// reading goes on with what follows.
pub proof fn lemma_escaped_char_reads_back(c: char, rest: Seq<char>)
    ensures
        literal_value(escaped_char(c) + rest) == read_on(c, literal_value(rest)),
{
    let body = escaped_char(c) + rest;
    if c == '"' || c == '\\' || c == '\n' || c == '\r' || c == '\t' {
        assert(body.skip(2) =~= rest);
    } else if is_plain(c) {
        assert(body.skip(1) =~= rest);
    } else {
        let code = c as u32 as nat;
        let digits = hex_text(code);
        assert(sixteen_to(6) == 0x1000000) by {
            reveal_with_fuel(sixteen_to, 7);
        }
        lemma_hex_text(code, 6);
        let close: int = 3 + digits.len() as int;
        lemma_closing_brace(body, 3, close);
        assert(body.subrange(3, close) =~= digits);
        assert(body.skip(close + 1) =~= rest);
    }
}

/// The body of a string literal reads back as the value that it was written
/// for, and the reading goes on with what follows.
proof fn lemma_literal_body_reads_on(value: Seq<char>, rest: Seq<char>)
    ensures
        literal_value(literal_body(value) + rest) == match literal_value(rest) {
            Some(more) => Some(value + more),
            None => None,
        },
    decreases value.len(),
{
    if value.len() > 0 {
        let front = value.drop_last();
        let last = value.last();
        lemma_escaped_char_reads_back(last, rest);
        lemma_literal_body_reads_on(front, escaped_char(last) + rest);
        assert(literal_body(value) + rest =~= literal_body(front) + (escaped_char(last) + rest));
    }
}

/// The body of a string literal reads back as the value that it was written
/// for, whatever characters the value holds.
pub proof fn lemma_literal_body_reads_back(value: Seq<char>)
    ensures
        literal_value(literal_body(value)) == Some(value),
{
    lemma_literal_body_reads_on(value, Seq::empty());
}

/// A printable ASCII character as a text of its own.
fn printable_text(c: char) -> (text: &'static str)
    requires
        32 <= c as u32 <= 126,
    ensures
        text@ == seq![c],
{
    let table =
        " !\"#$%&'()*+,-./0123456789:;<=>?@ABCDEFGHIJKLMNOPQRSTUVWXYZ[\\]^_`abcdefghijklmnopqrstuvwxyz{|}~";
    proof {
        reveal_strlit(
            " !\"#$%&'()*+,-./0123456789:;<=>?@ABCDEFGHIJKLMNOPQRSTUVWXYZ[\\]^_`abcdefghijklmnopqrstuvwxyz{|}~",
        );
    }
    let at: usize = (c as u32 - 32) as usize;
    table.substring_ascii(at, at + 1)
}

/// The hexadecimal digit of value `d` as a text of its own.
fn hex_digit_text(d: u32) -> (text: &'static str)
    requires
        d < 16,
    ensures
        text@ == seq![hex_digit(d as int)],
{
    let table = "0123456789abcdef";
    proof {
        reveal_strlit("0123456789abcdef");
    }
    let at: usize = d as usize;
    table.substring_ascii(at, at + 1)
}

/// Appends `n` in hexadecimal to `out`.
fn append_hex(out: &mut String, n: u32)
    ensures
        final(out)@ == old(out)@ + hex_text(n as nat),
    decreases n,
{
    if n < 16 {
        out.append(hex_digit_text(n));
    } else {
        append_hex(out, n / 16);
        out.append(hex_digit_text(n % 16));
    }
}

/// Appends to `out` what stands for `c` inside a string literal.
fn append_escaped(out: &mut String, c: char)
    ensures
        final(out)@ == old(out)@ + escaped_char(c),
{
    let code: u32 = c as u32;
    if c == '"' {
        proof {
            reveal_strlit("\\\"");
        }
        out.append("\\\"");
    } else if c == '\\' {
        proof {
            reveal_strlit("\\\\");
        }
        out.append("\\\\");
    } else if c == '\n' {
        proof {
            reveal_strlit("\\n");
        }
        out.append("\\n");
    } else if c == '\r' {
        proof {
            reveal_strlit("\\r");
        }
        out.append("\\r");
    } else if c == '\t' {
        proof {
            reveal_strlit("\\t");
        }
        out.append("\\t");
    } else if 32 <= code && code <= 126 {
        out.append(printable_text(c));
    } else {
        proof {
            reveal_strlit("\\u{");
            reveal_strlit("}");
        }
        out.append("\\u{");
        append_hex(out, code);
        out.append("}");
    }
}

/// Writes a string literal whose value is `value`: what stands between its
/// quotes reads back as `value`.
pub fn string_literal(value: &str) -> (literal: String)
    ensures
        literal@ == string_literal_text(value@),
        literal_value(literal_body(value@)) == Some(value@),
{
    proof {
        reveal_strlit("\"");
        lemma_literal_body_reads_back(value@);
    }
    let mut literal = String::new();
    literal.append("\"");
    for c in it: value.chars()
        invariant
            it.seq() == value@,
            literal@ == seq!['"'] + literal_body(value@.take(it.index() as int)),
    {
        proof {
            assert(value@.take(it.index() + 1).drop_last() =~= value@.take(it.index() as int));
        }
        append_escaped(&mut literal, c);
    }
    proof {
        assert(value@.take(value@.len() as int) =~= value@);
    }
    literal.append("\"");
    literal
}

} // verus!
