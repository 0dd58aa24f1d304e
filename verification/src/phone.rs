//! The dash-splicing rule for phone cells.

use vstd::prelude::*;
use vstd::string::*;
use vstd::utf8::*;
use crate::text::{contains_text, has_substring};

verus! {

/// Byte offset at which the first dash is inserted.
pub const FIRST_CUT: usize = 3;

/// Byte offset at which the second dash is inserted.
pub const SECOND_CUT: usize = 7;

/// A cell that holds a dash, or the header word for the phone column, is
/// taken as it is.
pub open spec fn is_kept(raw: Seq<char>) -> bool {
    has_substring(raw, "-"@) || has_substring(raw, "전화번호"@)
}

/// The encoded cell can be cut after its third and after its seventh byte
/// without tearing a character apart.
pub open spec fn can_splice(raw: Seq<char>) -> bool {
    let bytes = encode_utf8(raw);
    is_char_boundary(bytes, FIRST_CUT as int) && is_char_boundary(bytes, SECOND_CUT as int)
}

/// The cell with a dash after its third and after its seventh byte.
pub open spec fn spliced(raw: Seq<char>) -> Seq<char> {
    let bytes = encode_utf8(raw);
    decode_utf8(bytes.subrange(0, FIRST_CUT as int)) + seq!['-'] + decode_utf8(
        bytes.subrange(FIRST_CUT as int, SECOND_CUT as int),
    ) + seq!['-'] + decode_utf8(bytes.subrange(SECOND_CUT as int, bytes.len() as int))
}

/// What a phone cell becomes: itself where it is kept, the spliced form
/// where it can be cut, and nothing otherwise.
pub open spec fn formatted(raw: Seq<char>) -> Option<Seq<char>> {
    if is_kept(raw) {
        Some(raw)
    } else if can_splice(raw) {
        Some(spliced(raw))
    } else {
        None
    }
}

proof fn lemma_boundary_in_prefix(bytes: Seq<u8>, cut: int, end: int)
    requires
        valid_utf8(bytes),
        0 <= cut <= end <= bytes.len(),
        is_char_boundary(bytes, cut),
        is_char_boundary(bytes, end),
    ensures
        valid_utf8(bytes.subrange(0, end)),
        is_char_boundary(bytes.subrange(0, end), cut),
{
    let head = bytes.subrange(0, end);
    valid_utf8_split(bytes, end);
    if cut == end {
        is_char_boundary_start_end_of_seq(head);
    } else {
        is_char_boundary_iff_not_is_continuation_byte(bytes, cut);
        is_char_boundary_iff_not_is_continuation_byte(head, cut);
    }
}

proof fn lemma_ascii_piece(raw: Seq<char>, from: int, to: int)
    requires
        is_ascii_chars(raw),
        0 <= from <= to <= raw.len(),
    ensures
        encode_utf8(raw).len() == raw.len(),
        decode_utf8(encode_utf8(raw).subrange(from, to)) == raw.subrange(from, to),
{
    let piece = raw.subrange(from, to);
    assert(is_ascii_chars(piece));
    is_ascii_chars_encode_utf8(raw);
    is_ascii_chars_encode_utf8(piece);
    assert(encode_utf8(piece) =~= encode_utf8(raw).subrange(from, to)) by {
        assert forall|i: int| 0 <= i < piece.len() implies encode_utf8(piece)[i] == encode_utf8(
            raw,
        ).subrange(from, to)[i] by {
            assert(piece[i] == raw[from + i]);
        }
    }
    encode_utf8_decode_utf8(piece);
}

proof fn lemma_ascii_boundary(raw: Seq<char>, cut: int)
    requires
        is_ascii_chars(raw),
        0 <= cut <= raw.len(),
    ensures
        is_char_boundary(encode_utf8(raw), cut),
{
    let bytes = encode_utf8(raw);
    encode_utf8_valid_utf8(raw);
    is_ascii_chars_encode_utf8(raw);
    if cut == bytes.len() {
        is_char_boundary_start_end_of_seq(bytes);
    } else {
        let b = bytes[cut];
        assert(b == raw[cut] as u8);
        assert(b < 128);
        is_char_boundary_iff_not_is_continuation_byte(bytes, cut);
    }
}

/// Text of seven or more characters, all of them ASCII, is cut after its
/// third and after its seventh character.
pub proof fn lemma_ascii_is_cut_by_characters(raw: Seq<char>)
    requires
        is_ascii_chars(raw),
        raw.len() >= SECOND_CUT,
    ensures
        can_splice(raw),
        spliced(raw) == raw.subrange(0, FIRST_CUT as int) + seq!['-'] + raw.subrange(
            FIRST_CUT as int,
            SECOND_CUT as int,
        ) + seq!['-'] + raw.subrange(SECOND_CUT as int, raw.len() as int),
{
    lemma_ascii_boundary(raw, FIRST_CUT as int);
    lemma_ascii_boundary(raw, SECOND_CUT as int);
    lemma_ascii_piece(raw, 0, FIRST_CUT as int);
    lemma_ascii_piece(raw, FIRST_CUT as int, SECOND_CUT as int);
    lemma_ascii_piece(raw, SECOND_CUT as int, raw.len() as int);
}

/// Text shorter than seven bytes cannot be cut.
pub proof fn lemma_short_is_not_cut(raw: Seq<char>)
    requires
        encode_utf8(raw).len() < SECOND_CUT,
    ensures
        !can_splice(raw),
{
    encode_utf8_valid_utf8(raw);
    reveal_with_fuel(is_char_boundary, 1);
}

/// A cell that holds a dash is its own formatted form.
pub proof fn lemma_dashed_is_unchanged(raw: Seq<char>)
    requires
        raw.contains('-'),
    ensures
        formatted(raw) == Some(raw),
{
    let i = choose|i: int| 0 <= i < raw.len() && raw[i] == '-';
    reveal_strlit("-");
    assert(raw.subrange(i, i + 1) =~= "-"@);
    assert(crate::text::occurs_at(raw, "-"@, i));
}

/// Formatting what formatting gave changes nothing more: the result holds a
/// dash, or is the cell itself.
pub proof fn lemma_formatted_is_stable(raw: Seq<char>)
    requires
        formatted(raw).is_some(),
    ensures
        formatted(formatted(raw).unwrap()) == formatted(raw),
{
    if !is_kept(raw) {
        let out = spliced(raw);
        let area = decode_utf8(encode_utf8(raw).subrange(0, FIRST_CUT as int));
        assert(out[area.len() as int] == '-');
        assert(out.contains('-'));
        lemma_dashed_is_unchanged(out);
    }
}

/// Splices a phone cell: `0101234567` becomes `010-1234-567`. A cell that
/// already holds a dash or the header word comes back unchanged; one that
/// cannot be cut at both offsets gives `None`.
pub fn format_phone(raw: &str) -> (out: Option<String>)
    ensures
        out.is_some() == formatted(raw@).is_some(),
        out matches Some(s) ==> formatted(raw@) == Some(s@),
        raw@.contains('-') ==> out.is_some() && out.unwrap()@ == raw@,
{
    proof {
        if raw@.contains('-') {
            lemma_dashed_is_unchanged(raw@);
        }
    }
    if contains_text(raw, "-") || contains_text(raw, "전화번호") {
        return Some(String::from_str(raw));
    }
    if !(raw.is_char_boundary(FIRST_CUT) && raw.is_char_boundary(SECOND_CUT)) {
        return None;
    }
    let ghost bytes = encode_utf8(raw@);
    proof {
        encode_utf8_valid_utf8(raw@);
        assert(bytes.len() >= SECOND_CUT) by {
            reveal_with_fuel(is_char_boundary, 1);
        }
        lemma_boundary_in_prefix(bytes, FIRST_CUT as int, SECOND_CUT as int);
    }
    let (head, tail) = raw.split_at(SECOND_CUT);
    let (area, middle) = head.split_at(FIRST_CUT);
    let mut out = String::from_str(area);
    out.append("-");
    out.append(middle);
    out.append("-");
    out.append(tail);
    proof {
        reveal_strlit("-");
        encode_utf8_decode_utf8(area@);
        encode_utf8_decode_utf8(middle@);
        encode_utf8_decode_utf8(tail@);
        assert(head.spec_bytes().subrange(0, FIRST_CUT as int) =~= bytes.subrange(
            0,
            FIRST_CUT as int,
        ));
        assert(head.spec_bytes().subrange(FIRST_CUT as int, head.spec_bytes().len() as int)
            =~= bytes.subrange(FIRST_CUT as int, SECOND_CUT as int));
        assert("-"@ =~= seq!['-']);
        assert(out@ =~= spliced(raw@));
    }
    Some(out)
}

} // verus!
