use crate::lexer::{
    ascii_text, digits_end, is_blank, is_digit, is_letter, keyword, letters_end, scan,
    skip_blanks, tokens_from,
};
use crate::token::TokenView;
use vstd::prelude::*;
use vstd::utf8::encode_utf8;

verus! {

/// Skipping blanks from `i` ends at `j` when every byte in between is blank
/// and the byte at `j` is not (or `j` is the end).
proof fn lemma_skip_blanks_to(s: Seq<u8>, i: nat, j: nat)
    requires
        i <= j <= s.len(),
        forall|k: int| i <= k < j ==> is_blank(s[k]),
        j == s.len() || !is_blank(s[j as int]),
    ensures
        skip_blanks(s, i) == j,
    decreases j - i,
{
    if i < j {
        lemma_skip_blanks_to(s, i + 1, j);
    }
}

/// A run of letters from `i` ends at `j` when every byte in between is a
/// letter and the byte at `j` is not (or `j` is the end).
proof fn lemma_letters_end_at(s: Seq<u8>, i: nat, j: nat)
    requires
        i <= j <= s.len(),
        forall|k: int| i <= k < j ==> is_letter(s[k]),
        j == s.len() || !is_letter(s[j as int]),
    ensures
        letters_end(s, i) == j,
    decreases j - i,
{
    if i < j {
        lemma_letters_end_at(s, i + 1, j);
    }
}

/// A run of digits from `i` ends at `j` when every byte in between is a
/// digit and the byte at `j` is not (or `j` is the end).
proof fn lemma_digits_end_at(s: Seq<u8>, i: nat, j: nat)
    requires
        i <= j <= s.len(),
        forall|k: int| i <= k < j ==> is_digit(s[k]),
        j == s.len() || !is_digit(s[j as int]),
    ensures
        digits_end(s, i) == j,
    decreases j - i,
{
    if i < j {
        lemma_digits_end_at(s, i + 1, j);
    }
}

/// Skipping blanks never moves the cursor back, nor past the end when it
/// started inside the input.
proof fn lemma_skip_blanks_bounds(s: Seq<u8>, i: nat)
    ensures
        i <= skip_blanks(s, i),
        i <= s.len() ==> skip_blanks(s, i) <= s.len(),
    decreases s.len() - i,
{
    if i < s.len() && is_blank(s[i as int]) {
        lemma_skip_blanks_bounds(s, i + 1);
    }
}

/// A run of letters or digits ends after it starts and within the input.
proof fn lemma_run_bounds(s: Seq<u8>, i: nat)
    requires
        i <= s.len(),
    ensures
        i <= letters_end(s, i) <= s.len(),
        i <= digits_end(s, i) <= s.len(),
    decreases s.len() - i,
{
    if i < s.len() {
        lemma_run_bounds(s, i + 1);
    }
}

/// On an input made only of blanks, the first scan gives `Eof`.
pub proof fn lemma_blank_input_gives_eof(s: Seq<u8>)
    requires
        forall|k: int| 0 <= k < s.len() ==> is_blank(s[k]),
    ensures
        scan(s, 0).0 == TokenView::Eof,
{
    lemma_skip_blanks_to(s, 0, s.len());
}

/// When a scan starts, after blanks, on a maximal run of letters that spells
/// no keyword, it gives an identifier holding exactly that run.
pub proof fn lemma_word_is_identifier(s: Seq<u8>, p: nat, start: nat, end: nat)
    requires
        p <= start < end <= s.len(),
        forall|k: int| p <= k < start ==> is_blank(s[k]),
        forall|k: int| start <= k < end ==> is_letter(s[k]),
        end == s.len() || !is_letter(s[end as int]),
        keyword(s.subrange(start as int, end as int)) is None,
    ensures
        scan(s, p).0 == TokenView::Ident(ascii_text(s.subrange(start as int, end as int))),
        scan(s, p).1 == end,
{
    lemma_skip_blanks_to(s, p, start);
    lemma_letters_end_at(s, start, end);
}

/// When a scan starts, after blanks, on a maximal run of digits, it gives an
/// integer holding exactly that run, leading zeros included.
pub proof fn lemma_digits_are_int(s: Seq<u8>, p: nat, start: nat, end: nat)
    requires
        p <= start < end <= s.len(),
        forall|k: int| p <= k < start ==> is_blank(s[k]),
        forall|k: int| start <= k < end ==> is_digit(s[k]),
        end == s.len() || !is_digit(s[end as int]),
    ensures
        scan(s, p).0 == TokenView::Int(ascii_text(s.subrange(start as int, end as int))),
        scan(s, p).1 == end,
{
    lemma_skip_blanks_to(s, p, start);
    lemma_digits_end_at(s, start, end);
}

/// Once a scan gives `Eof`, scanning again gives `Eof` again and leaves the
/// cursor where it is.
pub proof fn lemma_eof_repeats(s: Seq<u8>, p: nat)
    requires
        scan(s, p).0 == TokenView::Eof,
    ensures
        scan(s, scan(s, p).1) == scan(s, p),
{
    lemma_skip_blanks_bounds(s, p);
}

/// A scan that does not give `Eof` moves the cursor strictly forward and
/// keeps it within the input, so that scanning again after `Invalid`, or
/// after any other token, always reaches `Eof` in the end.
pub proof fn lemma_scan_progresses(s: Seq<u8>, p: nat)
    requires
        p <= s.len(),
        scan(s, p).0 != TokenView::Eof,
    ensures
        p < scan(s, p).1 <= s.len(),
{
    lemma_skip_blanks_bounds(s, p);
    let q = skip_blanks(s, p);
    if q < s.len() {
        // A run that starts on a letter or a digit holds at least that byte.
        lemma_run_bounds(s, q + 1);
    }
}

/// Two scanners made from the same text produce the same tokens, however
/// many are drawn.
pub proof fn lemma_same_text_same_tokens(a: Seq<char>, b: Seq<char>, n: nat)
    requires
        a == b,
    ensures
        tokens_from(encode_utf8(a), 0, n) == tokens_from(encode_utf8(b), 0, n),
{
}

} // verus!
