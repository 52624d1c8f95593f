use crate::token::{Token, TokenView};
use vstd::prelude::*;
use vstd::slice::{slice_subrange, slice_to_vec};
use vstd::string::StrSliceExecFns;
use vstd::utf8::encode_utf8;

verus! {

/// Space, tab, newline or carriage return.
pub open spec fn is_blank(c: u8) -> bool {
    c == (' ' as u8) || c == ('\t' as u8) || c == ('\n' as u8) || c == ('\r' as u8)
}

/// An ASCII letter or an underscore.
pub open spec fn is_letter(c: u8) -> bool {
    (('a' as u8) <= c && c <= ('z' as u8)) || (('A' as u8) <= c && c <= ('Z' as u8)) || c == ('_' as u8)
}

/// An ASCII decimal digit.
pub open spec fn is_digit(c: u8) -> bool {
    ('0' as u8) <= c && c <= ('9' as u8)
}

/// The characters of a run of ASCII bytes, one per byte.
pub open spec fn ascii_text(w: Seq<u8>) -> Seq<char> {
    Seq::new(w.len(), |k: int| w[k] as char)
}

/// The first index at or after `i` that holds no blank, or the end of `s`.
pub open spec fn skip_blanks(s: Seq<u8>, i: nat) -> nat
    decreases s.len() - i,
{
    if i < s.len() && is_blank(s[i as int]) {
        skip_blanks(s, i + 1)
    } else {
        i
    }
}

/// The end of the maximal run of letters that starts at `i`.
pub open spec fn letters_end(s: Seq<u8>, i: nat) -> nat
    decreases s.len() - i,
{
    if i < s.len() && is_letter(s[i as int]) {
        letters_end(s, i + 1)
    } else {
        i
    }
}

/// The end of the maximal run of digits that starts at `i`.
pub open spec fn digits_end(s: Seq<u8>, i: nat) -> nat
    decreases s.len() - i,
{
    if i < s.len() && is_digit(s[i as int]) {
        digits_end(s, i + 1)
    } else {
        i
    }
}

/// One step of the cursor: forward by one byte, but never past the end.
pub open spec fn advance(s: Seq<u8>, i: nat) -> nat {
    if i < s.len() {
        i + 1
    } else {
        i
    }
}

/// The token that a one-byte symbol stands for.
pub open spec fn symbol(c: u8) -> Option<TokenView> {
    if c == ('=' as u8) {
        Some(TokenView::Assign)
    } else if c == (';' as u8) {
        Some(TokenView::Semicolon)
    } else if c == ('(' as u8) {
        Some(TokenView::Lparen)
    } else if c == (')' as u8) {
        Some(TokenView::Rparen)
    } else if c == ('{' as u8) {
        Some(TokenView::Lbrace)
    } else if c == ('}' as u8) {
        Some(TokenView::Rbrace)
    } else if c == (',' as u8) {
        Some(TokenView::Comma)
    } else if c == ('+' as u8) {
        Some(TokenView::Plus)
    } else {
        None
    }
}

/// The keyword that a word spells, if any: `fn`, `let`, `if`, `false`,
/// `true`, `return` or `else`.
pub open spec fn keyword(w: Seq<u8>) -> Option<TokenView> {
    let t = ascii_text(w);
    if t == seq!['f', 'n'] {
        Some(TokenView::Function)
    } else if t == seq!['l', 'e', 't'] {
        Some(TokenView::Let)
    } else if t == seq!['i', 'f'] {
        Some(TokenView::If)
    } else if t == seq!['f', 'a', 'l', 's', 'e'] {
        Some(TokenView::False)
    } else if t == seq!['t', 'r', 'u', 'e'] {
        Some(TokenView::True)
    } else if t == seq!['r', 'e', 't', 'u', 'r', 'n'] {
        Some(TokenView::Return)
    } else if t == seq!['e', 'l', 's', 'e'] {
        Some(TokenView::Else)
    } else {
        None
    }
}

/// The token for a word: its keyword, or an identifier holding the word.
pub open spec fn word_token(w: Seq<u8>) -> TokenView {
    match keyword(w) {
        Some(k) => k,
        None => TokenView::Ident(ascii_text(w)),
    }
}

/// One scan from cursor `p` over `s`: the token produced and the cursor after it.
///
/// Blanks are skipped first. A symbol is one byte. A word or a number is a
/// maximal run, and the cursor stops right after it, on the byte that begins
/// the next token. At the end of the input the token is `Eof` and the cursor
/// stays where it is; any other byte (a NUL byte among them) gives `Invalid`
/// and is stepped over.
pub open spec fn scan(s: Seq<u8>, p: nat) -> (TokenView, nat) {
    let q = skip_blanks(s, p);
    if q >= s.len() {
        (TokenView::Eof, q)
    } else {
        let c = s[q as int];
        if symbol(c) is Some {
            (symbol(c)->0, q + 1)
        } else if is_letter(c) {
            let e = letters_end(s, q);
            (word_token(s.subrange(q as int, e as int)), e)
        } else if is_digit(c) {
            let e = digits_end(s, q);
            (TokenView::Int(ascii_text(s.subrange(q as int, e as int))), e)
        } else {
            (TokenView::Invalid, q + 1)
        }
    }
}

/// The first `n` tokens that successive scans produce from cursor `p`.
pub open spec fn tokens_from(s: Seq<u8>, p: nat, n: nat) -> Seq<TokenView>
    decreases n,
{
    if n == 0 {
        Seq::empty()
    } else {
        let (t, next) = scan(s, p);
        seq![t] + tokens_from(s, next, (n - 1) as nat)
    }
}

/// Relies on `String::from_utf8_lossy`: ASCII bytes are valid UTF-8, which it
/// decodes unchanged, one character per byte.
#[verifier::external_body]
fn ascii_string(bytes: &[u8]) -> (r: String)
    requires
        forall|k: int| 0 <= k < bytes@.len() ==> bytes@[k] < 128,
    ensures
        r@ == ascii_text(bytes@),
{
    String::from_utf8_lossy(bytes).into_owned()
}

fn is_blank_byte(c: u8) -> (r: bool)
    ensures
        r == is_blank(c),
{
    c == (' ' as u8) || c == ('\t' as u8) || c == ('\n' as u8) || c == ('\r' as u8)
}

fn is_letter_byte(c: u8) -> (r: bool)
    ensures
        r == is_letter(c),
{
    (('a' as u8) <= c && c <= ('z' as u8)) || (('A' as u8) <= c && c <= ('Z' as u8)) || c == ('_'
        as u8)
}

fn is_digit_byte(c: u8) -> (r: bool)
    ensures
        r == is_digit(c),
{
    ('0' as u8) <= c && c <= ('9' as u8)
}

/// The token of a one-byte symbol, if `c` is one.
fn symbol_token(c: u8) -> (r: Option<Token>)
    ensures
        r is Some <==> symbol(c) is Some,
        r is Some ==> symbol(c) == Some(r->0@),
{
    if c == ('=' as u8) {
        Some(Token::Assign)
    } else if c == (';' as u8) {
        Some(Token::Semicolon)
    } else if c == ('(' as u8) {
        Some(Token::Lparen)
    } else if c == (')' as u8) {
        Some(Token::Rparen)
    } else if c == ('{' as u8) {
        Some(Token::Lbrace)
    } else if c == ('}' as u8) {
        Some(Token::Rbrace)
    } else if c == (',' as u8) {
        Some(Token::Comma)
    } else if c == ('+' as u8) {
        Some(Token::Plus)
    } else {
        None
    }
}

/// Whether the bytes of `word` spell the characters of `kw`.
fn spells(word: &[u8], kw: &str) -> (r: bool)
    requires
        kw.is_ascii(),
    ensures
        r == (ascii_text(word@) == kw@),
{
    let n = kw.unicode_len();
    if word.len() != n {
        assert(ascii_text(word@).len() != kw@.len());
        return false;
    }
    let mut i: usize = 0;
    while i < n
        invariant
            n == kw@.len(),
            word@.len() == n,
            kw.is_ascii(),
            i <= n,
            forall|k: int| 0 <= k < i ==> (word@[k] as char) == kw@[k],
        decreases n - i,
    {
        if word[i] != kw.get_ascii(i) {
            assert(ascii_text(word@)[i as int] != kw@[i as int]);
            return false;
        }
        i = i + 1;
    }
    assert(ascii_text(word@) =~= kw@);
    true
}

/// The keyword token that `word` spells, if any.
fn lookup_keyword(word: &[u8]) -> (r: Option<Token>)
    ensures
        r is Some <==> keyword(word@) is Some,
        r is Some ==> keyword(word@) == Some(r->0@),
{
    proof {
        reveal_strlit("fn");
        assert("fn"@ =~= seq!['f', 'n']);
        reveal_strlit("let");
        assert("let"@ =~= seq!['l', 'e', 't']);
        reveal_strlit("if");
        assert("if"@ =~= seq!['i', 'f']);
        reveal_strlit("false");
        assert("false"@ =~= seq!['f', 'a', 'l', 's', 'e']);
        reveal_strlit("true");
        assert("true"@ =~= seq!['t', 'r', 'u', 'e']);
        reveal_strlit("return");
        assert("return"@ =~= seq!['r', 'e', 't', 'u', 'r', 'n']);
        reveal_strlit("else");
        assert("else"@ =~= seq!['e', 'l', 's', 'e']);
    }
    if spells(word, "fn") {
        Some(Token::Function)
    } else if spells(word, "let") {
        Some(Token::Let)
    } else if spells(word, "if") {
        Some(Token::If)
    } else if spells(word, "false") {
        Some(Token::False)
    } else if spells(word, "true") {
        Some(Token::True)
    } else if spells(word, "return") {
        Some(Token::Return)
    } else if spells(word, "else") {
        Some(Token::Else)
    } else {
        None
    }
}

/// A scanner over one source text, held as UTF-8 bytes, with a cursor that
/// only moves forward and never passes the end.
///
/// Each call of `next_token` gives one token; callers stop at `Eof` or
/// `Invalid`. Identifiers hold letters and underscores only: `x1` gives
/// `Ident("x")` and then `Int("1")`.
#[derive(Debug)]
pub struct Lexer {
    input: Vec<u8>,
    position: usize,
}

impl Lexer {
    /// The bytes being scanned.
    pub closed spec fn source(&self) -> Seq<u8> {
        self.input@
    }

    /// The index of the current byte; the length of the source once it is
    /// used up.
    pub closed spec fn cursor(&self) -> nat {
        self.position as nat
    }

    #[verifier::type_invariant]
    spec fn well_formed(&self) -> bool {
        self.position <= self.input@.len()
    }

    /// A scanner at the start of `input`. Any text is accepted, the empty
    /// one too.
    pub fn new(input: String) -> (r: Self)
        ensures
            r.source() == encode_utf8(input@),
            r.cursor() == 0,
    {
        let bytes = slice_to_vec(input.as_str().as_bytes());
        Lexer { input: bytes, position: 0 }
    }

    /// The byte under the cursor, or `None` at the end of the input.
    fn current(&self) -> (r: Option<u8>)
        ensures
            r == (if self.cursor() < self.source().len() {
                Some(self.source()[self.cursor() as int])
            } else {
                None
            }),
    {
        if self.position < self.input.len() {
            Some(self.input[self.position])
        } else {
            None
        }
    }

    /// Moves the cursor one byte forward, unless it is at the end.
    fn read_char(&mut self)
        ensures
            final(self).source() == old(self).source(),
            final(self).cursor() == advance(old(self).source(), old(self).cursor()),
    {
        proof {
            use_type_invariant(&*self);
        }
        if self.position < self.input.len() {
            self.position = self.position + 1;
        }
    }

    /// Skips blanks: the cursor moves to the first byte that is not one, or
    /// to the end.
    fn skip_whitespace(&mut self)
        ensures
            final(self).source() == old(self).source(),
            final(self).cursor() == skip_blanks(old(self).source(), old(self).cursor()),
    {
        proof {
            use_type_invariant(&*self);
        }
        while self.position < self.input.len() && is_blank_byte(self.input[self.position])
            invariant
                self.source() == old(self).source(),
                self.position <= self.input@.len(),
                skip_blanks(self.source(), self.cursor()) == skip_blanks(
                    old(self).source(),
                    old(self).cursor(),
                ),
            decreases self.input@.len() - self.position,
        {
            self.read_char();
        }
    }

    /// Reads the maximal run of letters under the cursor and gives its
    /// keyword, or an identifier that holds the run. The cursor stops at the
    /// first byte after the run.
    fn read_ident(&mut self) -> (t: Token)
        requires
            old(self).cursor() < old(self).source().len(),
            is_letter(old(self).source()[old(self).cursor() as int]),
        ensures
            final(self).source() == old(self).source(),
            final(self).cursor() == letters_end(old(self).source(), old(self).cursor()),
            t@ == word_token(
                old(self).source().subrange(
                    old(self).cursor() as int,
                    letters_end(old(self).source(), old(self).cursor()) as int,
                ),
            ),
    {
        proof {
            use_type_invariant(&*self);
        }
        let start = self.position;
        while self.position < self.input.len() && is_letter_byte(self.input[self.position])
            invariant
                self.source() == old(self).source(),
                start == old(self).cursor(),
                start <= self.position <= self.input@.len(),
                letters_end(self.source(), self.cursor()) == letters_end(
                    self.source(),
                    start as nat,
                ),
                forall|k: int| start <= k < self.position ==> is_letter(self.input@[k]),
            decreases self.input@.len() - self.position,
        {
            self.read_char();
        }
        let word = slice_subrange(self.input.as_slice(), start, self.position);
        match lookup_keyword(word) {
            Some(k) => k,
            None => Token::Ident(ascii_string(word)),
        }
    }

    /// Reads the maximal run of digits under the cursor and gives it as
    /// text. The cursor stops at the first byte after the run.
    fn read_int(&mut self) -> (digits: String)
        requires
            old(self).cursor() < old(self).source().len(),
            is_digit(old(self).source()[old(self).cursor() as int]),
        ensures
            final(self).source() == old(self).source(),
            final(self).cursor() == digits_end(old(self).source(), old(self).cursor()),
            digits@ == ascii_text(
                old(self).source().subrange(
                    old(self).cursor() as int,
                    digits_end(old(self).source(), old(self).cursor()) as int,
                ),
            ),
    {
        proof {
            use_type_invariant(&*self);
        }
        let start = self.position;
        while self.position < self.input.len() && is_digit_byte(self.input[self.position])
            invariant
                self.source() == old(self).source(),
                start == old(self).cursor(),
                start <= self.position <= self.input@.len(),
                digits_end(self.source(), self.cursor()) == digits_end(
                    self.source(),
                    start as nat,
                ),
                forall|k: int| start <= k < self.position ==> is_digit(self.input@[k]),
            decreases self.input@.len() - self.position,
        {
            self.read_char();
        }
        let run = slice_subrange(self.input.as_slice(), start, self.position);
        ascii_string(run)
    }

    /// Produces the next token and moves the cursor past it.
    ///
    /// Blanks are skipped first; then a symbol, a word or a number is read
    /// (see `scan`). A word or a number leaves the cursor on the byte that
    /// ended its run. At the end of the input this gives `Eof`, and keeps
    /// giving it on every later call.
    pub fn next_token(&mut self) -> (token: Token)
        ensures
            final(self).source() == old(self).source(),
            (token@, final(self).cursor()) == scan(old(self).source(), old(self).cursor()),
    {
        self.skip_whitespace();
        match self.current() {
            None => Token::Eof,
            Some(c) => {
                if is_letter_byte(c) {
                    self.read_ident()
                } else if is_digit_byte(c) {
                    Token::Int(self.read_int())
                } else {
                    let token = match symbol_token(c) {
                        Some(t) => t,
                        None => Token::Invalid,
                    };
                    self.read_char();
                    token
                }
            },
        }
    }
}

} // verus!
