use vstd::prelude::*;
use crate::char_utils::{
    alphabetic, arithmetic_char, is_arithmetic_operator, is_bracket, is_comparison_operator,
    is_logical_operator, is_operator, is_parenthesis, is_punctuation, boolean_word, comparison_char, digit, is_boolean_literal,
    is_digit, is_identifier_reserved, is_letter, is_postfix_operator, is_new_line, is_whitespace_or_new_line,
    logical_char, operator_char, reserved_word, same_text, whitespace_char,
};
use crate::fsm::{char_slice, lemma_walk_bounds, Transitions};
use crate::number_fsm::{number_accepting, number_step, number_walk, NumberFSM, INITIAL};
use crate::token::{
    Token, TokenView, BOOLEAN_LITERAL, DEPLOYMENT, EOF, IDENTIFIER, INTEGER_LITERAL, RUNE_LITERAL,
    STRING_LITERAL, UNKNOWN,
};

verus! {

/// A scan position: an index into the input and the line and column there.
pub struct Cursor {
    pub pos: nat,
    pub line: nat,
    pub column: nat,
}

/// The error that stops a scan: a character that begins no token, and where it stands.
pub struct LexErrorView {
    pub character: char,
    pub line: nat,
    pub column: nat,
}

/// The input with one trailing `'\n'` or `'\r'` removed, if it has one.
pub open spec fn strip_final_newline_spec(s: Seq<char>) -> Seq<char> {
    if s.len() > 0 && (s.last() == '\n' || s.last() == '\r') {
        s.drop_last()
    } else {
        s
    }
}

/// The cursor after `n` more characters on the same line.
pub open spec fn advance(c: Cursor, n: nat) -> Cursor {
    Cursor { pos: c.pos + n, line: c.line, column: c.column + n }
}

/// The cursor after the run of spaces, tabs and newlines that starts at `c`.
pub open spec fn skip_blank(s: Seq<char>, c: Cursor) -> Cursor
    decreases s.len() - c.pos,
{
    if c.pos < s.len() && whitespace_char(s[c.pos as int]) {
        if s[c.pos as int] == '\n' {
            skip_blank(s, Cursor { pos: c.pos + 1, line: c.line + 1, column: 1 })
        } else {
            skip_blank(s, advance(c, 1))
        }
    } else {
        c
    }
}

pub open spec fn word_char(c: char) -> bool {
    alphabetic(c) || digit(c) || c == '_'
}

/// The end of the run of letters, digits and underscores that starts at `i`.
pub open spec fn word_end(s: Seq<char>, i: nat) -> nat
    decreases s.len() - i,
{
    if i < s.len() && word_char(s[i as int]) {
        word_end(s, i + 1)
    } else {
        i
    }
}

/// The kind of a scanned word: keywords first, then boolean literals.
pub open spec fn word_kind(w: Seq<char>) -> Seq<char> {
    if reserved_word(w) {
        w
    } else if boolean_word(w) {
        BOOLEAN_LITERAL@
    } else {
        IDENTIFIER@
    }
}

/// The first index from `i` on that holds `'"'` or a newline, or the end of the input.
pub open spec fn string_end(s: Seq<char>, i: nat) -> nat
    decreases s.len() - i,
{
    if i < s.len() && s[i as int] != '"' && s[i as int] != '\n' {
        string_end(s, i + 1)
    } else {
        i
    }
}

/// How many characters the operator at `p` spans: two where the second
/// character completes a two-character operator, else one.
pub open spec fn operator_len(s: Seq<char>, p: nat) -> nat {
    let c = s[p as int];
    let two = p + 1 < s.len() && if comparison_char(c) {
        s[p + 1 as int] == '='
    } else {
        (c == '+' || c == '-' || c == '&' || c == '|') && s[p + 1 as int] == c
    };
    if two {
        2
    } else {
        1
    }
}

/// The character after `p`, or `'\0'` at the end of the input.
pub open spec fn lookahead(s: Seq<char>, p: nat) -> char {
    if p + 1 < s.len() {
        s[p + 1 as int]
    } else {
        '\0'
    }
}

pub open spec fn make_token(kind: Seq<char>, text: Seq<char>, c: Cursor) -> TokenView {
    TokenView { kind, text, line: c.line, column: c.column }
}

/// A token whose kind is its own spelling, `n` characters from `c`.
pub open spec fn symbol_token(s: Seq<char>, c: Cursor, n: nat) -> TokenView {
    make_token(s.subrange(c.pos as int, c.pos + n as int), s.subrange(c.pos as int, c.pos + n as int), c)
}

/// The operator path: the token that the operator at `c.pos` makes, and its length.
pub open spec fn operator_token(s: Seq<char>, c: Cursor) -> (TokenView, nat) {
    let n = operator_len(s, c.pos);
    if s[c.pos as int] == '|' && n == 1 {
        (make_token(UNKNOWN@, seq!['|', lookahead(s, c.pos)], c), 1)
    } else {
        (symbol_token(s, c, n), n)
    }
}

pub open spec fn eof_token(c: Cursor) -> TokenView {
    make_token(EOF@, Seq::empty(), c)
}

/// The token that starts at the non-blank position `c.pos` and how many
/// characters it spans, or `None` where no token can start.
pub open spec fn recognize(s: Seq<char>, c: Cursor) -> Option<(TokenView, nat)> {
    let p = c.pos as int;
    let ch = s[p];
    if alphabetic(ch) {
        let e = word_end(s, p as nat);
        let w = s.subrange(p as int, e as int);
        Some((make_token(word_kind(w), w, c), (e - p) as nat))
    } else if digit(ch) {
        let k = number_walk(s.subrange(p, s.len() as int)).0;
        if number_accepting(number_walk(s.subrange(p, s.len() as int)).1) {
            Some((make_token(INTEGER_LITERAL@, s.subrange(p, p + k), c), k))
        } else {
            Some((make_token(UNKNOWN@, Seq::empty(), c), k))
        }
    } else if ch == '"' {
        let q = string_end(s, (p + 1) as nat);
        if q < s.len() && s[q as int] == '"' {
            Some((make_token(STRING_LITERAL@, s.subrange(p + 1, q as int), c), (q + 1 - p) as nat))
        } else if q < s.len() {
            Some((make_token(UNKNOWN@, Seq::empty(), c), (q + 1 - p) as nat))
        } else {
            Some((make_token(UNKNOWN@, Seq::empty(), c), (q - p) as nat))
        }
    } else if ch == '\'' {
        if p + 2 < s.len() {
            if s[p + 2] == '\'' {
                Some((make_token(RUNE_LITERAL@, seq![s[p + 1]], c), 3))
            } else {
                Some((make_token(UNKNOWN@, s.subrange(p, p + 3), c), 3))
            }
        } else {
            Some((make_token(UNKNOWN@, s.subrange(p, s.len() as int), c), (s.len() - p) as nat))
        }
    } else if operator_char(ch) {
        Some(operator_token(s, c))
    } else if ch == '(' || ch == ')' || ch == ';' || ch == ',' || ch == '{' || ch == '}' {
        Some((symbol_token(s, c, 1), 1))
    } else {
        None
    }
}

/// One scan step from `c`: skip blanks, then give the end-of-input token
/// (cursor left after the blanks) or the next token and the cursor after it.
pub open spec fn next_token_spec(s: Seq<char>, c: Cursor) -> Result<(TokenView, Cursor), LexErrorView> {
    let b = skip_blank(s, c);
    if b.pos >= s.len() {
        Ok((eof_token(b), b))
    } else {
        match recognize(s, b) {
            Some((t, n)) => Ok((t, advance(b, n))),
            None => Err(LexErrorView { character: s[b.pos as int], line: b.line, column: b.column }),
        }
    }
}

/// `prefix` placed before the tokens of `r`, or the error of `r`.
pub open spec fn prepend(prefix: Seq<TokenView>, r: Result<Seq<TokenView>, LexErrorView>) -> Result<Seq<TokenView>, LexErrorView> {
    match r {
        Ok(ts) => Ok(prefix + ts),
        Err(e) => Err(e),
    }
}

/// All tokens from `c` on, up to and including the end-of-input token, or
/// the first fatal error.
pub open spec fn tokenize_from(s: Seq<char>, c: Cursor) -> Result<Seq<TokenView>, LexErrorView>
    decreases s.len() - c.pos,
    via tokenize_from_decreases
{
    match next_token_spec(s, c) {
        Err(e) => Err(e),
        Ok((t, n)) => if t.kind == EOF@ {
            Ok(seq![t])
        } else {
            prepend(seq![t], tokenize_from(s, n))
        },
    }
}

#[via_fn]
proof fn tokenize_from_decreases(s: Seq<char>, c: Cursor) {
    lemma_next_token_progress(s, c);
}

/// The tokens of a whole input: one trailing newline dropped, scanning from
/// line 1, column 1.
pub open spec fn tokenize(input: Seq<char>) -> Result<Seq<TokenView>, LexErrorView> {
    tokenize_from(strip_final_newline_spec(input), Cursor { pos: 0, line: 1, column: 1 })
}

proof fn lemma_skip_blank(s: Seq<char>, c: Cursor)
    ensures
        c.pos <= skip_blank(s, c).pos,
        c.pos <= s.len() ==> skip_blank(s, c).pos <= s.len(),
        skip_blank(s, c).pos < s.len() ==> !whitespace_char(s[skip_blank(s, c).pos as int]),
    decreases s.len() - c.pos,
{
    if c.pos < s.len() && whitespace_char(s[c.pos as int]) {
        if s[c.pos as int] == '\n' {
            lemma_skip_blank(s, Cursor { pos: c.pos + 1, line: c.line + 1, column: 1 });
        } else {
            lemma_skip_blank(s, advance(c, 1));
        }
    }
}

proof fn lemma_word_end(s: Seq<char>, i: nat)
    requires
        i <= s.len(),
    ensures
        i <= word_end(s, i) <= s.len(),
    decreases s.len() - i,
{
    if i < s.len() && word_char(s[i as int]) {
        lemma_word_end(s, i + 1);
    }
}

proof fn lemma_string_end(s: Seq<char>, i: nat)
    requires
        i <= s.len(),
    ensures
        i <= string_end(s, i) <= s.len(),
    decreases s.len() - i,
{
    if i < s.len() && s[i as int] != '"' && s[i as int] != '\n' {
        lemma_string_end(s, i + 1);
    }
}

/// A token that starts at `c` spans at least one character and stays inside the input.
proof fn lemma_recognize_progress(s: Seq<char>, c: Cursor)
    requires
        c.pos < s.len(),
    ensures
        recognize(s, c) matches Some((t, n)) ==> 1 <= n && c.pos + n <= s.len(),
{
    let p = c.pos;
    let ch = s[p as int];
    if alphabetic(ch) {
        lemma_word_end(s, p + 1);
        assert(word_char(ch));
    } else if digit(ch) {
        let rest = s.subrange(p as int, s.len() as int);
        assert(rest[0] == ch);
        assert(number_step(INITIAL, ch) != -1);
        lemma_walk_bounds(Transitions::Number, number_step(INITIAL, ch), rest, 1);
    } else if ch == '"' {
        lemma_string_end(s, p + 1);
    }
}

/// Each step that does not end the scan moves the cursor forward, within the input.
proof fn lemma_next_token_progress(s: Seq<char>, c: Cursor)
    ensures
        next_token_spec(s, c) matches Ok((t, n)) ==> (t.kind != EOF@ ==> c.pos < n.pos && n.pos <= s.len()),
{
    let b = skip_blank(s, c);
    lemma_skip_blank(s, c);
    if b.pos < s.len() {
        lemma_recognize_progress(s, b);
    }
}

/// A scan that does not stop on a fatal error ends with the end-of-input
/// token, and no other token it gives is one.
pub proof fn lemma_single_eof(input: Seq<char>)
    ensures
        tokenize(input) matches Ok(ts) ==> {
            &&& ts.len() > 0
            &&& ts.last().kind == EOF@
            &&& forall|i: int| 0 <= i < ts.len() - 1 ==> ts[i].kind != EOF@
        },
{
    lemma_single_eof_from(strip_final_newline_spec(input), Cursor { pos: 0, line: 1, column: 1 });
}

proof fn lemma_single_eof_from(s: Seq<char>, c: Cursor)
    ensures
        tokenize_from(s, c) matches Ok(ts) ==> {
            &&& ts.len() > 0
            &&& ts.last().kind == EOF@
            &&& forall|i: int| 0 <= i < ts.len() - 1 ==> ts[i].kind != EOF@
        },
    decreases s.len() - c.pos,
{
    lemma_next_token_progress(s, c);
    if let Ok((t, n)) = next_token_spec(s, c) {
        if t.kind != EOF@ {
            lemma_single_eof_from(s, n);
            if let Ok(rest) = tokenize_from(s, n) {
                let ts = seq![t] + rest;
                assert forall|i: int| 0 <= i < ts.len() - 1 implies ts[i].kind != EOF@ by {
                    if i > 0 {
                        assert(ts[i] == rest[i - 1]);
                    }
                }
                assert(ts.last() == rest.last());
            }
        }
    }
}

/// Maximal munch: where an operator's next character completes one of `==`,
/// `!=`, `<=`, `>=`, `&&`, `||`, `++`, `--`, the operator path gives that
/// two-character token, spelled and kinded as such.
pub proof fn lemma_maximal_munch(s: Seq<char>, c: Cursor)
    requires
        c.pos + 1 < s.len(),
        ({
            let a = s[c.pos as int];
            let b = s[c.pos + 1 as int];
            (comparison_char(a) && b == '=') || ((a == '&' || a == '|' || a == '+' || a == '-')
                && b == a)
        }),
    ensures
        operator_token(s, c).1 == 2,
        operator_token(s, c).0.kind == seq![s[c.pos as int], s[c.pos + 1 as int]],
        operator_token(s, c).0.text == seq![s[c.pos as int], s[c.pos + 1 as int]],
{
    assert(s.subrange(c.pos as int, c.pos + 2 as int) =~= seq![s[c.pos as int], s[c.pos + 1 as int]]);
}

/// Keyword precedence: each reserved word read on the identifier path gets
/// its own kind, never `identifier` and never `booleanLiteral`.
pub proof fn lemma_keyword_precedence(w: Seq<char>)
    requires
        reserved_word(w),
    ensures
        word_kind(w) == w,
        w != IDENTIFIER@,
        w != BOOLEAN_LITERAL@,
{
    reveal_strlit("identifier");
    reveal_strlit("booleanLiteral");
    reveal_strlit("integer");
    reveal_strlit("rune");
    reveal_strlit("string");
    reveal_strlit("boolean");
    reveal_strlit("user");
    reveal_strlit("repo");
    reveal_strlit("ciConfig");
    reveal_strlit("deployment");
    reveal_strlit("manifest");
    reveal_strlit("if");
    reveal_strlit("else");
    reveal_strlit("while");
    reveal_strlit("void");
    reveal_strlit("var");
    reveal_strlit("complex");
    reveal_strlit("return");
    reveal_strlit("command");
    reveal_strlit("func");
    assert(IDENTIFIER@ == "identifier"@);
    assert(DEPLOYMENT@ == "deployment"@);
    if w == DEPLOYMENT@ {
        assert(w[0] != IDENTIFIER@[0]);
    }
}

/// Scans source text into tokens. The cursor fields count characters; `line`
/// and `column` are 1-based.
#[derive(Debug)]
pub struct Lexer {
    pub input: String,
    pub position: usize,
    pub line: usize,
    pub column: usize,
}

/// A character that begins no token, and where it stands. It aborts the scan.
#[derive(Debug)]
pub struct LexError {
    pub character: char,
    pub line: usize,
    pub column: usize,
}

impl View for LexError {
    type V = LexErrorView;

    open spec fn view(&self) -> LexErrorView {
        LexErrorView { character: self.character, line: self.line as nat, column: self.column as nat }
    }
}

/// The value a scan result stands for.
pub open spec fn tokens_view(r: Result<Vec<Token>, LexError>) -> Result<Seq<TokenView>, LexErrorView> {
    match r {
        Ok(ts) => Ok(ts@.map_values(|t: Token| t@)),
        Err(e) => Err(e@),
    }
}

pub open spec fn token_step_view(r: Result<Token, LexError>, c: Cursor) -> Result<(TokenView, Cursor), LexErrorView> {
    match r {
        Ok(t) => Ok((t@, c)),
        Err(e) => Err(e@),
    }
}

/// Drops one trailing `'\n'` or `'\r'`.
pub fn strip_final_newline(s: String) -> (r: String)
    ensures
        r@ == strip_final_newline_spec(s@),
{
    let len = s.unicode_len();
    if len > 0 {
        let last = s.as_str().get_char(len - 1);
        if last == '\n' || last == '\r' {
            let r = String::from_str(char_slice(s.as_str(), 0, len - 1));
            assert(r@ == s@.drop_last());
            return r;
        }
    }
    s
}

/// The step from `before` to `after` read the token `t` that [`recognize`] gives.
pub open spec fn recognized(s: Seq<char>, before: Cursor, after: Cursor, t: TokenView) -> bool {
    &&& before.pos < after.pos
    &&& recognize(s, before) == Some((t, (after.pos - before.pos) as nat))
    &&& after == advance(before, (after.pos - before.pos) as nat)
}

impl Lexer {
    pub open spec fn cursor(&self) -> Cursor {
        Cursor { pos: self.position as nat, line: self.line as nat, column: self.column as nat }
    }

    /// The cursor lies within the input, and line and column cannot pass the
    /// number of characters read so far by more than one.
    pub open spec fn wf(&self) -> bool {
        &&& self.input@.len() < usize::MAX
        &&& self.position <= self.input@.len()
        &&& 1 <= self.line <= self.position + 1
        &&& 1 <= self.column <= self.position + 1
    }

    /// Scans the whole input: drops one trailing newline, restarts at line 1,
    /// column 1, and returns every token up to and including the end-of-input
    /// token, or the first character that begins no token.
    pub fn all_tokens(&mut self) -> (r: Result<Vec<Token>, LexError>)
        requires
            old(self).input@.len() < usize::MAX,
        ensures
            final(self).input@ == strip_final_newline_spec(old(self).input@),
            tokens_view(r) == tokenize(old(self).input@),
    {
        let ghost s0 = self.input@;
        self.input = strip_final_newline(self.input.clone());
        self.position = 0;
        self.column = 1;
        self.line = 1;
        let ghost s = self.input@;
        let ghost start = self.cursor();
        let mut tokens: Vec<Token> = Vec::new();
        assert(tokens@.map_values(|t: Token| t@) =~= Seq::<TokenView>::empty());
        loop
            invariant
                s0 == old(self).input@,
                start == (Cursor { pos: 0, line: 1, column: 1 }),
                s == strip_final_newline_spec(s0),
                self.wf(),
                self.input@ == s,
                tokenize_from(s, start) == prepend(
                    tokens@.map_values(|t: Token| t@),
                    tokenize_from(s, self.cursor()),
                ),
            decreases s.len() - self.position,
        {
            let ghost before = self.cursor();
            let ghost seen = tokens@.map_values(|t: Token| t@);
            match self.next_token() {
                Err(e) => {
                    return Err(e);
                },
                Ok(token) => {
                    let ghost tv = token@;
                    let at_end = same_text(token.token_type.as_str(), EOF);
                    tokens.push(token);
                    assert(tokens@.map_values(|t: Token| t@) =~= seen.push(tv));
                    assert(seen.push(tv) =~= seen + seq![tv]);
                    if at_end {
                        return Ok(tokens);
                    }
                    proof {
                        lemma_next_token_progress(s, before);
                        let rest = tokenize_from(s, self.cursor());
                        if rest is Ok {
                            assert(seen + (seq![tv] + rest->Ok_0) =~= (seen + seq![tv]) + rest->Ok_0);
                        }
                    }
                },
            }
        }
    }

    /// Reads the next token, after any blanks. At the end of the input it gives
    /// the end-of-input token and leaves the cursor there.
    fn next_token(&mut self) -> (r: Result<Token, LexError>)
        requires
            old(self).wf(),
        ensures
            final(self).wf(),
            final(self).input == old(self).input,
            token_step_view(r, final(self).cursor()) == next_token_spec(old(self).input@, old(self).cursor()),
    {
        let len = self.input.unicode_len();
        if self.position >= len {
            return Ok(Token {
                token_type: String::from_str(EOF),
                value: String::new(),
                line: self.line,
                column: self.column,
            });
        }
        self.skip_whitespaces_and_new_lines();
        if self.position >= len {
            return Ok(Token {
                token_type: String::from_str(EOF),
                value: String::new(),
                line: self.line,
                column: self.column,
            });
        }
        let character = self.input.as_str().get_char(self.position);
        if is_letter(character) {
            return Ok(self.recognize_identifier());
        }
        if is_digit(character) {
            return Ok(self.recognize_number());
        }
        if character == '"' {
            return Ok(self.recognize_string());
        }
        if character == '\'' {
            return Ok(self.recognize_rune());
        }
        let single = char_slice(self.input.as_str(), self.position, self.position + 1);
        assert(single@ == seq![character]);
        if is_operator(single) {
            return Ok(self.recognize_operator());
        }
        if is_parenthesis(character) {
            return Ok(self.recognize_parenthesis());
        }
        if is_punctuation(character) {
            return Ok(self.recognize_punctuation());
        }
        if is_bracket(character) {
            return Ok(self.recognize_bracket());
        }
        Err(LexError { character, line: self.line, column: self.column })
    }

    fn skip_whitespaces_and_new_lines(&mut self)
        requires
            old(self).wf(),
        ensures
            final(self).wf(),
            final(self).input == old(self).input,
            final(self).cursor() == skip_blank(old(self).input@, old(self).cursor()),
    {
        let len = self.input.unicode_len();
        while self.position < len && is_whitespace_or_new_line(self.input.as_str().get_char(self.position))
            invariant
                len == self.input@.len(),
                self.wf(),
                self.input == old(self).input,
                skip_blank(self.input@, self.cursor()) == skip_blank(old(self).input@, old(self).cursor()),
            decreases len - self.position,
        {
            if is_new_line(self.input.as_str().get_char(self.position)) {
                self.line = self.line + 1;
                self.column = 1;
            } else {
                self.column = self.column + 1;
            }
            self.position = self.position + 1;
        }
    }

    /// Builds a token at the cursor and moves the cursor `n` characters on.
    fn emit(&mut self, kind: String, value: String, n: usize) -> (r: Token)
        requires
            old(self).wf(),
            1 <= n,
            old(self).position + n <= old(self).input@.len(),
        ensures
            final(self).wf(),
            final(self).input == old(self).input,
            final(self).cursor() == advance(old(self).cursor(), n as nat),
            r@ == make_token(kind@, value@, old(self).cursor()),
    {
        let r = Token { token_type: kind, value, line: self.line, column: self.column };
        self.position = self.position + n;
        self.column = self.column + n;
        r
    }

    /// A token whose kind is its own spelling, the next `n` characters.
    fn emit_symbol(&mut self, n: usize) -> (r: Token)
        requires
            old(self).wf(),
            1 <= n,
            old(self).position + n <= old(self).input@.len(),
        ensures
            final(self).wf(),
            final(self).input == old(self).input,
            final(self).cursor() == advance(old(self).cursor(), n as nat),
            r@ == symbol_token(old(self).input@, old(self).cursor(), n as nat),
    {
        let text = char_slice(self.input.as_str(), self.position, self.position + n);
        let kind = String::from_str(text);
        let value = String::from_str(text);
        self.emit(kind, value, n)
    }

    fn recognize_identifier(&mut self) -> (r: Token)
        requires
            old(self).wf(),
            old(self).position < old(self).input@.len(),
            alphabetic(old(self).input@[old(self).position as int]),
        ensures
            final(self).wf(),
            final(self).input == old(self).input,
            recognized(old(self).input@, old(self).cursor(), final(self).cursor(), r@),
    {
        let ghost s = self.input@;
        let len = self.input.unicode_len();
        let start = self.position;
        let mut position = start + 1;
        while position < len
            invariant_except_break
                word_end(s, start as nat) == word_end(s, position as nat),
            invariant
                s == self.input@,
                len == s.len(),
                start < position <= len,
            ensures
                word_end(s, start as nat) == position,
            decreases len - position,
        {
            let character = self.input.as_str().get_char(position);
            if !(is_letter(character) || is_digit(character) || character == '_') {
                break;
            }
            position = position + 1;
        }
        let text = char_slice(self.input.as_str(), start, position);
        let value = String::from_str(text);
        let kind = if is_identifier_reserved(text) {
            String::from_str(text)
        } else if is_boolean_literal(text) {
            String::from_str(BOOLEAN_LITERAL)
        } else {
            String::from_str(IDENTIFIER)
        };
        self.emit(kind, value, position - start)
    }

    fn recognize_number(&mut self) -> (r: Token)
        requires
            old(self).wf(),
            old(self).position < old(self).input@.len(),
            !alphabetic(old(self).input@[old(self).position as int]),
            digit(old(self).input@[old(self).position as int]),
        ensures
            final(self).wf(),
            final(self).input == old(self).input,
            recognized(old(self).input@, old(self).cursor(), final(self).cursor(), r@),
    {
        let ghost s = self.input@;
        let len = self.input.unicode_len();
        let fsm = NumberFSM::new();
        let rest = char_slice(self.input.as_str(), self.position, len);
        let run_result = fsm.run(rest);
        proof {
            lemma_recognize_progress(s, self.cursor());
            lemma_walk_bounds(Transitions::Number, INITIAL, rest@, 0);
        }
        let consumed = run_result.value.unicode_len();
        assert(run_result.value@ =~= s.subrange(self.position as int, self.position + consumed));
        if run_result.recognized {
            self.emit(String::from_str(INTEGER_LITERAL), run_result.value, consumed)
        } else {
            self.emit(String::from_str(UNKNOWN), String::new(), consumed)
        }
    }

    fn recognize_string(&mut self) -> (r: Token)
        requires
            old(self).wf(),
            old(self).position < old(self).input@.len(),
            !alphabetic(old(self).input@[old(self).position as int]),
            old(self).input@[old(self).position as int] == '"',
        ensures
            final(self).wf(),
            final(self).input == old(self).input,
            recognized(old(self).input@, old(self).cursor(), final(self).cursor(), r@),
    {
        let ghost s = self.input@;
        let len = self.input.unicode_len();
        let start = self.position;
        let mut position = start + 1;
        while position < len
            invariant_except_break
                string_end(s, (start + 1) as nat) == string_end(s, position as nat),
            invariant
                s == self.input@,
                len == s.len(),
                start < position <= len,
            ensures
                string_end(s, (start + 1) as nat) == position,
            decreases len - position,
        {
            let character = self.input.as_str().get_char(position);
            if character == '"' || is_new_line(character) {
                break;
            }
            position = position + 1;
        }
        if position < len && self.input.as_str().get_char(position) == '"' {
            let value = String::from_str(char_slice(self.input.as_str(), start + 1, position));
            self.emit(String::from_str(STRING_LITERAL), value, position + 1 - start)
        } else if position < len {
            self.emit(String::from_str(UNKNOWN), String::new(), position + 1 - start)
        } else {
            self.emit(String::from_str(UNKNOWN), String::new(), position - start)
        }
    }

    /// A rune is exactly three characters: a quote, the character, a quote.
    /// Fewer than three characters left make an unknown token of what is left.
    fn recognize_rune(&mut self) -> (r: Token)
        requires
            old(self).wf(),
            old(self).position < old(self).input@.len(),
            !alphabetic(old(self).input@[old(self).position as int]),
            old(self).input@[old(self).position as int] == '\'',
        ensures
            final(self).wf(),
            final(self).input == old(self).input,
            recognized(old(self).input@, old(self).cursor(), final(self).cursor(), r@),
    {
        let len = self.input.unicode_len();
        let start = self.position;
        if start + 2 < len {
            let char_after_quote = self.input.as_str().get_char(start + 1);
            let char_that_must_be_quote = self.input.as_str().get_char(start + 2);
            if char_that_must_be_quote == '\'' {
                let value = String::from_str(char_slice(self.input.as_str(), start + 1, start + 2));
                assert(value@ == seq![char_after_quote]);
                self.emit(String::from_str(RUNE_LITERAL), value, 3)
            } else {
                let value = String::from_str(char_slice(self.input.as_str(), start, start + 3));
                self.emit(String::from_str(UNKNOWN), value, 3)
            }
        } else {
            let value = String::from_str(char_slice(self.input.as_str(), start, len));
            self.emit(String::from_str(UNKNOWN), value, len - start)
        }
    }

    fn recognize_operator(&mut self) -> (r: Token)
        requires
            old(self).wf(),
            old(self).position < old(self).input@.len(),
            !alphabetic(old(self).input@[old(self).position as int]),
            operator_char(old(self).input@[old(self).position as int]),
        ensures
            final(self).wf(),
            final(self).input == old(self).input,
            recognized(old(self).input@, old(self).cursor(), final(self).cursor(), r@),
    {
        let character = self.input.as_str().get_char(self.position);
        if is_comparison_operator(character) {
            self.recognize_comparison_operator()
        } else if is_arithmetic_operator(character) {
            self.recognize_arithmetic_operator()
        } else {
            self.recognize_logical_operator()
        }
    }

    /// `=`, `!`, `<` or `>`, followed by `=` or not.
    fn recognize_comparison_operator(&mut self) -> (r: Token)
        requires
            old(self).wf(),
            old(self).position < old(self).input@.len(),
            !alphabetic(old(self).input@[old(self).position as int]),
            comparison_char(old(self).input@[old(self).position as int]),
        ensures
            final(self).wf(),
            final(self).input == old(self).input,
            recognized(old(self).input@, old(self).cursor(), final(self).cursor(), r@),
    {
        let len = self.input.unicode_len();
        let position = self.position;
        let is_lookahead_equal_symbol = position + 1 < len && self.input.as_str().get_char(position + 1) == '=';
        if is_lookahead_equal_symbol {
            self.emit_symbol(2)
        } else {
            self.emit_symbol(1)
        }
    }

    /// `+` and `-`, doubled or not; `*`, `/` and `.` alone.
    fn recognize_arithmetic_operator(&mut self) -> (r: Token)
        requires
            old(self).wf(),
            old(self).position < old(self).input@.len(),
            !alphabetic(old(self).input@[old(self).position as int]),
            arithmetic_char(old(self).input@[old(self).position as int]),
        ensures
            final(self).wf(),
            final(self).input == old(self).input,
            recognized(old(self).input@, old(self).cursor(), final(self).cursor(), r@),
    {
        let len = self.input.unicode_len();
        let position = self.position;
        let character = self.input.as_str().get_char(position);
        let doubled = is_postfix_operator(character) && position + 1 < len
            && self.input.as_str().get_char(position + 1) == character;
        if doubled {
            self.emit_symbol(2)
        } else {
            self.emit_symbol(1)
        }
    }

    /// `&&`, `||` and `&`; a `|` alone is unknown, spelled with the character after it.
    fn recognize_logical_operator(&mut self) -> (r: Token)
        requires
            old(self).wf(),
            old(self).position < old(self).input@.len(),
            !alphabetic(old(self).input@[old(self).position as int]),
            logical_char(old(self).input@[old(self).position as int]),
        ensures
            final(self).wf(),
            final(self).input == old(self).input,
            recognized(old(self).input@, old(self).cursor(), final(self).cursor(), r@),
    {
        let len = self.input.unicode_len();
        let position = self.position;
        let character = self.input.as_str().get_char(position);
        let doubled = position + 1 < len && self.input.as_str().get_char(position + 1) == character;
        if doubled {
            self.emit_symbol(2)
        } else if character == '&' {
            self.emit_symbol(1)
        } else {
            let value = if position + 1 < len {
                String::from_str(char_slice(self.input.as_str(), position, position + 2))
            } else {
                proof {
                    reveal_strlit("|\0");
                }
                String::from_str("|\0")
            };
            assert(value@ == seq!['|', lookahead(self.input@, position as nat)]);
            self.emit(String::from_str(UNKNOWN), value, 1)
        }
    }

    fn recognize_parenthesis(&mut self) -> (r: Token)
        requires
            old(self).wf(),
            old(self).position < old(self).input@.len(),
            !alphabetic(old(self).input@[old(self).position as int]),
            old(self).input@[old(self).position as int] == '(' || old(self).input@[old(self).position as int] == ')',
        ensures
            final(self).wf(),
            final(self).input == old(self).input,
            recognized(old(self).input@, old(self).cursor(), final(self).cursor(), r@),
    {
        self.emit_symbol(1)
    }

    fn recognize_punctuation(&mut self) -> (r: Token)
        requires
            old(self).wf(),
            old(self).position < old(self).input@.len(),
            !alphabetic(old(self).input@[old(self).position as int]),
            old(self).input@[old(self).position as int] == ';' || old(self).input@[old(self).position as int] == ',',
        ensures
            final(self).wf(),
            final(self).input == old(self).input,
            recognized(old(self).input@, old(self).cursor(), final(self).cursor(), r@),
    {
        self.emit_symbol(1)
    }

    fn recognize_bracket(&mut self) -> (r: Token)
        requires
            old(self).wf(),
            old(self).position < old(self).input@.len(),
            !alphabetic(old(self).input@[old(self).position as int]),
            old(self).input@[old(self).position as int] == '{' || old(self).input@[old(self).position as int] == '}',
        ensures
            final(self).wf(),
            final(self).input == old(self).input,
            recognized(old(self).input@, old(self).cursor(), final(self).cursor(), r@),
    {
        self.emit_symbol(1)
    }
}

} // verus!
