use vstd::prelude::*;

verus! {

/// The operators of the language: arithmetic, assignment and comparisons.
#[derive(Debug, PartialEq, Eq, Clone, Copy, Structural)]
pub enum Operator {
    Plus,
    Minus,
    Multiply,
    Divide,
    Equal,
    LessThan,
    LessThanEqual,
    GreaterThan,
    GreaterThanEqual,
    Equality,
}

/// One kind of lexical unit. Number literals are runs of ASCII decimal
/// digits and are kept as their digit text: the grammar has no fractional
/// syntax, so the language is integer-literal-only.
#[derive(Debug, PartialEq, Eq, Clone)]
pub enum TokenType {
    Operator(Operator),
    StringLiteral(String),
    Print,
    Let,
    If,
    Elif,
    Else,
    While,
    SemiColon,
    Number(String),
    Identifier(String),
    LeftParen,
    RightParen,
    LeftCurly,
    RightCurly,
}

/// A token: a classified lexical unit with the 1-based source line it started on.
#[derive(Debug, PartialEq, Eq, Clone)]
pub struct Token {
    pub token: TokenType,
    pub line_no: usize,
}

impl Token {
    fn new(token: TokenType, line_no: usize) -> (t: Token)
        ensures
            t.token == token,
            t.line_no == line_no,
    {
        Token { token, line_no }
    }
}

/// A non-fatal lexical diagnostic: one character that no token rule accepts,
/// reported and skipped.
#[derive(Debug, PartialEq, Eq, Clone, Copy)]
pub struct LexWarning {
    pub ch: char,
    pub line_no: usize,
}

/// Mathematical model of a token kind; strings are sequences of characters.
pub ghost enum TokenTypeV {
    Operator(Operator),
    StringLiteral(Seq<char>),
    Print,
    Let,
    If,
    Elif,
    Else,
    While,
    SemiColon,
    Number(Seq<char>),
    Identifier(Seq<char>),
    LeftParen,
    RightParen,
    LeftCurly,
    RightCurly,
}

/// Mathematical model of a token.
pub ghost struct TokenV {
    pub token: TokenTypeV,
    pub line_no: nat,
}

/// Mathematical model of a lexical warning.
pub ghost struct LexWarnV {
    pub ch: char,
    pub line_no: nat,
}

impl View for TokenType {
    type V = TokenTypeV;

    open spec fn view(&self) -> TokenTypeV {
        match self {
            TokenType::Operator(op) => TokenTypeV::Operator(*op),
            TokenType::StringLiteral(s) => TokenTypeV::StringLiteral(s@),
            TokenType::Print => TokenTypeV::Print,
            TokenType::Let => TokenTypeV::Let,
            TokenType::If => TokenTypeV::If,
            TokenType::Elif => TokenTypeV::Elif,
            TokenType::Else => TokenTypeV::Else,
            TokenType::While => TokenTypeV::While,
            TokenType::SemiColon => TokenTypeV::SemiColon,
            TokenType::Number(s) => TokenTypeV::Number(s@),
            TokenType::Identifier(s) => TokenTypeV::Identifier(s@),
            TokenType::LeftParen => TokenTypeV::LeftParen,
            TokenType::RightParen => TokenTypeV::RightParen,
            TokenType::LeftCurly => TokenTypeV::LeftCurly,
            TokenType::RightCurly => TokenTypeV::RightCurly,
        }
    }
}

impl View for Token {
    type V = TokenV;

    open spec fn view(&self) -> TokenV {
        TokenV { token: self.token@, line_no: self.line_no as nat }
    }
}

impl View for LexWarning {
    type V = LexWarnV;

    open spec fn view(&self) -> LexWarnV {
        LexWarnV { ch: self.ch, line_no: self.line_no as nat }
    }
}

/// The models of a sequence of tokens.
pub open spec fn toks_view(s: Seq<Token>) -> Seq<TokenV> {
    Seq::new(s.len(), |i: int| s[i]@)
}

/// The models of a sequence of lexical warnings.
pub open spec fn lex_warns_view(s: Seq<LexWarning>) -> Seq<LexWarnV> {
    Seq::new(s.len(), |i: int| s[i]@)
}

/// Relies on std's `String::push`: appends the given character to the
/// end of the string.
pub assume_specification[ String::push ](s: &mut String, ch: char)
    ensures
        final(s)@ == old(s)@.push(ch),
;

/// The set of characters that std's `char::is_alphanumeric` accepts
/// (Unicode letters, marks and numbers); left uninterpreted because the
/// exact set is given by the Unicode tables.
pub uninterp spec fn is_alphanum(c: char) -> bool;

/// Relies on std's `char::is_alphanumeric`: a pure classification of the
/// one character, the same on every call.
pub assume_specification[ char::is_alphanumeric ](c: char) -> (r: bool)
    ensures
        r == is_alphanum(c),
;

/// True of the ASCII decimal digits, the only characters the number rule accepts.
pub open spec fn is_digit_char(c: char) -> bool {
    '0' <= c && c <= '9'
}

/// True of the characters that may continue an identifier or keyword run.
pub open spec fn is_word_char(c: char) -> bool {
    is_alphanum(c) || c == '_'
}

/// Clamps `x` into the interval `[lo, hi]`; used on recursion positions so
/// the lexing and parsing measures are decreasing by construction. Wherever
/// it is applied, the clamped value is in the interval already.
pub open spec fn clamp_pos(x: int, lo: int, hi: int) -> int {
    if x < lo {
        lo
    } else if x > hi {
        hi
    } else {
        x
    }
}

/// The position right after the run of decimal digits that starts at `j`.
pub open spec fn digit_run_end(cs: Seq<char>, j: int) -> int
    decreases cs.len() - j,
{
    if 0 <= j < cs.len() && is_digit_char(cs[j]) {
        digit_run_end(cs, j + 1)
    } else {
        j
    }
}

/// The position right after the run of identifier characters that starts at `j`.
pub open spec fn word_run_end(cs: Seq<char>, j: int) -> int
    decreases cs.len() - j,
{
    if 0 <= j < cs.len() && is_word_char(cs[j]) {
        word_run_end(cs, j + 1)
    } else {
        j
    }
}

/// The position right after the line comment whose text starts at `j`: one
/// past the next newline, or the end of the input.
pub open spec fn line_comment_end(cs: Seq<char>, j: int) -> int
    decreases cs.len() - j,
{
    if 0 <= j < cs.len() {
        if cs[j] == '\n' {
            j + 1
        } else {
            line_comment_end(cs, j + 1)
        }
    } else {
        j
    }
}

/// The number of newline characters of `cs` in the range `[lo, hi)`; every
/// one of them advances the line counter, wherever it stands.
pub open spec fn newline_count(cs: Seq<char>, lo: int, hi: int) -> nat
    decreases hi - lo,
{
    if 0 <= lo < hi && hi <= cs.len() {
        (if cs[lo] == '\n' {
            1nat
        } else {
            0nat
        }) + newline_count(cs, lo + 1, hi)
    } else {
        0
    }
}

/// Scans the inside of a string literal from position `j`. `pending` says
/// whether the previous character was a backslash not yet written out.
/// Inside the literal, `\"` yields a quote and `\\` a backslash; a backslash
/// before any other character is copied through together with that character.
/// Yields the literal's text and the position after the closing quote, or
/// `None` when the input ends first (the unterminated case).
pub open spec fn scan_string(cs: Seq<char>, j: int, pending: bool) -> Option<(Seq<char>, int)>
    decreases cs.len() - j,
{
    if !(0 <= j < cs.len()) {
        None
    } else {
        let c = cs[j];
        if c == '"' {
            if pending {
                match scan_string(cs, j + 1, false) {
                    None => None,
                    Some((s, e)) => Some((seq!['"'] + s, e)),
                }
            } else {
                Some((Seq::empty(), j + 1))
            }
        } else if c == '\\' {
            if pending {
                match scan_string(cs, j + 1, false) {
                    None => None,
                    Some((s, e)) => Some((seq!['\\'] + s, e)),
                }
            } else {
                scan_string(cs, j + 1, true)
            }
        } else {
            if pending {
                match scan_string(cs, j + 1, false) {
                    None => None,
                    Some((s, e)) => Some((seq!['\\', c] + s, e)),
                }
            } else {
                match scan_string(cs, j + 1, false) {
                    None => None,
                    Some((s, e)) => Some((seq![c] + s, e)),
                }
            }
        }
    }
}

/// The token that a word run forms: one of the six keywords, or an identifier.
pub open spec fn keyword_token(w: Seq<char>) -> TokenTypeV {
    if w == "print"@ {
        TokenTypeV::Print
    } else if w == "let"@ {
        TokenTypeV::Let
    } else if w == "if"@ {
        TokenTypeV::If
    } else if w == "elif"@ {
        TokenTypeV::Elif
    } else if w == "while"@ {
        TokenTypeV::While
    } else if w == "else"@ {
        TokenTypeV::Else
    } else {
        TokenTypeV::Identifier(w)
    }
}

/// Prepends already-produced tokens and warnings to the outcome of lexing
/// the rest of the input; an unterminated string makes the whole run fail.
pub open spec fn lex_combine(
    ts0: Seq<TokenV>,
    ws0: Seq<LexWarnV>,
    rest: Option<(Seq<TokenV>, Seq<LexWarnV>)>,
) -> Option<(Seq<TokenV>, Seq<LexWarnV>)> {
    match rest {
        None => None,
        Some((ts, ws)) => Some((ts0 + ts, ws0 + ws)),
    }
}

/// The tokens and warnings that lexing yields from position `i` on, with the
/// line counter at `line`; `None` when a string literal is left unterminated.
///
/// Whitespace is discarded and every newline advances the line counter,
/// including the one that ends a `//` line comment and any inside a string
/// literal. A `/` not followed by another `/` is the division operator.
/// `>=`, `<=` and `==` are matched greedily before `>`, `<` and `=`. A digit
/// run forms a number, a quote opens a string literal (its token carries the
/// line its opening quote stands on), and an alphanumeric character opens a
/// keyword or identifier run. Any other character is reported as a warning
/// and skipped.
pub open spec fn lex_from(cs: Seq<char>, i: int, line: nat) -> Option<(Seq<TokenV>, Seq<LexWarnV>)>
    decreases cs.len() - i,
{
    if !(0 <= i < cs.len()) {
        Some((Seq::empty(), Seq::empty()))
    } else {
        let c = cs[i];
        let tok1 = |tt: TokenTypeV| lex_combine(
            seq![TokenV { token: tt, line_no: line }],
            Seq::empty(),
            lex_from(cs, i + 1, line),
        );
        if c == '\n' {
            lex_from(cs, i + 1, line + 1)
        } else if c == ' ' || c == '\t' {
            lex_from(cs, i + 1, line)
        } else if c == '+' {
            tok1(TokenTypeV::Operator(Operator::Plus))
        } else if c == '-' {
            tok1(TokenTypeV::Operator(Operator::Minus))
        } else if c == '(' {
            tok1(TokenTypeV::LeftParen)
        } else if c == ')' {
            tok1(TokenTypeV::RightParen)
        } else if c == '{' {
            tok1(TokenTypeV::LeftCurly)
        } else if c == '}' {
            tok1(TokenTypeV::RightCurly)
        } else if c == '*' {
            tok1(TokenTypeV::Operator(Operator::Multiply))
        } else if c == ';' {
            tok1(TokenTypeV::SemiColon)
        } else if c == '/' {
            if i + 1 < cs.len() && cs[i + 1] == '/' {
                let e = clamp_pos(line_comment_end(cs, i + 2), i + 1, cs.len() as int);
                lex_from(cs, e, line + newline_count(cs, i + 2, e))
            } else {
                tok1(TokenTypeV::Operator(Operator::Divide))
            }
        } else if c == '>' {
            if i + 1 < cs.len() && cs[i + 1] == '=' {
                lex_combine(
                    seq![TokenV { token: TokenTypeV::Operator(Operator::GreaterThanEqual), line_no: line }],
                    Seq::empty(),
                    lex_from(cs, i + 2, line),
                )
            } else {
                tok1(TokenTypeV::Operator(Operator::GreaterThan))
            }
        } else if c == '<' {
            if i + 1 < cs.len() && cs[i + 1] == '=' {
                lex_combine(
                    seq![TokenV { token: TokenTypeV::Operator(Operator::LessThanEqual), line_no: line }],
                    Seq::empty(),
                    lex_from(cs, i + 2, line),
                )
            } else {
                tok1(TokenTypeV::Operator(Operator::LessThan))
            }
        } else if c == '=' {
            if i + 1 < cs.len() && cs[i + 1] == '=' {
                lex_combine(
                    seq![TokenV { token: TokenTypeV::Operator(Operator::Equality), line_no: line }],
                    Seq::empty(),
                    lex_from(cs, i + 2, line),
                )
            } else {
                tok1(TokenTypeV::Operator(Operator::Equal))
            }
        } else if is_digit_char(c) {
            let e = clamp_pos(digit_run_end(cs, i + 1), i + 1, cs.len() as int);
            lex_combine(
                seq![TokenV { token: TokenTypeV::Number(cs.subrange(i, e)), line_no: line }],
                Seq::empty(),
                lex_from(cs, e, line),
            )
        } else if c == '"' {
            match scan_string(cs, i + 1, false) {
                None => None,
                Some((s, e0)) => {
                    let e = clamp_pos(e0, i + 1, cs.len() as int);
                    lex_combine(
                        seq![TokenV { token: TokenTypeV::StringLiteral(s), line_no: line }],
                        Seq::empty(),
                        lex_from(cs, e, line + newline_count(cs, i + 1, e)),
                    )
                },
            }
        } else if is_alphanum(c) {
            let e = clamp_pos(word_run_end(cs, i + 1), i + 1, cs.len() as int);
            lex_combine(
                seq![TokenV { token: keyword_token(cs.subrange(i, e)), line_no: line }],
                Seq::empty(),
                lex_from(cs, e, line),
            )
        } else {
            lex_combine(
                Seq::empty(),
                seq![LexWarnV { ch: c, line_no: line }],
                lex_from(cs, i + 1, line),
            )
        }
    }
}

/// The whole-input lexing function: tokenization starts at the first
/// character on line 1.
pub open spec fn lex_spec(cs: Seq<char>) -> Option<(Seq<TokenV>, Seq<LexWarnV>)> {
    lex_from(cs, 0, 1)
}

/// Producing a token and going on lexes the same as lexing from before the token.
proof fn lemma_inv_token(
    cs: Seq<char>,
    ts: Seq<Token>,
    ws: Seq<LexWarning>,
    i: int,
    line: nat,
    t: Token,
    i2: int,
    line2: nat,
)
    requires
        lex_from(cs, i, line) == lex_combine(seq![t@], Seq::empty(), lex_from(cs, i2, line2)),
    ensures
        lex_combine(toks_view(ts), lex_warns_view(ws), lex_from(cs, i, line)) == lex_combine(
            toks_view(ts.push(t)),
            lex_warns_view(ws),
            lex_from(cs, i2, line2),
        ),
{
    if let Some((rts, rws)) = lex_from(cs, i2, line2) {
        assert(toks_view(ts) + (seq![t@] + rts) =~= toks_view(ts.push(t)) + rts);
        assert(lex_warns_view(ws) + (Seq::<LexWarnV>::empty() + rws) =~= lex_warns_view(ws) + rws);
    }
}

/// Producing a warning and going on lexes the same as lexing from before it.
proof fn lemma_inv_warn(
    cs: Seq<char>,
    ts: Seq<Token>,
    ws: Seq<LexWarning>,
    i: int,
    line: nat,
    w: LexWarning,
    i2: int,
    line2: nat,
)
    requires
        lex_from(cs, i, line) == lex_combine(Seq::empty(), seq![w@], lex_from(cs, i2, line2)),
    ensures
        lex_combine(toks_view(ts), lex_warns_view(ws), lex_from(cs, i, line)) == lex_combine(
            toks_view(ts),
            lex_warns_view(ws.push(w)),
            lex_from(cs, i2, line2),
        ),
{
    if let Some((rts, rws)) = lex_from(cs, i2, line2) {
        assert(toks_view(ts) + (Seq::<TokenV>::empty() + rts) =~= toks_view(ts) + rts);
        assert(lex_warns_view(ws) + (seq![w@] + rws) =~= lex_warns_view(ws.push(w)) + rws);
    }
}

fn digit_check(c: char) -> (r: bool)
    ensures
        r == is_digit_char(c),
{
    '0' <= c && c <= '9'
}

/// True exactly when the string equals the given literal text.
fn str_eq_lit(s: &String, lit: &str) -> (r: bool)
    ensures
        r == (s@ == lit@),
{
    let o = String::from_str(lit);
    s.eq(&o)
}

/// The position right after the run of decimal digits that starts at `start`.
fn digit_run_end_exec(cs: &Vec<char>, start: usize) -> (e: usize)
    requires
        start <= cs@.len(),
    ensures
        e == digit_run_end(cs@, start as int),
        start <= e <= cs@.len(),
{
    let n = cs.len();
    let mut e = start;
    while e < n && '0' <= cs[e] && cs[e] <= '9'
        invariant
            start <= e <= n == cs@.len(),
            digit_run_end(cs@, start as int) == digit_run_end(cs@, e as int),
        decreases n - e,
    {
        e = e + 1;
    }
    e
}

/// The position right after the run of identifier characters that starts at `start`.
fn word_run_end_exec(cs: &Vec<char>, start: usize) -> (e: usize)
    requires
        start <= cs@.len(),
    ensures
        e == word_run_end(cs@, start as int),
        start <= e <= cs@.len(),
{
    let n = cs.len();
    let mut e = start;
    while e < n && (cs[e].is_alphanumeric() || cs[e] == '_')
        invariant
            start <= e <= n == cs@.len(),
            word_run_end(cs@, start as int) == word_run_end(cs@, e as int),
        decreases n - e,
    {
        e = e + 1;
    }
    e
}

/// The position right after the line comment whose text starts at `start`.
fn line_comment_end_exec(cs: &Vec<char>, start: usize) -> (e: usize)
    requires
        start <= cs@.len(),
    ensures
        e == line_comment_end(cs@, start as int),
        start <= e <= cs@.len(),
{
    let n = cs.len();
    let mut j = start;
    while j < n && cs[j] != '\n'
        invariant
            start <= j <= n == cs@.len(),
            line_comment_end(cs@, start as int) == line_comment_end(cs@, j as int),
        decreases n - j,
    {
        j = j + 1;
    }
    if j < n {
        j + 1
    } else {
        j
    }
}

/// The number of newline characters of `cs` in the range `[lo, hi)`.
fn count_newlines(cs: &Vec<char>, lo: usize, hi: usize) -> (r: usize)
    requires
        lo <= hi <= cs@.len(),
    ensures
        r == newline_count(cs@, lo as int, hi as int),
        r <= hi - lo,
{
    let mut r: usize = 0;
    let mut k: usize = lo;
    while k < hi
        invariant
            lo <= k <= hi <= cs@.len(),
            r <= k - lo,
            newline_count(cs@, lo as int, hi as int) == r + newline_count(cs@, k as int, hi as int),
        decreases hi - k,
    {
        if cs[k] == '\n' {
            r = r + 1;
        }
        k = k + 1;
    }
    r
}

/// The characters of `cs` from `from` (inclusive) to `to` (exclusive), as a string.
fn chars_to_string(cs: &Vec<char>, from: usize, to: usize) -> (s: String)
    requires
        from <= to <= cs@.len(),
    ensures
        s@ == cs@.subrange(from as int, to as int),
{
    let mut s = String::new();
    let mut k = from;
    while k < to
        invariant
            from <= k <= to <= cs@.len(),
            s@ == cs@.subrange(from as int, k as int),
        decreases to - k,
    {
        s.push(cs[k]);
        proof {
            assert(s@ =~= cs@.subrange(from as int, k + 1 as int));
        }
        k = k + 1;
    }
    s
}

/// Scans a string literal from `start` (the position right after the opening
/// quote); yields its unescaped text and the position right after the closing
/// quote, or `None` when the input ends before the quote is closed.
fn scan_string_exec(cs: &Vec<char>, start: usize) -> (r: Option<(String, usize)>)
    requires
        start <= cs@.len(),
    ensures
        match r {
            None => scan_string(cs@, start as int, false) is None,
            Some(p) => {
                &&& scan_string(cs@, start as int, false) == Some((p.0@, p.1 as int))
                &&& start < p.1 <= cs@.len()
            },
        },
{
    let n = cs.len();
    let mut content = String::new();
    let mut j = start;
    let mut pending = false;
    while j < n
        invariant
            start <= j <= n == cs@.len(),
            scan_string(cs@, start as int, false) == (match scan_string(cs@, j as int, pending) {
                None => None::<(Seq<char>, int)>,
                Some((s, e)) => Some((content@ + s, e)),
            }),
        decreases n - j,
    {
        let c = cs[j];
        if c == '"' {
            if pending {
                let ghost old_content = content@;
                content.push('"');
                proof {
                    if let Some((s, e)) = scan_string(cs@, j + 1, false) {
                        assert(old_content + (seq!['"'] + s) =~= content@ + s);
                    }
                }
                pending = false;
            } else {
                proof {
                    assert(content@ + Seq::<char>::empty() =~= content@);
                }
                return Some((content, j + 1));
            }
        } else if c == '\\' {
            if pending {
                let ghost old_content = content@;
                content.push('\\');
                proof {
                    if let Some((s, e)) = scan_string(cs@, j + 1, false) {
                        assert(old_content + (seq!['\\'] + s) =~= content@ + s);
                    }
                }
                pending = false;
            } else {
                pending = true;
            }
        } else {
            let ghost old_content = content@;
            if pending {
                content.push('\\');
                content.push(c);
                proof {
                    if let Some((s, e)) = scan_string(cs@, j + 1, false) {
                        assert(old_content + (seq!['\\', c] + s) =~= content@ + s);
                    }
                }
                pending = false;
            } else {
                content.push(c);
                proof {
                    if let Some((s, e)) = scan_string(cs@, j + 1, false) {
                        assert(old_content + (seq![c] + s) =~= content@ + s);
                    }
                }
            }
        }
        j = j + 1;
    }
    None
}

/// The lexer: it holds the source text as a sequence of characters and turns
/// it into the token sequence that `lex_spec` describes.
#[derive(Debug)]
pub struct Lexer {
    raw_data: Vec<char>,
}

impl View for Lexer {
    type V = Seq<char>;

    closed spec fn view(&self) -> Seq<char> {
        self.raw_data@
    }
}

impl Lexer {
    /// The source is held as characters; its length must leave room for the
    /// 1-based line counter.
    pub closed spec fn wf(&self) -> bool {
        self.raw_data@.len() < usize::MAX
    }

    /// Makes a lexer over the given characters.
    pub fn new(raw_data: Vec<char>) -> (l: Lexer)
        requires
            raw_data@.len() < usize::MAX,
        ensures
            l@ == raw_data@,
            l.wf(),
    {
        Lexer { raw_data }
    }

    /// Tokenizes the whole source. On success the tokens and the skipped-character
    /// warnings are exactly those of `lex_spec`; an unterminated string literal
    /// fails the whole run and discards every token.
    pub fn lex(&self) -> (r: Result<(Vec<Token>, Vec<LexWarning>), String>)
        requires
            self.wf(),
        ensures
            match r {
                Ok(p) => lex_spec(self@) == Some((toks_view(p.0@), lex_warns_view(p.1@))),
                Err(m) => lex_spec(self@) is None && m@ == "Unterminated string literal"@,
            },
    {
        let n = self.raw_data.len();
        let mut toks: Vec<Token> = Vec::new();
        let mut warns: Vec<LexWarning> = Vec::new();
        let mut i: usize = 0;
        let mut line_no: usize = 1;
        proof {
            assert(toks_view(toks@) =~= Seq::<TokenV>::empty());
            assert(lex_warns_view(warns@) =~= Seq::<LexWarnV>::empty());
        }
        while i < n
            invariant
                self.wf(),
                n == self@.len(),
                i <= n,
                line_no as int <= i + 1,
                lex_spec(self@) == lex_combine(
                    toks_view(toks@),
                    lex_warns_view(warns@),
                    lex_from(self@, i as int, line_no as nat),
                ),
            decreases n - i,
        {
            let ghost old_toks = toks@;
            let ghost old_warns = warns@;
            let c = self.raw_data[i];
            if c == '\n' {
                line_no = line_no + 1;
                i = i + 1;
            } else if c == ' ' || c == '\t' {
                i = i + 1;
            } else if c == '+' {
                let t = Token::new(TokenType::Operator(Operator::Plus), line_no);
                toks.push(t);
                proof {
                    lemma_inv_token(self@, old_toks, warns@, i as int, line_no as nat, t, i + 1, line_no as nat);
                }
                i = i + 1;
            } else if c == '-' {
                let t = Token::new(TokenType::Operator(Operator::Minus), line_no);
                toks.push(t);
                proof {
                    lemma_inv_token(self@, old_toks, warns@, i as int, line_no as nat, t, i + 1, line_no as nat);
                }
                i = i + 1;
            } else if c == '(' {
                let t = Token::new(TokenType::LeftParen, line_no);
                toks.push(t);
                proof {
                    lemma_inv_token(self@, old_toks, warns@, i as int, line_no as nat, t, i + 1, line_no as nat);
                }
                i = i + 1;
            } else if c == ')' {
                let t = Token::new(TokenType::RightParen, line_no);
                toks.push(t);
                proof {
                    lemma_inv_token(self@, old_toks, warns@, i as int, line_no as nat, t, i + 1, line_no as nat);
                }
                i = i + 1;
            } else if c == '{' {
                let t = Token::new(TokenType::LeftCurly, line_no);
                toks.push(t);
                proof {
                    lemma_inv_token(self@, old_toks, warns@, i as int, line_no as nat, t, i + 1, line_no as nat);
                }
                i = i + 1;
            } else if c == '}' {
                let t = Token::new(TokenType::RightCurly, line_no);
                toks.push(t);
                proof {
                    lemma_inv_token(self@, old_toks, warns@, i as int, line_no as nat, t, i + 1, line_no as nat);
                }
                i = i + 1;
            } else if c == '*' {
                let t = Token::new(TokenType::Operator(Operator::Multiply), line_no);
                toks.push(t);
                proof {
                    lemma_inv_token(self@, old_toks, warns@, i as int, line_no as nat, t, i + 1, line_no as nat);
                }
                i = i + 1;
            } else if c == ';' {
                let t = Token::new(TokenType::SemiColon, line_no);
                toks.push(t);
                proof {
                    lemma_inv_token(self@, old_toks, warns@, i as int, line_no as nat, t, i + 1, line_no as nat);
                }
                i = i + 1;
            } else if c == '/' {
                if i + 1 < n && self.raw_data[i + 1] == '/' {
                    let e = line_comment_end_exec(&self.raw_data, i + 2);
                    let cnt = count_newlines(&self.raw_data, i + 2, e);
                    proof {
                        assert(clamp_pos(line_comment_end(self@, i + 2), i + 1, self@.len() as int) == e as int);
                    }
                    line_no = line_no + cnt;
                    i = e;
                } else {
                    let t = Token::new(TokenType::Operator(Operator::Divide), line_no);
                    toks.push(t);
                    proof {
                        lemma_inv_token(self@, old_toks, warns@, i as int, line_no as nat, t, i + 1, line_no as nat);
                    }
                    i = i + 1;
                }
            } else if c == '>' {
                if i + 1 < n && self.raw_data[i + 1] == '=' {
                    let t = Token::new(TokenType::Operator(Operator::GreaterThanEqual), line_no);
                    toks.push(t);
                    proof {
                        lemma_inv_token(self@, old_toks, warns@, i as int, line_no as nat, t, i + 2, line_no as nat);
                    }
                    i = i + 2;
                } else {
                    let t = Token::new(TokenType::Operator(Operator::GreaterThan), line_no);
                    toks.push(t);
                    proof {
                        lemma_inv_token(self@, old_toks, warns@, i as int, line_no as nat, t, i + 1, line_no as nat);
                    }
                    i = i + 1;
                }
            } else if c == '<' {
                if i + 1 < n && self.raw_data[i + 1] == '=' {
                    let t = Token::new(TokenType::Operator(Operator::LessThanEqual), line_no);
                    toks.push(t);
                    proof {
                        lemma_inv_token(self@, old_toks, warns@, i as int, line_no as nat, t, i + 2, line_no as nat);
                    }
                    i = i + 2;
                } else {
                    let t = Token::new(TokenType::Operator(Operator::LessThan), line_no);
                    toks.push(t);
                    proof {
                        lemma_inv_token(self@, old_toks, warns@, i as int, line_no as nat, t, i + 1, line_no as nat);
                    }
                    i = i + 1;
                }
            } else if c == '=' {
                if i + 1 < n && self.raw_data[i + 1] == '=' {
                    let t = Token::new(TokenType::Operator(Operator::Equality), line_no);
                    toks.push(t);
                    proof {
                        lemma_inv_token(self@, old_toks, warns@, i as int, line_no as nat, t, i + 2, line_no as nat);
                    }
                    i = i + 2;
                } else {
                    let t = Token::new(TokenType::Operator(Operator::Equal), line_no);
                    toks.push(t);
                    proof {
                        lemma_inv_token(self@, old_toks, warns@, i as int, line_no as nat, t, i + 1, line_no as nat);
                    }
                    i = i + 1;
                }
            } else if digit_check(c) {
                let e = digit_run_end_exec(&self.raw_data, i + 1);
                let num = chars_to_string(&self.raw_data, i, e);
                let t = Token::new(TokenType::Number(num), line_no);
                toks.push(t);
                proof {
                    assert(clamp_pos(digit_run_end(self@, i + 1), i + 1, self@.len() as int) == e as int);
                    lemma_inv_token(self@, old_toks, warns@, i as int, line_no as nat, t, e as int, line_no as nat);
                }
                i = e;
            } else if c == '"' {
                match scan_string_exec(&self.raw_data, i + 1) {
                    None => {
                        return Err(String::from_str("Unterminated string literal"));
                    },
                    Some(p) => {
                        let (content, e) = p;
                        let t = Token::new(TokenType::StringLiteral(content), line_no);
                        toks.push(t);
                        let cnt = count_newlines(&self.raw_data, i + 1, e);
                        proof {
                            assert(clamp_pos(e as int, i + 1, self@.len() as int) == e as int);
                            lemma_inv_token(
                                self@,
                                old_toks,
                                warns@,
                                i as int,
                                line_no as nat,
                                t,
                                e as int,
                                (line_no + cnt) as nat,
                            );
                        }
                        line_no = line_no + cnt;
                        i = e;
                    },
                }
            } else if c.is_alphanumeric() {
                let e = word_run_end_exec(&self.raw_data, i + 1);
                let w = chars_to_string(&self.raw_data, i, e);
                let tt = if str_eq_lit(&w, "print") {
                    TokenType::Print
                } else if str_eq_lit(&w, "let") {
                    TokenType::Let
                } else if str_eq_lit(&w, "if") {
                    TokenType::If
                } else if str_eq_lit(&w, "elif") {
                    TokenType::Elif
                } else if str_eq_lit(&w, "while") {
                    TokenType::While
                } else if str_eq_lit(&w, "else") {
                    TokenType::Else
                } else {
                    TokenType::Identifier(w)
                };
                let t = Token::new(tt, line_no);
                toks.push(t);
                proof {
                    assert(clamp_pos(word_run_end(self@, i + 1), i + 1, self@.len() as int) == e as int);
                    lemma_inv_token(self@, old_toks, warns@, i as int, line_no as nat, t, e as int, line_no as nat);
                }
                i = e;
            } else {
                let w = LexWarning { ch: c, line_no };
                warns.push(w);
                proof {
                    lemma_inv_warn(self@, toks@, old_warns, i as int, line_no as nat, w, i + 1, line_no as nat);
                }
                i = i + 1;
            }
        }
        proof {
            if let Some((rts, rws)) = lex_from(self@, i as int, line_no as nat) {
                assert(toks_view(toks@) + rts =~= toks_view(toks@));
                assert(lex_warns_view(warns@) + rws =~= lex_warns_view(warns@));
            }
        }
        Ok((toks, warns))
    }
}

} // verus!
