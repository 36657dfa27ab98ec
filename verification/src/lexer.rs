//! The lexer: turns a source into tokens, and groups them with their trivia.
use vstd::prelude::*;

use crate::grammar::{
    first_lex_error, lemma_run_starts, lemma_lexed_run_append, lemma_lexed_run_bounds, lemma_lexed_run_text, lemma_lexed_run_push, lemma_lexed_trivia,
    lex_is_trivia, lexed_run, lexed_run_end, no_eof, lemma_lex_starts, lemma_lex_starts_step, lex_starts, lexes_cleanly, lexes_to,
    is_eof_token, lemma_lex_progress, lemma_lexed_token_text, lex_end, lex_error,
    token_lexed, lemma_lexes_on_to, lexemes_between, lexes_on_to, no_lex_error, lemma_run_token_at,
};
use crate::position::{is_position_at, source_fits, spec_bytes_at, Position};
use crate::scan::{lex_at, Lexeme};
use crate::source::LexerSource;
use crate::tokenizer::{display_tokens, lemma_display_tokens_append, lemma_display_tokens_push, Token, TokenReference, TokenType, TokenizerError, TokenizerErrorType};

verus! {

/// The result of a lexer operation.
#[derive(Debug)]
pub enum LexerResult<T> {
    /// The lexer operation was successful.
    Success(T),
    /// The lexer operation was unsuccessful, and could not be recovered.
    Fatal(Vec<TokenizerError>),
    /// The lexer operation was unsuccessful, but some result can be extracted.
    Recovered(T, Vec<TokenizerError>),
}

impl<T> LexerResult<T> {
    /// `Ok` when there are no errors, `Recovered` otherwise.
    pub fn new(value: T, errors: Vec<TokenizerError>) -> (r: Self)
        ensures
            errors@.len() == 0 ==> r == LexerResult::Success(value),
            errors@.len() != 0 ==> r == LexerResult::Recovered(value, errors),
    {
        if errors.len() == 0 {
            LexerResult::Success(value)
        } else {
            LexerResult::Recovered(value, errors)
        }
    }

    /// Unwraps the result, which must be [`LexerResult::Success`].
    pub fn unwrap(self) -> (r: T)
        requires
            self is Success,
        ensures
            self == LexerResult::Success(r),
    {
        match self {
            LexerResult::Success(value) => value,
            LexerResult::Fatal(_) => vstd::pervasive::unreached(),
            LexerResult::Recovered(_, _) => vstd::pervasive::unreached(),
        }
    }

    /// Unwraps the errors, which there must be: the result must not be [`LexerResult::Success`].
    pub fn unwrap_errors(self) -> (r: Vec<TokenizerError>)
        requires
            !(self is Success),
        ensures
            self matches LexerResult::Fatal(errors) ==> r == errors,
            self matches LexerResult::Recovered(_, errors) ==> r == errors,
    {
        match self {
            LexerResult::Fatal(errors) | LexerResult::Recovered(_, errors) => errors,
            LexerResult::Success(_) => vstd::pervasive::unreached(),
        }
    }

    /// Returns the errors there were: those of a fatal or recovered result; none otherwise.
    pub fn errors(self) -> (r: Vec<TokenizerError>)
        ensures
            self matches LexerResult::Recovered(_, errors) ==> r == errors,
            self matches LexerResult::Fatal(errors) ==> r == errors,
            self is Success ==> r@.len() == 0,
    {
        match self {
            LexerResult::Recovered(_, errors) => errors,
            LexerResult::Fatal(errors) => errors,
            LexerResult::Success(_) => Vec::new(),
        }
    }
}

/// `r` is what the lexer gives for the lexeme of `s` that starts at `i`: the token, or the
/// error with its range.
pub open spec fn lexed_result_at(s: Seq<char>, i: int, r: LexerResult<Token>) -> bool {
    match r {
        LexerResult::Success(tok) => lex_error(s, i) is None && token_lexed(
            s,
            i,
            lex_end(s, i),
            tok,
        ),
        LexerResult::Fatal(errors) => lex_error(s, i) matches Some(e) && errors@.len() == 1
            && errors@[0].error == e && is_position_at(errors@[0].range.0, s, i)
            && is_position_at(errors@[0].range.1, s, lex_end(s, i)),
        LexerResult::Recovered(_, _) => false,
    }
}

/// `t` is whitespace that holds a new line.
pub open spec fn is_newline_whitespace(t: Token) -> bool {
    t.token_type matches TokenType::Whitespace { characters } && characters@.contains('\n')
}

/// All tokens of `v` are trivia.
pub open spec fn all_trivia(v: Seq<Token>) -> bool {
    forall|k: int| 0 <= k < v.len() ==> (#[trigger] v[k]).token_type.spec_is_trivia()
}

/// `tr` groups the tokens lexed from `i` to `j`: the trivia before a token, the token, and
/// the trivia after it up to and including the first whitespace that holds a new line.
pub open spec fn is_token_group(s: Seq<char>, i: int, tr: TokenReference, j: int) -> bool {
    let all = tr.spec_all_tokens();
    let trailing = tr.trailing_trivia@;
    &&& lexed_run(s, i, all)
    &&& lexed_run_end(s, i, all) == j
    &&& all_trivia(tr.leading_trivia@)
    &&& !tr.token.token_type.spec_is_trivia()
    &&& all_trivia(trailing)
    &&& forall|k: int| 0 <= k < trailing.len() - 1 ==> !is_newline_whitespace(#[trigger] trailing[k])
    &&& (trailing.len() > 0 && is_newline_whitespace(trailing.last())) || !lex_is_trivia(s, j)
}

/// `errors` is the error met after a run of trivia lexed from `i`, the lexer having moved to `j`.
pub open spec fn is_group_error(s: Seq<char>, i: int, errors: Seq<TokenizerError>, j: int) -> bool {
    exists|lead: Seq<Token>|
        {
            let m = #[trigger] lexed_run_end(s, i, lead);
            &&& lexed_run(s, i, lead)
            &&& all_trivia(lead)
            &&& 0 <= m < s.len()
            &&& errors.len() == 1
            &&& lex_error(s, m) == Some(errors[0].error)
            &&& is_position_at(errors[0].range.0, s, m)
            &&& is_position_at(errors[0].range.1, s, lex_end(s, m))
            &&& j == lex_end(s, m)
        }
}

/// `r` is what grouping the tokens lexed from `i` gives, the lexer having moved to `j`.
pub open spec fn group_result(s: Seq<char>, i: int, r: LexerResult<TokenReference>, j: int) -> bool {
    match r {
        LexerResult::Success(tr) => is_token_group(s, i, tr, j),
        LexerResult::Fatal(errors) => is_group_error(s, i, errors@, j),
        LexerResult::Recovered(_, _) => false,
    }
}

/// `r` is what grouping from `i` gives when the end of file was (`eof_before`) or was not yet
/// given out, the lexer having moved to `j` and given out the end of file if `eof_after`.
pub open spec fn group_step(
    s: Seq<char>,
    i: int,
    r: Option<LexerResult<TokenReference>>,
    j: int,
    eof_before: bool,
    eof_after: bool,
) -> bool {
    if eof_before {
        &&& r is None
        &&& j == i
        &&& eof_after
    } else {
        &&& r matches Some(res) && group_result(s, i, res, j)
        &&& eof_after == (r matches Some(LexerResult::Success(tr)) && tr.token.token_type is Eof)
    }
}

/// The lexemes a group of tokens covers are the next lexemes from where it starts: none of
/// them an error when the group is a token reference, and the last of them an error when
/// the group is an error.
proof fn lemma_group_starts(s: Seq<char>, i: int, r: LexerResult<TokenReference>, j: int) -> (d: Seq<int>)
    requires
        0 <= i <= s.len(),
        group_result(s, i, r, j),
    ensures
        lex_starts(s, i) == d + lex_starts(s, j),
        r is Success ==> forall|k: int| 0 <= k < d.len() ==> (#[trigger] lex_error(s, d[k])) is None,
        r is Fatal ==> d.len() > 0 && lex_error(s, d.last()) is Some,
        r matches LexerResult::Fatal(errors) ==> {
            &&& no_lex_error(s, d.drop_last())
            &&& errors@.len() == 1
            &&& lex_error(s, d.last()) == Some(errors@[0].error)
            &&& is_position_at(errors@[0].range.0, s, d.last())
            &&& is_position_at(errors@[0].range.1, s, lex_end(s, d.last()))
        },
{
    match r {
        LexerResult::Success(tr) => lemma_run_starts(s, i, tr.spec_all_tokens()),
        LexerResult::Fatal(errors) => {
            let lead = choose|lead: Seq<Token>|
                {
                    let m = #[trigger] lexed_run_end(s, i, lead);
                    &&& lexed_run(s, i, lead)
                    &&& all_trivia(lead)
                    &&& 0 <= m < s.len()
                    &&& errors@.len() == 1
                    &&& lex_error(s, m) == Some(errors@[0].error)
                    &&& is_position_at(errors@[0].range.0, s, m)
                    &&& is_position_at(errors@[0].range.1, s, lex_end(s, m))
                    &&& j == lex_end(s, m)
                };
            let m = lexed_run_end(s, i, lead);
            let dl = lemma_run_starts(s, i, lead);
            lemma_lex_progress(s, m);
            assert(lex_starts(s, m) == seq![m] + lex_starts(s, lex_end(s, m)));
            let d = dl.push(m);
            assert(lex_starts(s, i) =~= d + lex_starts(s, j));
            assert(d.drop_last() =~= dl);
            d
        },
        LexerResult::Recovered(_, _) => Seq::empty(),
    }
}

/// A token reference prints as the source it groups.
pub proof fn lemma_token_group_text(s: Seq<char>, i: int, tr: TokenReference, j: int)
    requires
        0 <= i <= s.len(),
        is_token_group(s, i, tr, j),
    ensures
        tr.spec_display() == s.subrange(i, j),
        i <= j <= s.len(),
        tr.token.token_type is Eof ==> j == s.len(),
{
    let all = tr.spec_all_tokens();
    lemma_lexed_run_text(s, i, all);
    lemma_lexed_run_bounds(s, i, all);
    lemma_display_tokens_append(tr.leading_trivia@ + seq![tr.token], tr.trailing_trivia@);
    lemma_display_tokens_append(tr.leading_trivia@, seq![tr.token]);
    assert(display_tokens(seq![tr.token]) =~= tr.token.spec_display()) by {
        assert(seq![tr.token].drop_first() =~= Seq::<Token>::empty());
        assert(display_tokens(Seq::<Token>::empty()) == Seq::<char>::empty());
        assert(display_tokens(seq![tr.token]) == seq![tr.token][0].spec_display() + display_tokens(
            seq![tr.token].drop_first(),
        ));
    }
    if tr.token.token_type is Eof {
        lemma_eof_run_end(s, i, all, tr.leading_trivia@.len() as int);
    }
}

/// A run that holds the end of file token ends at the end of the source.
proof fn lemma_eof_run_end(s: Seq<char>, i: int, v: Seq<Token>, k: int)
    requires
        0 <= i <= s.len(),
        lexed_run(s, i, v),
        0 <= k < v.len(),
        v[k].token_type is Eof,
    ensures
        lexed_run_end(s, i, v) == s.len(),
        is_eof_token(s, v[k]),
    decreases v.len(),
{
    if i < s.len() {
        reveal(token_lexed);
        lemma_lex_progress(s, i);
        if k == 0 {
            assert(false);
        }
        lemma_eof_run_end(s, lex_end(s, i), v.drop_first(), k - 1);
    }
}

/// Trivia tokens are never the end of file.
proof fn lemma_trivia_no_eof(v: Seq<Token>)
    requires
        all_trivia(v),
    ensures
        no_eof(v),
{
    assert forall|k: int| 0 <= k < v.len() implies !((#[trigger] v[k]).token_type is Eof) by {
        assert(v[k].token_type.spec_is_trivia());
    }
}

/// Turns a source into tokens.
pub struct Lexer {
    source: LexerSource,
    sent_eof: bool,
    next_token: Option<LexerResult<TokenReference>>,
    peek_token: Option<LexerResult<TokenReference>>,
    /// Where the current and the peeked token references start, whether the end of file had
    /// been given out at each, and whether the two were read at all.
    stream: Ghost<(int, int, bool, bool, bool)>,
}

impl Lexer {
    /// The characters of the source.
    pub closed spec fn text(&self) -> Seq<char> {
        self.source.text()
    }

    /// The index of the next character to lex.
    pub closed spec fn index(&self) -> int {
        self.source.index()
    }

    /// Whether the end of file token was given out.
    pub closed spec fn has_sent_eof(&self) -> bool {
        self.sent_eof
    }

    /// The token reference at the front of the lexer.
    pub closed spec fn spec_current(&self) -> Option<LexerResult<TokenReference>> {
        self.next_token
    }

    /// The token reference after the one at the front of the lexer.
    pub closed spec fn spec_peek(&self) -> Option<LexerResult<TokenReference>> {
        self.peek_token
    }

    /// The internal consistency of the lexer.
    pub closed spec fn wf(&self) -> bool {
        &&& self.source.wf()
        &&& self.sent_eof ==> self.source.index() == self.source.text().len()
    }

    /// Where the current token reference starts.
    pub closed spec fn stream_start(&self) -> int {
        if self.stream@.4 {
            self.stream@.0
        } else {
            self.source.index()
        }
    }

    /// Whether the current and peeked token references were read.
    pub closed spec fn is_primed(&self) -> bool {
        self.stream@.4
    }

    /// Where the peeked token reference starts.
    pub closed spec fn stream_mid(&self) -> int {
        if self.stream@.4 {
            self.stream@.1
        } else {
            self.source.index()
        }
    }

    /// Whether the end of file had been given out where the peeked token reference starts.
    pub closed spec fn stream_mid_eof(&self) -> bool {
        if self.stream@.4 {
            self.stream@.3
        } else {
            self.sent_eof
        }
    }

    /// The current and peeked token references are the groups of tokens that follow one
    /// another from the start of the stream up to where the lexer is; or neither was read.
    pub closed spec fn stream_wf(&self) -> bool {
        let (a, b, ea, eb, primed) = self.stream@;
        let s = self.source.text();
        &&& self.wf()
        &&& primed ==> {
            &&& 0 <= a <= b <= self.source.index()
            &&& ea ==> a == s.len()
            &&& eb ==> b == s.len()
            &&& group_step(s, a, self.next_token, b, ea, eb)
            &&& group_step(s, b, self.peek_token, self.source.index(), eb, self.sent_eof)
        }
        &&& !primed ==> self.next_token is None && self.peek_token is None
    }

    /// Creates a new Lexer from the given source string, but does not process the first token.
    pub fn new_lazy(source: &str) -> (r: Self)
        requires
            source_fits(source@),
        ensures
            r.wf(),
            r.text() == source@,
            r.index() == 0,
            !r.has_sent_eof(),
            r.stream_wf(),
            r.spec_current() is None,
            r.spec_peek() is None,
            r.stream_start() == 0,
    {
        Lexer {
            source: LexerSource::new(source),
            sent_eof: false,
            next_token: None,
            peek_token: None,
            stream: Ghost((0, 0, false, false, false)),
        }
    }

    /// Processes and returns the next token in the source string, trivia included.
    #[verifier::rlimit(20)]
    pub fn process_next(&mut self) -> (r: Option<LexerResult<Token>>)
        requires
            old(self).wf(),
        ensures
            final(self).wf(),
            final(self).text() == old(self).text(),
            final(self).spec_current() == old(self).spec_current(),
            final(self).spec_peek() == old(self).spec_peek(),
            old(self).index() < old(self).text().len() ==> {
                &&& final(self).index() == lex_end(old(self).text(), old(self).index())
                &&& final(self).has_sent_eof() == old(self).has_sent_eof()
                &&& r matches Some(res) && lexed_result_at(old(self).text(), old(self).index(), res)
            },
            old(self).index() >= old(self).text().len() ==> {
                &&& final(self).index() == old(self).index()
                &&& final(self).has_sent_eof()
                &&& !old(self).has_sent_eof() ==> (r matches Some(LexerResult::Success(tok))
                    && is_eof_token(old(self).text(), tok))
                &&& old(self).has_sent_eof() ==> r is None
            },
    {
        let start_position = self.source.position();
        let i = self.source.checkpoint().index;
        let n = self.source.chars().len();
        if i >= n {
            if self.sent_eof {
                return None;
            }
            self.sent_eof = true;
            return Some(
                LexerResult::Success(
                    Token {
                        start_position,
                        end_position: start_position,
                        token_type: TokenType::Eof,
                    },
                ),
            );
        }
        let ghost s = self.source.text();
        proof {
            self.source.lemma_wf();
        }
        let lexeme = lex_at(self.source.chars(), i);
        proof {
            lemma_lex_progress(s, i as int);
            reveal(token_lexed);
        }
        match lexeme {
            Lexeme::Token(token_type, end) => {
                let end_position = if self.source.chars()[end - 1] == '\n' {
                    self.source.advance_to(end - 1);
                    let before = self.source.position();
                    self.source.advance_to(end);
                    let after = self.source.position();
                    Position { bytes: after.bytes, line: before.line, character: before.character }
                } else {
                    self.source.advance_to(end);
                    self.source.position()
                };
                Some(LexerResult::Success(Token { start_position, end_position, token_type }))
            },
            Lexeme::Error(error, end) => {
                self.source.advance_to(end);
                let end_position = self.source.position();
                let mut errors = Vec::new();
                errors.push(TokenizerError { error, range: (start_position, end_position) });
                Some(LexerResult::Fatal(errors))
            },
        }
    }
}

proof fn lemma_finish_tokens(s: Seq<char>, done: Seq<int>, v: Seq<Token>)
    requires
        lex_starts(s, 0) == done + lex_starts(s, s.len() as int),
        v.len() == done.len() + 1,
        forall|k: int| 0 <= k < done.len() ==> (#[trigger] lex_error(s, done[k])) is None,
        forall|k: int|
            0 <= k < done.len() ==> token_lexed(s, done[k], lex_end(s, done[k]), #[trigger] v[k]),
        is_eof_token(s, v[v.len() - 1]),
    ensures
        lexes_cleanly(s),
        lexes_to(s, v),
{
    lemma_lex_starts(s, 0);
    let st = lex_starts(s, 0);
    assert(lex_starts(s, s.len() as int) == seq![s.len() as int]);
    assert(st == done.push(s.len() as int));
    assert forall|k: int| 0 <= k < st.len() - 1 implies (#[trigger] lex_error(s, st[k])) is None by {
        assert(st[k] == done[k]);
    }
    assert forall|k: int| 0 <= k < v.len() - 1 implies lex_error(s, st[k]) is None && token_lexed(
        s,
        st[k],
        st[k + 1],
        #[trigger] v[k],
    ) by {
        assert(st[k] == done[k]);
        assert(lex_error(s, done[k]) is None);
    }
}

proof fn lemma_tokens_error(s: Seq<char>, done: Seq<int>, i: int, e: TokenizerError)
    requires
        0 <= i < s.len(),
        lex_starts(s, 0) == done + lex_starts(s, i),
        forall|k: int| 0 <= k < done.len() ==> (#[trigger] lex_error(s, done[k])) is None,
        lex_error(s, i) == Some(e.error),
        is_position_at(e.range.0, s, i),
        is_position_at(e.range.1, s, lex_end(s, i)),
    ensures
        !lexes_cleanly(s),
        first_lex_error(s, e),
{
    lemma_lex_starts(s, 0);
    lemma_lex_starts_step(s, done, i);
    let st = lex_starts(s, 0);
    let m = done.len() as int;
    assert(st[m] == i);
    assert(st[m + 1] == lex_end(s, i));
    assert forall|k: int| 0 <= k < m implies (#[trigger] lex_error(s, st[k])) is None by {
        assert(st[k] == done[k]);
    }
    assert(lex_error(s, st[m]) is Some);
}

#[verifier::rlimit(40)]
proof fn lemma_prefix_text(s: Seq<char>, v: Seq<Token>, k: int)
    requires
        lexes_to(s, v),
        0 <= k < v.len(),
    ensures
        display_tokens(v.take(k)) == s.subrange(0, lex_starts(s, 0)[k]),
    decreases k,
{
    lemma_lex_starts(s, 0);
    let st = lex_starts(s, 0);
    if k == 0 {
        assert(v.take(0) =~= Seq::<Token>::empty());
        assert(s.subrange(0, 0) =~= Seq::<char>::empty());
    } else {
        lemma_prefix_text(s, v, k - 1);
        assert(v.take(k) =~= v.take(k - 1).push(v[k - 1]));
        lemma_display_tokens_push(v.take(k - 1), v[k - 1]);
        assert(lex_error(s, st[k - 1]) is None && token_lexed(s, st[k - 1], st[k], v[k - 1]));
        lemma_lexed_token_text(s, st[k - 1], st[k], v[k - 1]);
        lemma_lex_progress(s, st[k - 1]);
        assert(s.subrange(0, st[k - 1]) + s.subrange(st[k - 1], st[k]) =~= s.subrange(0, st[k]));
    }
}

/// Tokenizing loses nothing: the tokens of a source print back as exactly that source.
pub proof fn lemma_tokens_print_back(s: Seq<char>, v: Seq<Token>)
    requires
        lexes_to(s, v),
    ensures
        display_tokens(v) == s,
{
    lemma_lex_starts(s, 0);
    let last = v.len() - 1;
    lemma_prefix_text(s, v, last);
    assert(v =~= v.take(last).push(v[last]));
    lemma_display_tokens_push(v.take(last), v[last]);
    assert(s.subrange(0, s.len() as int) =~= s);
    assert(v[last].spec_display() =~= Seq::<char>::empty());
}

impl Lexer {
    /// Whether a token is whitespace that holds a new line.
    fn ends_line(t: &Token) -> (r: bool)
        ensures
            r == is_newline_whitespace(*t),
    {
        match &t.token_type {
            TokenType::Whitespace { characters } => {
                let chars = crate::text::chars_of(characters.as_str());
                crate::text::contains_char(chars.as_slice(), '\n')
            },
            _ => false,
        }
    }

    /// Processes and returns the next token in the source string, with the trivia before it
    /// and the trivia after it up to the end of its line.
    #[verifier::rlimit(40)]
    pub fn process_next_with_trivia(&mut self) -> (r: Option<LexerResult<TokenReference>>)
        requires
            old(self).wf(),
        ensures
            final(self).wf(),
            final(self).text() == old(self).text(),
            final(self).spec_current() == old(self).spec_current(),
            final(self).spec_peek() == old(self).spec_peek(),
            old(self).has_sent_eof() ==> r is None && final(self).index() == old(self).index()
                && final(self).has_sent_eof(),
            !old(self).has_sent_eof() ==> {
                &&& r matches Some(res) && group_result(
                    old(self).text(),
                    old(self).index(),
                    res,
                    final(self).index(),
                )
                &&& final(self).has_sent_eof() == (r matches Some(LexerResult::Success(tr))
                    && tr.token.token_type is Eof)
            },
    {
        let ghost s = self.text();
        let ghost i = self.index();
        if self.sent_eof {
            return None;
        }
        proof {
            self.source.lemma_wf();
        }
        let mut leading_trivia: Vec<Token> = Vec::new();
        let mut found: Option<Token> = None;
        while found.is_none()
            invariant
                s == old(self).text(),
                i == old(self).index(),
                !old(self).has_sent_eof(),
                self.wf(),
                self.text() == s,
                self.spec_current() == old(self).spec_current(),
                self.spec_peek() == old(self).spec_peek(),
                0 <= i <= s.len(),
                lexed_run(s, i, leading_trivia@),
                all_trivia(leading_trivia@),
                found is None ==> !self.has_sent_eof() && lexed_run_end(s, i, leading_trivia@)
                    == self.index(),
                found matches Some(t) ==> {
                    &&& lexed_run(s, i, leading_trivia@.push(t))
                    &&& lexed_run_end(s, i, leading_trivia@.push(t)) == self.index()
                    &&& !t.token_type.spec_is_trivia()
                    &&& self.has_sent_eof() == (t.token_type is Eof)
                },
            decreases s.len() - self.index(), if found is None { 1int } else { 0int },
        {
            let ghost j = self.index();
            proof {
                self.source.lemma_wf();
                if j < s.len() {
                    lemma_lex_progress(s, j);
                }
                lemma_trivia_no_eof(leading_trivia@);
            }
            match self.process_next() {
                Some(LexerResult::Success(token)) => {
                    proof {
                        lemma_lexed_run_push(s, i, leading_trivia@, token);
                        if j < s.len() {
                            lemma_lexed_trivia(s, j, token);
                        }
                    }
                    if token.token_type.is_trivia() {
                        proof {
                            if j >= s.len() {
                                assert(token.token_type is Eof);
                            }
                        }
                        leading_trivia.push(token);
                    } else {
                        found = Some(token);
                    }
                },
                Some(LexerResult::Fatal(errors)) => {
                    proof {
                        let lead = leading_trivia@;
                        assert(lexed_run_end(s, i, lead) == j);
                        assert(is_group_error(s, i, errors@, self.index()));
                    }
                    return Some(LexerResult::Fatal(errors));
                },
                _ => {
                    return vstd::pervasive::unreached();
                },
            }
        }
        let token = match found {
            Some(t) => t,
            None => vstd::pervasive::unreached(),
        };
        let ghost after_token = self.index();
        let mut trailing_trivia: Vec<Token> = Vec::new();
        let mut done = false;
        proof {
            self.source.lemma_wf();
        }
        while !done
            invariant
                s == old(self).text(),
                self.wf(),
                self.text() == s,
                self.spec_current() == old(self).spec_current(),
                self.spec_peek() == old(self).spec_peek(),
                self.has_sent_eof() == (token.token_type is Eof),
                0 <= after_token <= s.len(),
                lexed_run(s, after_token, trailing_trivia@),
                lexed_run_end(s, after_token, trailing_trivia@) == self.index(),
                all_trivia(trailing_trivia@),
                (token.token_type is Eof) ==> trailing_trivia@.len() == 0,
                forall|k: int|
                    0 <= k < trailing_trivia@.len() ==> !is_newline_whitespace(
                        #[trigger] trailing_trivia@[k],
                    ) || (done && k == trailing_trivia@.len() - 1),
                done ==> (trailing_trivia@.len() > 0 && is_newline_whitespace(
                    trailing_trivia@.last(),
                )) || !lex_is_trivia(s, self.index()),
            decreases s.len() - self.index(), if done { 0int } else { 1int },
        {
            let ghost j = self.index();
            let sent_eof = self.sent_eof;
            let place = self.source.checkpoint();
            proof {
                self.source.lemma_wf();
                if j < s.len() {
                    lemma_lex_progress(s, j);
                }
                lemma_trivia_no_eof(trailing_trivia@);
            }
            match self.process_next() {
                Some(LexerResult::Success(t)) => {
                    proof {
                        if j < s.len() {
                            lemma_lexed_trivia(s, j, t);
                        }
                    }
                    if t.token_type.is_trivia() {
                        proof {
                            if j >= s.len() {
                                assert(t.token_type is Eof);
                            }
                            lemma_lexed_run_push(s, after_token, trailing_trivia@, t);
                        }
                        let should_break = Lexer::ends_line(&t);
                        trailing_trivia.push(t);
                        if should_break {
                            done = true;
                        }
                    } else {
                        self.source.restore(place);
                        self.sent_eof = sent_eof;
                        done = true;
                    }
                },
                _ => {
                    proof {
                        if j < s.len() {
                            assert(!lex_is_trivia(s, j));
                        }
                    }
                    self.source.restore(place);
                    self.sent_eof = sent_eof;
                    done = true;
                },
            }
        }
        let reference = TokenReference { leading_trivia, token, trailing_trivia };
        proof {
            let lt = reference.leading_trivia@;
            let tt = reference.trailing_trivia@;
            if tt.len() == 0 {
                assert(lt.push(reference.token) =~= reference.spec_all_tokens());
            } else {
                lemma_trivia_no_eof(lt);
                assert(no_eof(lt.push(reference.token))) by {
                    assert forall|k: int| 0 <= k < lt.push(reference.token).len() implies !((
                    #[trigger] lt.push(reference.token)[k]).token_type is Eof) by {
                        if k < lt.len() {
                            assert(lt.push(reference.token)[k] == lt[k]);
                        }
                    }
                }
                lemma_lexed_run_append(s, i, lt.push(reference.token), tt);
                assert(lt.push(reference.token) + tt =~= reference.spec_all_tokens());
            }
        }
        Some(LexerResult::Success(reference))
    }
}

/// `after` is `before` with its current token reference given out: the peeked one is current,
/// and the one after it was read from the source.
pub open spec fn lexer_moved_on(before: Lexer, after: Lexer) -> bool {
    &&& after.text() == before.text()
    &&& after.stream_wf()
    &&& after.is_primed() == before.is_primed()
    &&& after.spec_current() == before.spec_peek()
    &&& after.stream_start() == before.stream_mid()
    &&& after.stream_mid() == before.index()
    &&& after.stream_mid_eof() == before.has_sent_eof()
    &&& group_step(
        before.text(),
        before.index(),
        after.spec_peek(),
        after.index(),
        before.has_sent_eof(),
        after.has_sent_eof(),
    )
}

impl Lexer {
    /// Creates a new Lexer from the given source string, and processes the first two tokens.
    pub fn new(source: &str) -> (r: Self)
        requires
            source_fits(source@),
        ensures
            r.stream_wf(),
            r.text() == source@,
            r.stream_start() == 0,
            r.is_primed(),
            group_step(source@, 0, r.spec_current(), r.stream_mid(), false, r.stream_mid_eof()),
            group_step(source@, r.stream_mid(), r.spec_peek(), r.index(), r.stream_mid_eof(), r.has_sent_eof()),
    {
        let mut lexer = Lexer::new_lazy(source);
        let first = lexer.process_next_with_trivia();
        let ghost b = lexer.index();
        let ghost eb = lexer.sent_eof;
        proof {
            lemma_group_step_bounds(source@, 0, first, b, false, eb);
        }
        let second = lexer.process_next_with_trivia();
        proof {
            lexer.source.lemma_wf();
            lemma_group_step_bounds(source@, b, second, lexer.index(), eb, lexer.sent_eof);
        }
        lexer.next_token = first;
        lexer.peek_token = second;
        lexer.stream = Ghost((0, b, false, eb, true));
        lexer
    }

    /// Returns the current token.
    pub fn current(&self) -> (r: Option<&LexerResult<TokenReference>>)
        ensures
            r matches Some(x) ==> self.spec_current() == Some(*x),
            r is None ==> self.spec_current() is None,
    {
        self.next_token.as_ref()
    }

    /// Returns the next token.
    pub fn peek(&self) -> (r: Option<&LexerResult<TokenReference>>)
        ensures
            r matches Some(x) ==> self.spec_peek() == Some(*x),
            r is None ==> self.spec_peek() is None,
    {
        self.peek_token.as_ref()
    }

    /// Consumes the current token and returns it, reading one more token reference.
    pub fn consume(&mut self) -> (r: Option<LexerResult<TokenReference>>)
        requires
            old(self).stream_wf(),
        ensures
            final(self).stream_wf(),
            final(self).text() == old(self).text(),
            r == old(self).spec_current(),
            final(self).is_primed() == old(self).is_primed(),
            r is None ==> *final(self) == *old(self),
            r is Some ==> lexer_moved_on(*old(self), *final(self)),
    {
        let next = self.next_token.take();
        if next.is_none() {
            return next;
        }
        let ghost old_index = self.index();
        let ghost old_eof = self.sent_eof;
        let ghost (a, b, ea, eb, primed) = self.stream@;
        self.next_token = self.peek_token.take();
        let peeked = self.process_next_with_trivia();
        proof {
            self.source.lemma_wf();
            lemma_group_step_bounds(self.text(), old_index, peeked, self.index(), old_eof, self.sent_eof);
        }
        self.peek_token = peeked;
        self.stream = Ghost((b, old_index, eb, old_eof, true));
        next
    }
}

impl Lexer {
    /// Returns a vector of all tokens left in the source string, with the errors met.
    pub fn collect(self) -> (r: LexerResult<Vec<Token>>)
        requires
            self.stream_wf(),
        ensures
            !(r is Fatal),
            self.is_primed() ==> (r matches LexerResult::Success(v) ==> display_tokens(v@)
                == self.text().subrange(self.stream_start(), self.text().len() as int)),
            r matches LexerResult::Recovered(_, errors) ==> errors@.len() > 0,
            !self.is_primed() ==> (r matches LexerResult::Success(v) && v@.len() == 0),
            self.is_primed() && self.stream_start() == 0 ==> (r is Success <==> lexes_cleanly(
                self.text(),
            )),
    {
        let ghost s = self.text();
        let ghost start = self.stream_start();
        let ghost primed = self.is_primed();
        let mut lexer = self;
        let mut tokens: Vec<Token> = Vec::new();
        let mut errors: Vec<TokenizerError> = Vec::new();
        let mut more = true;
        let ghost mut done: Seq<int> = Seq::empty();
        proof {
            lexer.source.lemma_wf();
            assert(s.subrange(start, start) =~= Seq::<char>::empty());
            assert(lex_starts(s, start) =~= done + lex_starts(s, start));
        }
        while more
            invariant
                lexer.stream_wf(),
                lexer.text() == s,
                lexer.is_primed() == primed,
                primed ==> 0 <= start <= lexer.stream_start() <= s.len(),
                primed && errors@.len() == 0 ==> display_tokens(tokens@) == s.subrange(
                    start,
                    lexer.stream_start(),
                ),
                !more ==> lexer.spec_current() is None,
                !primed ==> tokens@.len() == 0 && errors@.len() == 0 && lexer.spec_current() is None,
                primed ==> lex_starts(s, start) == done + lex_starts(s, lexer.stream_start()),
                primed ==> (errors@.len() == 0 <==> forall|k: int|
                    0 <= k < done.len() ==> (#[trigger] lex_error(s, done[k])) is None),
            decreases s.len() - lexer.stream_start() + if lexer.spec_current() is Some {
                1int
            } else {
                0int
            }, if more { 1int } else { 0int },
        {
            let ghost a = lexer.stream_start();
            let ghost b = lexer.stream_mid();
            let ghost current = lexer.spec_current();
            let ghost mut d: Seq<int> = Seq::empty();
            let ghost old_done = done;
            proof {
                lexer.lemma_stream();
                if primed && current is Some {
                    d = lemma_group_starts(s, a, current.unwrap(), b);
                    done = done + d;
                    assert(lex_starts(s, start) =~= done + lex_starts(s, b));
                }
            }
            match lexer.consume() {
                Some(LexerResult::Success(mut reference)) => {
                    proof {
                        lemma_token_group_text(s, a, reference, b);
                        lemma_all_tokens_display(reference);
                        lemma_display_tokens_append(tokens@, reference.spec_all_tokens());
                        assert(s.subrange(start, a) + s.subrange(a, b) =~= s.subrange(start, b));
                    }
                    let ghost before = tokens@;
                    let ghost all = reference.spec_all_tokens();
                    tokens.append(&mut reference.leading_trivia);
                    tokens.push(reference.token);
                    tokens.append(&mut reference.trailing_trivia);
                    proof {
                        assert(tokens@ =~= before + all);
                        if primed {
                            assert forall|k: int| 0 <= k < done.len() implies (#[trigger] lex_error(
                                s,
                                done[k],
                            )) is None <== errors@.len() == 0 by {
                                if k >= old_done.len() {
                                    assert(done[k] == d[k - old_done.len()]);
                                } else {
                                    assert(done[k] == old_done[k]);
                                }
                            }
                            assert forall|k: int| 0 <= k < old_done.len() implies (#[trigger] lex_error(
                                s,
                                old_done[k],
                            )) is None <== (forall|k2: int|
                                0 <= k2 < done.len() ==> (#[trigger] lex_error(s, done[k2])) is None) by {
                                assert(done[k] == old_done[k]);
                            }
                        }
                    }
                },
                Some(LexerResult::Recovered(mut reference, mut new_errors)) => {
                    proof {
                        assert(primed);
                        assert(false);
                    }
                    tokens.append(&mut reference.leading_trivia);
                    tokens.push(reference.token);
                    tokens.append(&mut reference.trailing_trivia);
                    errors.append(&mut new_errors);
                },
                Some(LexerResult::Fatal(mut new_errors)) => {
                    proof {
                        lemma_group_error_nonempty(s, a, new_errors@, b);
                    }
                    errors.append(&mut new_errors);
                    proof {
                        let last = done.len() - 1;
                        assert(done[last] == d.last());
                        assert(lex_error(s, done[last]) is Some);
                    }
                },
                None => {
                    more = false;
                },
            }
        }
        proof {
            if primed {
                lexer.lemma_stream();
                lemma_lex_starts(s, 0);
                assert(lex_starts(s, s.len() as int) == seq![s.len() as int]);
                if start == 0 {
                    let st = lex_starts(s, 0);
                    assert(st.len() == done.len() + 1);
                    assert forall|k: int| 0 <= k < done.len() implies st[k] == done[k] by {}
                    if errors@.len() == 0 {
                        assert forall|k: int| 0 <= k < st.len() - 1 implies (#[trigger] lex_error(
                            s,
                            st[k],
                        )) is None by {
                            assert(st[k] == done[k]);
                        }
                    } else {
                        let k = choose|k: int|
                            0 <= k < done.len() && !((#[trigger] lex_error(s, done[k])) is None);
                        assert(st[k] == done[k]);
                    }
                }
            }
        }
        LexerResult::new(tokens, errors)
    }

    /// What a well formed stream of token references promises.
    proof fn lemma_stream(&self)
        requires
            self.stream_wf(),
        ensures
            self.is_primed() ==> 0 <= self.stream_start() <= self.stream_mid() <= self.text().len(),
            self.is_primed() && self.spec_current() is Some ==> self.stream_start()
                < self.stream_mid() || self.spec_peek() is None,
            self.is_primed() && self.spec_current() is None ==> self.stream_start()
                == self.text().len(),
            self.is_primed() ==> group_step(
                self.text(),
                self.stream_start(),
                self.spec_current(),
                self.stream_mid(),
                self.stream@.2,
                self.stream_mid_eof(),
            ),
    {
        self.source.lemma_wf();
        let (a, b, ea, eb, primed) = self.stream@;
        let s = self.text();
        if primed && !ea {
            match self.next_token {
                Some(LexerResult::Success(tr)) => {
                    lemma_token_group_text(s, a, tr, b);
                    if a == b && !(tr.token.token_type is Eof) {
                        lemma_group_nonempty(s, a, tr, b);
                    }
                },
                Some(LexerResult::Fatal(errors)) => {
                    lemma_group_error_nonempty(s, a, errors@, b);
                },
                _ => {},
            }
        }
    }
}

impl Lexer {
    /// How much is left to give out: twice the characters from where the current token
    /// reference starts to the end, and one more while there is a current token reference.
    pub open spec fn remaining(&self) -> int {
        2 * (self.text().len() - self.stream_start()) + if self.spec_current() is Some {
            1int
        } else {
            0int
        }
    }
}

/// While a lexer has a current token reference, what is left to give out is no negative
/// amount, and there is a token reference after it unless it is the end of file.
pub proof fn lemma_current_facts(lexer: Lexer)
    requires
        lexer.stream_wf(),
        lexer.spec_current() is Some,
    ensures
        lexer.is_primed(),
        lexer.remaining() > 0,
        !(lexer.spec_current() matches Some(LexerResult::Success(t)) && t.token.token_type is Eof)
            ==> lexer.spec_peek() is Some,
{
    lexer.lemma_stream();
}

/// Giving out the current token reference leaves less to give out.
pub proof fn lemma_moved_on_remaining(before: Lexer, after: Lexer)
    requires
        before.stream_wf(),
        before.spec_current() is Some,
        lexer_moved_on(before, after),
    ensures
        0 <= after.remaining() < before.remaining(),
{
    before.lemma_stream();
    after.lemma_stream();
    if after.spec_current() is None {
        assert(after.is_primed());
    }
}

/// An end of file token reference that the lexer gives out holds the end of file token of
/// its source.
pub proof fn lemma_current_eof(lexer: Lexer, tr: TokenReference)
    requires
        lexer.stream_wf(),
        lexer.spec_current() == Some(LexerResult::<TokenReference>::Success(tr)) || (
        lexer.spec_current() matches Some(LexerResult::Recovered(t, _)) && t == tr),
        tr.token.token_type is Eof,
    ensures
        is_eof_token(lexer.text(), tr.token),
{
    lexer.lemma_stream();
    let s = lexer.text();
    let a = lexer.stream_start();
    let all = tr.spec_all_tokens();
    assert(all[tr.leading_trivia@.len() as int] == tr.token);
    lemma_eof_run_end(s, a, all, tr.leading_trivia@.len() as int);
}

/// The lexer gives out the source token reference by token reference: the one at its front
/// prints as the source from where it starts to where the one after it starts.
pub proof fn lemma_current_text(lexer: Lexer, tr: TokenReference)
    requires
        lexer.stream_wf(),
        lexer.is_primed(),
        lexer.spec_current() == Some(LexerResult::<TokenReference>::Success(tr)),
    ensures
        0 <= lexer.stream_start() <= lexer.stream_mid() <= lexer.text().len(),
        tr.spec_display() == lexer.text().subrange(lexer.stream_start(), lexer.stream_mid()),
{
    lexer.lemma_stream();
    lemma_token_group_text(lexer.text(), lexer.stream_start(), tr, lexer.stream_mid());
}

/// The token reference or error at the front of the lexer covers the lexemes from where it
/// starts to where the one after it starts: none of them an error for a token reference,
/// which prints as those lexemes and, at the end of file, reaches the end of the source; the
/// last of them the one error held, for an error.
pub proof fn lemma_current_lexemes(lexer: Lexer)
    requires
        lexer.stream_wf(),
        lexer.is_primed(),
        lexer.spec_current() is Some,
    ensures
        ({
            let s = lexer.text();
            let a = lexer.stream_start();
            let b = lexer.stream_mid();
            let d = lexemes_between(s, a, b);
            &&& 0 <= a <= b <= s.len()
            &&& lexes_on_to(s, a, b)
            &&& lexer.spec_current() matches Some(LexerResult::Success(tr)) ==> {
                &&& no_lex_error(s, d)
                &&& tr.spec_display() == s.subrange(a, b)
                &&& tr.token.token_type is Eof ==> b == s.len()
            }
            &&& lexer.spec_current() matches Some(LexerResult::Fatal(errors)) ==> {
                &&& d.len() > 0
                &&& no_lex_error(s, d.drop_last())
                &&& errors@.len() == 1
                &&& lex_error(s, d.last()) == Some(errors@[0].error)
                &&& is_position_at(errors@[0].range.0, s, d.last())
                &&& is_position_at(errors@[0].range.1, s, lex_end(s, d.last()))
            }
            &&& !(lexer.spec_current() matches Some(LexerResult::Recovered(_, _)))
        }),
{
    lexer.lemma_stream();
    let s = lexer.text();
    let a = lexer.stream_start();
    let b = lexer.stream_mid();
    let r = lexer.spec_current().unwrap();
    if !lexer.stream@.2 {
        let d = lemma_group_starts(s, a, r, b);
        lemma_lexes_on_to(s, a, d, b);
        if let LexerResult::Success(tr) = r {
            lemma_token_group_text(s, a, tr, b);
            if tr.token.token_type is Eof {
                let all = tr.spec_all_tokens();
                assert(all[tr.leading_trivia@.len() as int] == tr.token);
                lemma_eof_run_end(s, a, all, tr.leading_trivia@.len() as int);
            }
        }
    }
}

/// The token of the token reference at the front of the lexer, unless it is the end of file,
/// is lexed, with no error, at one of the lexemes the reference covers: the `k`th.
pub proof fn lemma_current_token_lexed(lexer: Lexer, tr: TokenReference) -> (k: int)
    requires
        lexer.stream_wf(),
        lexer.is_primed(),
        lexer.spec_current() == Some(LexerResult::<TokenReference>::Success(tr)),
        !(tr.token.token_type is Eof),
    ensures
        ({
            let s = lexer.text();
            let d = lexemes_between(s, lexer.stream_start(), lexer.stream_mid());
            &&& 0 <= k < d.len()
            &&& lex_error(s, d[k]) is None
            &&& token_lexed(s, d[k], lex_end(s, d[k]), tr.token)
        }),
{
    lexer.lemma_stream();
    let s = lexer.text();
    let a = lexer.stream_start();
    let all = tr.spec_all_tokens();
    assert(all[tr.leading_trivia@.len() as int] == tr.token);
    lemma_run_token_at(s, a, all, tr.leading_trivia@.len() as int)
}

/// In an empty source, the front of a lexer that has one is the end of file.
pub proof fn lemma_empty_source_front(lexer: Lexer)
    requires
        lexer.stream_wf(),
        lexer.is_primed(),
        lexer.spec_current() is Some,
        lexer.text().len() == 0,
    ensures
        lexer.spec_current() matches Some(LexerResult::Success(tr)) && tr.token.token_type is Eof,
{
    lexer.lemma_stream();
    let s = lexer.text();
    let a = lexer.stream_start();
    let b = lexer.stream_mid();
    match lexer.spec_current().unwrap() {
        LexerResult::Success(tr) => {
            let all = tr.spec_all_tokens();
            assert(all[tr.leading_trivia@.len() as int] == tr.token);
        },
        LexerResult::Fatal(errors) => {
            let lead = choose|lead: Seq<Token>|
                {
                    let m = #[trigger] lexed_run_end(s, a, lead);
                    &&& lexed_run(s, a, lead)
                    &&& all_trivia(lead)
                    &&& 0 <= m < s.len()
                    &&& errors@.len() == 1
                    &&& lex_error(s, m) == Some(errors@[0].error)
                    &&& is_position_at(errors@[0].range.0, s, m)
                    &&& is_position_at(errors@[0].range.1, s, lex_end(s, m))
                    &&& b == lex_end(s, m)
                };
        },
        LexerResult::Recovered(_, _) => {},
    }
}

/// The display of all tokens of a reference is the display of the reference.
pub proof fn lemma_all_tokens_display(tr: TokenReference)
    ensures
        display_tokens(tr.spec_all_tokens()) == tr.spec_display(),
{
    lemma_display_tokens_append(tr.leading_trivia@ + seq![tr.token], tr.trailing_trivia@);
    lemma_display_tokens_append(tr.leading_trivia@, seq![tr.token]);
    assert(seq![tr.token].drop_first() =~= Seq::<Token>::empty());
    assert(display_tokens(Seq::<Token>::empty()) == Seq::<char>::empty());
    assert(display_tokens(seq![tr.token]) == seq![tr.token][0].spec_display() + display_tokens(
        seq![tr.token].drop_first(),
    ));
    assert(display_tokens(seq![tr.token]) =~= tr.token.spec_display());
}

/// A group whose token is not the end of file takes at least one character.
proof fn lemma_group_nonempty(s: Seq<char>, i: int, tr: TokenReference, j: int)
    requires
        0 <= i <= s.len(),
        is_token_group(s, i, tr, j),
        !(tr.token.token_type is Eof),
    ensures
        i < j,
{
    lemma_token_group_text(s, i, tr, j);
    let all = tr.spec_all_tokens();
    let k = tr.leading_trivia@.len() as int;
    assert(all[k] == tr.token);
    lemma_run_nonempty(s, i, all, k);
}

/// A run that holds a token other than the end of file moves past at least one character.
proof fn lemma_run_nonempty(s: Seq<char>, i: int, v: Seq<Token>, k: int)
    requires
        0 <= i <= s.len(),
        lexed_run(s, i, v),
        0 <= k < v.len(),
        !(v[k].token_type is Eof),
    ensures
        i < lexed_run_end(s, i, v),
    decreases v.len(),
{
    if i >= s.len() {
        assert(false);
    }
    lemma_lex_progress(s, i);
    lemma_lexed_run_bounds(s, lex_end(s, i), v.drop_first());
}

/// An error met while grouping moves past at least one character, and holds one error.
proof fn lemma_group_error_nonempty(s: Seq<char>, i: int, errors: Seq<TokenizerError>, j: int)
    requires
        0 <= i <= s.len(),
        is_group_error(s, i, errors, j),
    ensures
        i < j,
        errors.len() == 1,
{
    let lead = choose|lead: Seq<Token>|
        {
            let m = #[trigger] lexed_run_end(s, i, lead);
            &&& lexed_run(s, i, lead)
            &&& all_trivia(lead)
            &&& 0 <= m < s.len()
            &&& errors.len() == 1
            &&& lex_error(s, m) == Some(errors[0].error)
            &&& is_position_at(errors[0].range.0, s, m)
            &&& is_position_at(errors[0].range.1, s, lex_end(s, m))
            &&& j == lex_end(s, m)
        };
    lemma_lexed_run_bounds(s, i, lead);
    lemma_lex_progress(s, lexed_run_end(s, i, lead));
}

/// Grouping moves the lexer forward, to the end of the source once the end of file is out.
proof fn lemma_group_step_bounds(
    s: Seq<char>,
    i: int,
    r: Option<LexerResult<TokenReference>>,
    j: int,
    eof_before: bool,
    eof_after: bool,
)
    requires
        0 <= i <= s.len(),
        group_step(s, i, r, j, eof_before, eof_after),
    ensures
        i <= j <= s.len(),
        eof_after ==> j == s.len() || eof_before,
{
    if !eof_before {
        match r {
            Some(LexerResult::Success(tr)) => lemma_token_group_text(s, i, tr, j),
            Some(LexerResult::Fatal(errors)) => {
                let lead = choose|lead: Seq<Token>|
                    {
                        let m = #[trigger] lexed_run_end(s, i, lead);
                        &&& lexed_run(s, i, lead)
                        &&& all_trivia(lead)
                        &&& 0 <= m < s.len()
                        &&& errors@.len() == 1
                        &&& lex_error(s, m) == Some(errors@[0].error)
                        &&& is_position_at(errors@[0].range.0, s, m)
                        &&& is_position_at(errors@[0].range.1, s, lex_end(s, m))
                        &&& j == lex_end(s, m)
                    };
                lemma_lexed_run_bounds(s, i, lead);
                lemma_lex_progress(s, lexed_run_end(s, i, lead));
            },
            _ => {},
        }
    }
}

/// The tokens of a source follow one another: each ends, in bytes, where the next begins;
/// the first begins at the start of the source, and the last, the end of file, ends at its
/// end.
pub proof fn lemma_tokens_contiguous(s: Seq<char>, v: Seq<Token>)
    requires
        lexes_to(s, v),
    ensures
        forall|k: int|
            0 <= k < v.len() - 1 ==> (#[trigger] v[k]).end_position.bytes == v[k
                + 1].start_position.bytes,
        v[0].start_position == (Position { bytes: 0, line: 1, character: 1 }),
        v.last().end_position.bytes == spec_bytes_at(s, s.len() as int),
{
    reveal(token_lexed);
    lemma_lex_starts(s, 0);
    let st = lex_starts(s, 0);
    assert forall|k: int| 0 <= k < v.len() - 1 implies (#[trigger] v[k]).end_position.bytes
        == v[k + 1].start_position.bytes by {
        assert(token_lexed(s, st[k], st[k + 1], v[k]));
        if k + 1 < v.len() - 1 {
            assert(token_lexed(s, st[k + 1], st[k + 2], v[k + 1]));
        }
    }
    if v.len() > 1 {
        assert(token_lexed(s, st[0], st[1], v[0]));
    }
}

/// Tokenizes `code`, stopping at the first error.
pub fn tokens(code: &str) -> (r: Result<Vec<Token>, TokenizerError>)
    requires
        source_fits(code@),
    ensures
        r is Ok <==> lexes_cleanly(code@),
        r matches Ok(v) ==> lexes_to(code@, v@) && display_tokens(v@) == code@,
        r matches Err(e) ==> first_lex_error(code@, e),
{
    let ghost s = code@;
    let mut lexer = Lexer::new_lazy(code);
    let mut v: Vec<Token> = Vec::new();
    let ghost mut done: Seq<int> = Seq::empty();
    proof {
        lemma_lex_starts(s, 0);
    }
    loop
        invariant
            s == code@,
            lexer.wf(),
            lexer.text() == s,
            !lexer.has_sent_eof(),
            0 <= lexer.index() <= s.len(),
            lex_starts(s, 0) == done + lex_starts(s, lexer.index()),
            v@.len() == done.len(),
            forall|k: int|
                0 <= k < done.len() ==> (#[trigger] lex_error(s, done[k])) is None,
            forall|k: int|
                0 <= k < done.len() ==> token_lexed(s, done[k], lex_end(s, done[k]), #[trigger] v@[k]),
        decreases s.len() - lexer.index(),
    {
        let ghost i = lexer.index();
        proof {
            if i < s.len() {
                lemma_lex_progress(s, i);
            }
        }
        match lexer.process_next() {
            Some(LexerResult::Success(token)) => {
                let is_eof = match token.token_type {
                    TokenType::Eof => true,
                    _ => false,
                };
                proof {
                    if i < s.len() {
                        reveal(token_lexed);
                        assert(!is_eof);
                    }
                }
                v.push(token);
                if is_eof {
                    proof {
                        lemma_finish_tokens(s, done, v@);
                        lemma_tokens_print_back(s, v@);
                    }
                    return Ok(v);
                }
                proof {
                    lemma_lex_starts_step(s, done, i);
                    done = done.push(i);
                }
            },
            Some(LexerResult::Fatal(errors)) => {
                let error = errors[0].clone();
                proof {
                    lemma_tokens_error(s, done, i, error);
                }
                return Err(error);
            },
            _ => {
                proof {
                    assert(false);
                }
                return Err(TokenizerError {
                    error: TokenizerErrorType::UnexpectedShebang,
                    range: (Position { bytes: 0, line: 0, character: 0 }, Position { bytes: 0, line: 0, character: 0 }),
                });
            },
        }
    }
}

} // verus!
