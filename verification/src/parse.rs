//! The parser: from tokens to the syntax tree.

use vstd::prelude::*;
use vstd::string::*;
use crate::ast::{
    Account, AccountField, Accounts, AccountsField, AccountsFieldView, AccountsView, Contract,
    ContractView, Definitions, DefinitionsView, FieldView, Identifer, IdentiferView, Instruction,
    InstructionView, Message, MessageField, RecordView, Type,
};
use crate::error::{SolGenError, SolGenErrorView};
use crate::lexer::{
    byte_len, lemma_next_token_bounds, next_index, next_token, span_within, text_of, Lexer,
};
use crate::emit::{decimal, decimal_string};
use crate::text::{char_debug, char_debug_string, chars_of, parse_u8, u8_of, views};
use crate::token::{Span, Token, TokenType};

verus! {

/// The tokens of `src` from its `pos`-th character on.
pub open spec fn token_stream(src: Seq<char>, pos: int) -> Seq<Token>
    decreases src.len() - pos,
{
    match next_token(src, pos) {
        Some(t) => if pos < next_index(src, pos) <= src.len() {
            seq![t] + token_stream(src, next_index(src, pos))
        } else {
            seq![t]
        },
        None => Seq::empty(),
    }
}

/// Whether the span of every token of `ts` is a range of bytes of `src`
/// that holds whole characters.
pub open spec fn tokens_within(ts: Seq<Token>, src: Seq<char>) -> bool {
    forall|i: int| 0 <= i < ts.len() ==> span_within(src, (#[trigger] ts[i]).span)
}

/// Every token of a text covers a range of the text.
pub proof fn lemma_token_stream_within(src: Seq<char>, pos: int)
    requires
        0 <= pos <= src.len(),
        byte_len(src) <= usize::MAX,
    ensures
        tokens_within(token_stream(src, pos), src),
    decreases src.len() - pos,
{
    lemma_next_token_bounds(src, pos);
    match next_token(src, pos) {
        Some(t) => {
            lemma_token_stream_within(src, next_index(src, pos));
            let rest = token_stream(src, next_index(src, pos));
            let all = token_stream(src, pos);
            assert forall|i: int| 0 <= i < all.len() implies span_within(
                src,
                (#[trigger] all[i]).span,
            ) by {
                if i > 0 {
                    assert(all[i] == rest[i - 1]);
                }
            }
        },
        None => {},
    }
}

/// The name of a token kind, as error messages give it: the name of the
/// kind, with the character of an invalid character in its `Debug` form.
pub open spec fn kind_name(k: TokenType) -> Seq<char> {
    match k {
        TokenType::Account => "Account"@,
        TokenType::Accounts => "Accounts"@,
        TokenType::Contract => "Contract"@,
        TokenType::Init => "Init"@,
        TokenType::Instruction => "Instruction"@,
        TokenType::Message => "Message"@,
        TokenType::Mutable => "Mutable"@,
        TokenType::Bool => "Bool"@,
        TokenType::Option => "Option"@,
        TokenType::Signer => "Signer"@,
        TokenType::Str => "Str"@,
        TokenType::U64 => "U64"@,
        TokenType::U8 => "U8"@,
        TokenType::Identifer => "Identifer"@,
        TokenType::Intager => "Intager"@,
        TokenType::Comma => "Comma"@,
        TokenType::Assign => "Assign"@,
        TokenType::Colon => "Colon"@,
        TokenType::SimiColon => "SimiColon"@,
        TokenType::LParam => "LParam"@,
        TokenType::RParam => "RParam"@,
        TokenType::LBrace => "LBrace"@,
        TokenType::RBrace => "RBrace"@,
        TokenType::LBracket => "LBracket"@,
        TokenType::RBracket => "RBracket"@,
        TokenType::InvalidChar(c) => "InvalidChar("@ + char_debug(c) + ")"@,
    }
}

/// A token in full, as error messages give it: its span and its kind.
pub open spec fn token_text(t: Token) -> Seq<char> {
    "Token { span: Span { start: "@ + decimal(t.span.start as nat) + ", end: "@ + decimal(
        t.span.end as nat,
    ) + " }, type: "@ + kind_name(t.kind) + " }"@
}

/// How error messages name the token that was found: `Some(..)` around the
/// token in full, or `None` at the end of the text.
pub open spec fn found_name(t: Option<Token>) -> Seq<char> {
    match t {
        Some(t) => "Some("@ + token_text(t) + ")"@,
        None => "None"@,
    }
}

/// The name of a token kind.
pub fn token_kind_name(k: TokenType) -> (r: String)
    ensures
        r@ == kind_name(k),
{
    match k {
        TokenType::Account => String::from_str("Account"),
        TokenType::Accounts => String::from_str("Accounts"),
        TokenType::Contract => String::from_str("Contract"),
        TokenType::Init => String::from_str("Init"),
        TokenType::Instruction => String::from_str("Instruction"),
        TokenType::Message => String::from_str("Message"),
        TokenType::Mutable => String::from_str("Mutable"),
        TokenType::Bool => String::from_str("Bool"),
        TokenType::Option => String::from_str("Option"),
        TokenType::Signer => String::from_str("Signer"),
        TokenType::Str => String::from_str("Str"),
        TokenType::U64 => String::from_str("U64"),
        TokenType::U8 => String::from_str("U8"),
        TokenType::Identifer => String::from_str("Identifer"),
        TokenType::Intager => String::from_str("Intager"),
        TokenType::Comma => String::from_str("Comma"),
        TokenType::Assign => String::from_str("Assign"),
        TokenType::Colon => String::from_str("Colon"),
        TokenType::SimiColon => String::from_str("SimiColon"),
        TokenType::LParam => String::from_str("LParam"),
        TokenType::RParam => String::from_str("RParam"),
        TokenType::LBrace => String::from_str("LBrace"),
        TokenType::RBrace => String::from_str("RBrace"),
        TokenType::LBracket => String::from_str("LBracket"),
        TokenType::RBracket => String::from_str("RBracket"),
        TokenType::InvalidChar(c) => {
            String::from_str("InvalidChar(").concat(char_debug_string(c).as_str()).concat(")")
        },
    }
}

/// A token in full.
pub fn token_full_text(t: Token) -> (r: String)
    ensures
        r@ == token_text(t),
{
    String::from_str("Token { span: Span { start: ").concat(
        decimal_string(t.span.start).as_str(),
    ).concat(", end: ").concat(decimal_string(t.span.end).as_str()).concat(" }, type: ").concat(
        token_kind_name(t.kind).as_str(),
    ).concat(" }")
}

/// The name of the token that was found.
pub fn token_found_name(t: Option<Token>) -> (r: String)
    ensures
        r@ == found_name(t),
{
    match t {
        Some(t) => String::from_str("Some(").concat(token_full_text(t).as_str()).concat(")"),
        None => String::from_str("None"),
    }
}

/// The first token of `ts`, if there is one.
pub open spec fn first(ts: Seq<Token>) -> Option<Token> {
    if ts.len() > 0 {
        Some(ts[0])
    } else {
        None
    }
}

/// The tokens of a text with a lookahead of two: the current token and the
/// one after it.
pub struct TokenHandler<'a> {
    pub lexer: Lexer<'a>,
    pub curr: Option<Token>,
    pub next: Option<Token>,
}

impl<'a> View for TokenHandler<'a> {
    type V = Seq<Token>;

    /// The tokens that are left, the current one first.
    open spec fn view(&self) -> Seq<Token> {
        match (self.curr, self.next) {
            (Some(a), Some(b)) => seq![a, b] + token_stream(
                self.lexer.source(),
                self.lexer.index(),
            ),
            (Some(a), None) => seq![a],
            (None, _) => Seq::empty(),
        }
    }
}

impl<'a> TokenHandler<'a> {
    /// The text that is read.
    pub open spec fn source(&self) -> Seq<char> {
        self.lexer.source()
    }

    /// Whether the two tokens read ahead are the next two of the text, and
    /// every token that is left covers a range of the text.
    pub open spec fn wf(&self) -> bool {
        &&& self.lexer.wf()
        &&& (self.curr is None ==> self.next is None)
        &&& (self.next is None ==> token_stream(self.lexer.source(), self.lexer.index()).len()
            == 0)
        &&& tokens_within(self@, self.lexer.source())
    }

    /// Starts at the lexer's place, with its next two tokens read ahead.
    pub fn new(lexer: Lexer<'a>) -> (r: Self)
        requires
            lexer.wf(),
        ensures
            r.wf(),
            r.source() == lexer.source(),
            r@ == token_stream(lexer.source(), lexer.index()),
    {
        let mut lexer = lexer;
        let ghost src = lexer.source();
        let ghost p0 = lexer.index();
        proof {
            lexer.lemma_bounds();
            lemma_next_token_bounds(src, p0);
            lemma_token_stream_within(src, p0);
        }
        let curr = lexer.next();
        let ghost p1 = lexer.index();
        proof {
            lemma_next_token_bounds(src, p1);
        }
        let next = lexer.next();
        let r = TokenHandler { lexer, curr, next };
        proof {
            if curr is None {
                assert(next_token(src, p1) is None) by {
                    lemma_skip_to_end(src, p0);
                }
            }
            if next is None {
                lemma_skip_to_end(src, p1);
            }
            match curr {
                Some(a) => {
                    assert(token_stream(src, p0) == seq![a] + token_stream(src, p1));
                    match next {
                        Some(b) => {
                            assert(token_stream(src, p1) == seq![b] + token_stream(
                                src,
                                r.lexer.index(),
                            ));
                        },
                        None => {},
                    }
                },
                None => {},
            }
            assert(r@ =~= token_stream(src, p0));
        }
        r
    }

    /// The current token.
    pub fn curr(&mut self) -> (r: Option<Token>)
        ensures
            *final(self) == *old(self),
            r == first(old(self)@),
    {
        self.curr
    }

    /// The token after the current one.
    pub fn peek(&self) -> (r: Option<Token>)
        requires
            self.wf(),
        ensures
            r == if self@.len() > 1 {
                Some(self@[1])
            } else {
                None
            },
    {
        self.next
    }

    /// Moves one token on and returns the token that was current.
    pub fn bump(&mut self) -> (r: Option<Token>)
        requires
            old(self).wf(),
        ensures
            final(self).wf(),
            final(self).source() == old(self).source(),
            r == first(old(self)@),
            final(self)@ == if old(self)@.len() > 0 {
                old(self)@.skip(1)
            } else {
                old(self)@
            },
    {
        let ghost src = self.lexer.source();
        let ghost p = self.lexer.index();
        proof {
            self.lexer.lemma_bounds();
            lemma_next_token_bounds(src, p);
        }
        let r = self.curr;
        self.curr = self.next;
        self.next = self.lexer.next();
        proof {
            if self.next is None {
                lemma_skip_to_end(src, p);
            }
            if old(self)@.len() > 0 {
                assert(self@ =~= old(self)@.skip(1));
            } else {
                assert(self@ =~= old(self)@);
            }
            assert(tokens_within(self@, src)) by {
                assert forall|i: int| 0 <= i < self@.len() implies span_within(
                    src,
                    (#[trigger] self@[i]).span,
                ) by {
                    assert(self@[i] == old(self)@[i + 1]);
                }
            }
        }
        r
    }

    /// Returns the current token and moves past it if it is of kind `ty`; fails
    /// and stays otherwise.
    pub fn consume_if(&mut self, ty: TokenType) -> (r: Result<Token, SolGenError>)
        requires
            old(self).wf(),
        ensures
            final(self).wf(),
            final(self).source() == old(self).source(),
            match r {
                Ok(t) => expect(old(self)@, ty) == Ok::<(Token, Seq<Token>), SolGenErrorView>(
                    (t, final(self)@),
                ),
                Err(e) => expect(old(self)@, ty) == Err::<(Token, Seq<Token>), SolGenErrorView>(e@)
                    && final(self)@ == old(self)@,
            },
    {
        match self.curr {
            Some(t) => {
                if t.kind == ty {
                    self.bump();
                    return Ok(t);
                }
            },
            None => {},
        }
        Err(SolGenError::ExpectedToken(token_kind_name(ty), token_found_name(self.curr)))
    }

    /// The text that a span covers: the characters that its bytes write. The
    /// span holds whole characters.
    pub fn src_span(&self, span: Span) -> (r: &'a str)
        requires
            self.lexer.wf(),
            span_within(self.source(), span),
        ensures
            r@ == text_of(self.source(), span),
    {
        self.lexer.src_span(span)
    }
}

/// Where only white space is left, it is left from the end of the text too.
pub proof fn lemma_skip_to_end(src: Seq<char>, pos: int)
    requires
        0 <= pos <= src.len(),
        byte_len(src) <= usize::MAX,
        next_token(src, pos) is None,
    ensures
        next_token(src, src.len() as int) is None,
        token_stream(src, pos).len() == 0,
        token_stream(src, src.len() as int).len() == 0,
{
}

/// What a parsing step gives: a value and the tokens that are left, or the
/// error.
pub type Parsed<T> = Result<(T, Seq<Token>), SolGenErrorView>;

/// The first token if it is of kind `kind`, else the error that names both.
pub open spec fn expect(ts: Seq<Token>, kind: TokenType) -> Parsed<Token> {
    if ts.len() > 0 && ts[0].kind == kind {
        Ok((ts[0], ts.skip(1)))
    } else {
        Err(SolGenErrorView::ExpectedToken(kind_name(kind), found_name(first(ts))))
    }
}

/// The parser of the schema language. It reads one declaration at a time and
/// stops at the first error.
pub struct Parser<'src> {
    lexer: TokenHandler<'src>,
}

impl<'src> View for Parser<'src> {
    type V = Seq<Token>;

    /// The tokens that are left.
    closed spec fn view(&self) -> Seq<Token> {
        self.lexer@
    }
}

impl<'src> Parser<'src> {
    /// The text that is parsed.
    pub closed spec fn source(&self) -> Seq<char> {
        self.lexer.source()
    }

    /// Whether the tokens of the parser are well formed.
    pub closed spec fn wf(&self) -> bool {
        self.lexer.wf()
    }

    /// A parser of the tokens that `lexer` hands out.
    pub fn new(lexer: Lexer<'src>) -> (r: Self)
        requires
            lexer.wf(),
        ensures
            r.wf(),
            r.source() == lexer.source(),
            r@ == token_stream(lexer.source(), lexer.index()),
    {
        Parser { lexer: TokenHandler::new(lexer) }
    }

    /// Parses a whole schema: any number of messages, accounts and account
    /// lists, and exactly one contract.
    pub fn parse(self) -> (r: Result<Definitions<'src>, SolGenError>)
        requires
            self.wf(),
        ensures
            match r {
                Ok(d) => definitions(self.source(), self@) == Ok::<
                    DefinitionsView,
                    SolGenErrorView,
                >(d@),
                Err(e) => definitions(self.source(), self@) == Err::<
                    DefinitionsView,
                    SolGenErrorView,
                >(e@),
            },
    {
        let mut this = self;
        let mut account_defs: Vec<Account<'src>> = Vec::new();
        let mut accounts_defs: Vec<Accounts<'src>> = Vec::new();
        let mut contract_def: Option<Contract<'src>> = None;
        let mut message_defs: Vec<Message<'src>> = Vec::new();
        let ghost src = self.source();
        let ghost goal = definitions(src, self@);
        proof {
            assert(views(message_defs@) =~= Seq::<RecordView>::empty());
            assert(views(account_defs@) =~= Seq::<RecordView>::empty());
            assert(views(accounts_defs@) =~= Seq::<AccountsView>::empty());
        }
        loop
            invariant
                this.wf(),
                this.source() == src,
                src == self.source(),
                goal == definitions(src, self@),
                goal == definitions_from(
                    src,
                    this@,
                    Partial {
                        message: views(message_defs@),
                        account: views(account_defs@),
                        accounts: views(accounts_defs@),
                        contract: match contract_def {
                            Some(c) => Some(c@),
                            None => None,
                        },
                    },
                ),
            decreases this@.len(),
        {
            let ghost before = this@;
            match this.lexer.curr() {
                None => {
                    return match contract_def {
                        Some(c) => Ok(
                            Definitions {
                                message: message_defs,
                                account: account_defs,
                                accounts: accounts_defs,
                                contract: c,
                            },
                        ),
                        None => Err(SolGenError::MissingContract),
                    };
                },
                Some(token) => {
                    match token.kind {
                        TokenType::Account => {
                            let a = this.parse_account()?;
                            proof {
                                assert(views(account_defs@.push(a)) =~= views(account_defs@).push(
                                    a@,
                                ));
                            }
                            account_defs.push(a);
                        },
                        TokenType::Accounts => {
                            let a = this.parse_accounts()?;
                            proof {
                                assert(views(accounts_defs@.push(a)) =~= views(
                                    accounts_defs@,
                                ).push(a@));
                            }
                            accounts_defs.push(a);
                        },
                        TokenType::Contract => {
                            if contract_def.is_some() {
                                return Err(SolGenError::DuplicateContract);
                            }
                            contract_def = Some(this.parse_contract()?);
                        },
                        TokenType::Message => {
                            let m = this.parse_message()?;
                            proof {
                                assert(views(message_defs@.push(m)) =~= views(message_defs@).push(
                                    m@,
                                ));
                            }
                            message_defs.push(m);
                        },
                        TokenType::InvalidChar(ch) => {
                            return Err(SolGenError::InvalidChar(ch));
                        },
                        token_ty => {
                            return Err(
                                SolGenError::ExpectedToken(
                                    String::from_str("account, accounts, or contract"),
                                    token_kind_name(token_ty),
                                ),
                            );
                        },
                    }
                },
            }
        }
    }

    /// Parses a message: `message name { field* }`.
    pub fn parse_message(&mut self) -> (r: Result<Message<'src>, SolGenError>)
        requires
            old(self).wf(),
        ensures
            final(self).wf(),
            final(self).source() == old(self).source(),
            match r {
                Ok(m) => record(old(self).source(), old(self)@, TokenType::Message) == Ok::<
                    (RecordView, Seq<Token>),
                    SolGenErrorView,
                >((m@, final(self)@)) && final(self)@.len() < old(self)@.len(),
                Err(e) => record(old(self).source(), old(self)@, TokenType::Message) == Err::<
                    (RecordView, Seq<Token>),
                    SolGenErrorView,
                >(e@),
            },
    {
        let first = self.lexer.consume_if(TokenType::Message)?;
        let name = self.parse_identifer()?;
        let _l_brace = self.lexer.consume_if(TokenType::LBrace)?;
        let fields = self.parse_payload_fields()?;
        let r_brace = self.lexer.consume_if(TokenType::RBrace)?;
        Ok(Message { span: Span { start: first.span.start, end: r_brace.span.end }, name, fields })
    }

    /// Parses the fields of a message up to the closing brace.
    pub fn parse_payload_fields(&mut self) -> (r: Result<Vec<MessageField<'src>>, SolGenError>)
        requires
            old(self).wf(),
        ensures
            final(self).wf(),
            final(self).source() == old(self).source(),
            match r {
                Ok(fs) => fields_from(old(self).source(), old(self)@, Seq::empty()) == Ok::<
                    (Seq<FieldView>, Seq<Token>),
                    SolGenErrorView,
                >((views(fs@), final(self)@)) && final(self)@.len() <= old(self)@.len(),
                Err(e) => fields_from(old(self).source(), old(self)@, Seq::empty()) == Err::<
                    (Seq<FieldView>, Seq<Token>),
                    SolGenErrorView,
                >(e@),
            },
    {
        let mut fields: Vec<MessageField<'src>> = Vec::new();
        let ghost src = self.source();
        let ghost goal = fields_from(src, self@, Seq::empty());
        proof {
            assert(views(fields@) =~= Seq::<FieldView>::empty());
        }
        loop
            invariant
                self.wf(),
                self.source() == src,
                src == old(self).source(),
                self@.len() <= old(self)@.len(),
                goal == fields_from(src, old(self)@, Seq::empty()),
                goal == fields_from(src, self@, views(fields@)),
            decreases self@.len(),
        {
            match self.lexer.curr() {
                None => {
                    return Ok(fields);
                },
                Some(token) => {
                    if token.kind == TokenType::RBrace {
                        return Ok(fields);
                    }
                },
            }
            let f = self.parse_payload_field()?;
            proof {
                assert(views(fields@.push(f)) =~= views(fields@).push(f@));
            }
            fields.push(f);
        }
    }

    /// Parses a field of a message: `name : type = number ;`.
    pub fn parse_payload_field(&mut self) -> (r: Result<MessageField<'src>, SolGenError>)
        requires
            old(self).wf(),
        ensures
            final(self).wf(),
            final(self).source() == old(self).source(),
            match r {
                Ok(f) => field(old(self).source(), old(self)@) == Ok::<
                    (FieldView, Seq<Token>),
                    SolGenErrorView,
                >((f@, final(self)@)) && final(self)@.len() < old(self)@.len(),
                Err(e) => field(old(self).source(), old(self)@) == Err::<
                    (FieldView, Seq<Token>),
                    SolGenErrorView,
                >(e@),
            },
    {
        let name = self.parse_identifer()?;
        let _colon = self.lexer.consume_if(TokenType::Colon)?;
        let ty = self.parse_type()?;
        let (number, end) = self.parse_id_suffix()?;
        Ok(MessageField { span: Span { start: name.span.start, end }, number, name, ty })
    }

    /// Parses an account: `account name { field* }`.
    pub fn parse_account(&mut self) -> (r: Result<Account<'src>, SolGenError>)
        requires
            old(self).wf(),
        ensures
            final(self).wf(),
            final(self).source() == old(self).source(),
            match r {
                Ok(m) => record(old(self).source(), old(self)@, TokenType::Account) == Ok::<
                    (RecordView, Seq<Token>),
                    SolGenErrorView,
                >((m@, final(self)@)) && final(self)@.len() < old(self)@.len(),
                Err(e) => record(old(self).source(), old(self)@, TokenType::Account) == Err::<
                    (RecordView, Seq<Token>),
                    SolGenErrorView,
                >(e@),
            },
    {
        let first = self.lexer.consume_if(TokenType::Account)?;
        let name = self.parse_identifer()?;
        let _l_brace = self.lexer.consume_if(TokenType::LBrace)?;
        let fields = self.parse_account_fields()?;
        let r_brace = self.lexer.consume_if(TokenType::RBrace)?;
        Ok(Account { span: Span { start: first.span.start, end: r_brace.span.end }, name, fields })
    }

    /// Parses the fields of an account up to the closing brace.
    pub fn parse_account_fields(&mut self) -> (r: Result<Vec<AccountField<'src>>, SolGenError>)
        requires
            old(self).wf(),
        ensures
            final(self).wf(),
            final(self).source() == old(self).source(),
            match r {
                Ok(fs) => fields_from(old(self).source(), old(self)@, Seq::empty()) == Ok::<
                    (Seq<FieldView>, Seq<Token>),
                    SolGenErrorView,
                >((views(fs@), final(self)@)) && final(self)@.len() <= old(self)@.len(),
                Err(e) => fields_from(old(self).source(), old(self)@, Seq::empty()) == Err::<
                    (Seq<FieldView>, Seq<Token>),
                    SolGenErrorView,
                >(e@),
            },
    {
        let mut fields: Vec<AccountField<'src>> = Vec::new();
        let ghost src = self.source();
        let ghost goal = fields_from(src, self@, Seq::empty());
        proof {
            assert(views(fields@) =~= Seq::<FieldView>::empty());
        }
        loop
            invariant
                self.wf(),
                self.source() == src,
                src == old(self).source(),
                self@.len() <= old(self)@.len(),
                goal == fields_from(src, old(self)@, Seq::empty()),
                goal == fields_from(src, self@, views(fields@)),
            decreases self@.len(),
        {
            match self.lexer.curr() {
                None => {
                    return Ok(fields);
                },
                Some(token) => {
                    if token.kind == TokenType::RBrace {
                        return Ok(fields);
                    }
                },
            }
            let f = self.parse_account_field()?;
            proof {
                assert(views(fields@.push(f)) =~= views(fields@).push(f@));
            }
            fields.push(f);
        }
    }

    /// Parses a field of an account: `name : type = number ;`.
    pub fn parse_account_field(&mut self) -> (r: Result<AccountField<'src>, SolGenError>)
        requires
            old(self).wf(),
        ensures
            final(self).wf(),
            final(self).source() == old(self).source(),
            match r {
                Ok(f) => field(old(self).source(), old(self)@) == Ok::<
                    (FieldView, Seq<Token>),
                    SolGenErrorView,
                >((f@, final(self)@)) && final(self)@.len() < old(self)@.len(),
                Err(e) => field(old(self).source(), old(self)@) == Err::<
                    (FieldView, Seq<Token>),
                    SolGenErrorView,
                >(e@),
            },
    {
        let name = self.parse_identifer()?;
        let _colon = self.lexer.consume_if(TokenType::Colon)?;
        let ty = self.parse_type()?;
        let (number, end) = self.parse_id_suffix()?;
        Ok(AccountField { span: Span { start: name.span.start, end }, number, name, ty })
    }

    /// Parses the type of a field: `u8`, `u64` or `bool`.
    pub fn parse_type(&mut self) -> (r: Result<Type, SolGenError>)
        requires
            old(self).wf(),
        ensures
            final(self).wf(),
            final(self).source() == old(self).source(),
            match r {
                Ok(t) => field_type(old(self)@) == Ok::<(Type, Seq<Token>), SolGenErrorView>(
                    (t, final(self)@),
                ) && final(self)@.len() < old(self)@.len(),
                Err(e) => field_type(old(self)@) == Err::<(Type, Seq<Token>), SolGenErrorView>(
                    e@,
                ),
            },
    {
        match self.lexer.bump() {
            None => Err(
                SolGenError::ExpectedToken(
                    String::from_str("u8, u64, or bool"),
                    String::from_str("None"),
                ),
            ),
            Some(token) => match token.kind {
                TokenType::U8 => Ok(Type::U8),
                TokenType::U64 => Ok(Type::U64),
                TokenType::Bool => Ok(Type::Bool),
                token_ty => Err(
                    SolGenError::ExpectedToken(
                        String::from_str("u8, u64, or bool"),
                        token_kind_name(token_ty),
                    ),
                ),
            },
        }
    }

    /// Parses the end of a member: `= number ;`. Returns the id and the offset
    /// at which the member ends.
    pub fn parse_id_suffix(&mut self) -> (r: Result<(u8, usize), SolGenError>)
        requires
            old(self).wf(),
        ensures
            final(self).wf(),
            final(self).source() == old(self).source(),
            match r {
                Ok(v) => id_suffix(old(self).source(), old(self)@) == Ok::<
                    ((u8, usize), Seq<Token>),
                    SolGenErrorView,
                >((v, final(self)@)) && final(self)@.len() < old(self)@.len(),
                Err(e) => id_suffix(old(self).source(), old(self)@) == Err::<
                    ((u8, usize), Seq<Token>),
                    SolGenErrorView,
                >(e@),
            },
    {
        let _assign = self.lexer.consume_if(TokenType::Assign)?;
        let number = self.parse_int()?;
        let simi_colon = self.lexer.consume_if(TokenType::SimiColon)?;
        Ok((number, simi_colon.span.end))
    }

    /// Parses an account list: `accounts name { entry* }`.
    pub fn parse_accounts(&mut self) -> (r: Result<Accounts<'src>, SolGenError>)
        requires
            old(self).wf(),
        ensures
            final(self).wf(),
            final(self).source() == old(self).source(),
            match r {
                Ok(a) => accounts(old(self).source(), old(self)@) == Ok::<
                    (AccountsView, Seq<Token>),
                    SolGenErrorView,
                >((a@, final(self)@)) && final(self)@.len() < old(self)@.len(),
                Err(e) => accounts(old(self).source(), old(self)@) == Err::<
                    (AccountsView, Seq<Token>),
                    SolGenErrorView,
                >(e@),
            },
    {
        let first = self.lexer.consume_if(TokenType::Accounts)?;
        let name = self.parse_identifer()?;
        let _l_brace = self.lexer.consume_if(TokenType::LBrace)?;
        let fields = self.parse_accounts_fields()?;
        let r_brace = self.lexer.consume_if(TokenType::RBrace)?;
        Ok(Accounts { span: Span { start: first.span.start, end: r_brace.span.end }, name, fields })
    }

    /// Parses the entries of an account list up to the closing brace.
    pub fn parse_accounts_fields(&mut self) -> (r: Result<Vec<AccountsField<'src>>, SolGenError>)
        requires
            old(self).wf(),
        ensures
            final(self).wf(),
            final(self).source() == old(self).source(),
            match r {
                Ok(fs) => accounts_fields_from(old(self).source(), old(self)@, Seq::empty())
                    == Ok::<(Seq<AccountsFieldView>, Seq<Token>), SolGenErrorView>(
                    (views(fs@), final(self)@),
                ) && final(self)@.len() <= old(self)@.len(),
                Err(e) => accounts_fields_from(old(self).source(), old(self)@, Seq::empty())
                    == Err::<(Seq<AccountsFieldView>, Seq<Token>), SolGenErrorView>(e@),
            },
    {
        let mut fields: Vec<AccountsField<'src>> = Vec::new();
        let ghost src = self.source();
        let ghost goal = accounts_fields_from(src, self@, Seq::empty());
        proof {
            assert(views(fields@) =~= Seq::<AccountsFieldView>::empty());
        }
        loop
            invariant
                self.wf(),
                self.source() == src,
                src == old(self).source(),
                self@.len() <= old(self)@.len(),
                goal == accounts_fields_from(src, old(self)@, Seq::empty()),
                goal == accounts_fields_from(src, self@, views(fields@)),
            decreases self@.len(),
        {
            match self.lexer.curr() {
                None => {
                    return Ok(fields);
                },
                Some(token) => {
                    if token.kind == TokenType::RBrace {
                        return Ok(fields);
                    }
                },
            }
            let f = self.parse_accounts_field()?;
            proof {
                assert(views(fields@.push(f)) =~= views(fields@).push(f@));
            }
            fields.push(f);
        }
    }

    /// Parses an entry of an account list:
    /// `[mutable | init] name : Account = number ;`.
    pub fn parse_accounts_field(&mut self) -> (r: Result<AccountsField<'src>, SolGenError>)
        requires
            old(self).wf(),
        ensures
            final(self).wf(),
            final(self).source() == old(self).source(),
            match r {
                Ok(f) => accounts_field(old(self).source(), old(self)@) == Ok::<
                    (AccountsFieldView, Seq<Token>),
                    SolGenErrorView,
                >((f@, final(self)@)) && final(self)@.len() < old(self)@.len(),
                Err(e) => accounts_field(old(self).source(), old(self)@) == Err::<
                    (AccountsFieldView, Seq<Token>),
                    SolGenErrorView,
                >(e@),
            },
    {
        let mutable = self.lexer.consume_if(TokenType::Mutable).is_ok();
        let init = !mutable && self.lexer.consume_if(TokenType::Init).is_ok();
        let name = self.parse_identifer()?;
        let _colon = self.lexer.consume_if(TokenType::Colon)?;
        let account = self.parse_account_name()?;
        let (number, end) = self.parse_id_suffix()?;
        Ok(
            AccountsField {
                span: Span { start: name.span.start, end },
                number,
                name,
                account,
                init,
                mutable,
            },
        )
    }

    /// Parses the account that an entry names: the signer marker or an
    /// identifier.
    pub fn parse_account_name(&mut self) -> (r: Result<Identifer<'src>, SolGenError>)
        requires
            old(self).wf(),
        ensures
            final(self).wf(),
            final(self).source() == old(self).source(),
            match r {
                Ok(i) => account_name(old(self).source(), old(self)@) == Ok::<
                    (IdentiferView, Seq<Token>),
                    SolGenErrorView,
                >((i@, final(self)@)) && final(self)@.len() < old(self)@.len(),
                Err(e) => account_name(old(self).source(), old(self)@) == Err::<
                    (IdentiferView, Seq<Token>),
                    SolGenErrorView,
                >(e@),
            },
    {
        match self.lexer.curr() {
            Some(token) => {
                if token.kind == TokenType::Signer {
                    self.lexer.bump();
                    return Ok(
                        Identifer { span: token.span, value: self.lexer.src_span(token.span) },
                    );
                }
            },
            None => {},
        }
        self.parse_identifer()
    }

    /// Parses the contract: `contract name { instruction* }`.
    pub fn parse_contract(&mut self) -> (r: Result<Contract<'src>, SolGenError>)
        requires
            old(self).wf(),
        ensures
            final(self).wf(),
            final(self).source() == old(self).source(),
            match r {
                Ok(c) => contract(old(self).source(), old(self)@) == Ok::<
                    (ContractView, Seq<Token>),
                    SolGenErrorView,
                >((c@, final(self)@)) && final(self)@.len() < old(self)@.len(),
                Err(e) => contract(old(self).source(), old(self)@) == Err::<
                    (ContractView, Seq<Token>),
                    SolGenErrorView,
                >(e@),
            },
    {
        let first = self.lexer.consume_if(TokenType::Contract)?;
        let name = self.parse_identifer()?;
        let _l_brace = self.lexer.consume_if(TokenType::LBrace)?;
        let instructions = self.parse_instructions()?;
        let r_brace = self.lexer.consume_if(TokenType::RBrace)?;
        Ok(
            Contract {
                span: Span { start: first.span.start, end: r_brace.span.end },
                name,
                instructions,
            },
        )
    }

    /// Parses the instructions of a contract up to the closing brace.
    pub fn parse_instructions(&mut self) -> (r: Result<Vec<Instruction<'src>>, SolGenError>)
        requires
            old(self).wf(),
        ensures
            final(self).wf(),
            final(self).source() == old(self).source(),
            match r {
                Ok(is) => instructions_from(old(self).source(), old(self)@, Seq::empty()) == Ok::<
                    (Seq<InstructionView>, Seq<Token>),
                    SolGenErrorView,
                >((views(is@), final(self)@)) && final(self)@.len() <= old(self)@.len(),
                Err(e) => instructions_from(old(self).source(), old(self)@, Seq::empty())
                    == Err::<(Seq<InstructionView>, Seq<Token>), SolGenErrorView>(e@),
            },
    {
        let mut instructions: Vec<Instruction<'src>> = Vec::new();
        let ghost src = self.source();
        let ghost goal = instructions_from(src, self@, Seq::empty());
        proof {
            assert(views(instructions@) =~= Seq::<InstructionView>::empty());
        }
        loop
            invariant
                self.wf(),
                self.source() == src,
                src == old(self).source(),
                self@.len() <= old(self)@.len(),
                goal == instructions_from(src, old(self)@, Seq::empty()),
                goal == instructions_from(src, self@, views(instructions@)),
            decreases self@.len(),
        {
            match self.lexer.curr() {
                None => {
                    return Ok(instructions);
                },
                Some(token) => {
                    if token.kind == TokenType::RBrace {
                        return Ok(instructions);
                    }
                },
            }
            let i = self.parse_instruction()?;
            proof {
                assert(views(instructions@.push(i)) =~= views(instructions@).push(i@));
            }
            instructions.push(i);
        }
    }

    /// Parses an instruction:
    /// `instruction name ( Accounts [, Payload] ) = number ;`.
    pub fn parse_instruction(&mut self) -> (r: Result<Instruction<'src>, SolGenError>)
        requires
            old(self).wf(),
        ensures
            final(self).wf(),
            final(self).source() == old(self).source(),
            match r {
                Ok(i) => instruction(old(self).source(), old(self)@) == Ok::<
                    (InstructionView, Seq<Token>),
                    SolGenErrorView,
                >((i@, final(self)@)) && final(self)@.len() < old(self)@.len(),
                Err(e) => instruction(old(self).source(), old(self)@) == Err::<
                    (InstructionView, Seq<Token>),
                    SolGenErrorView,
                >(e@),
            },
    {
        let first = self.lexer.consume_if(TokenType::Instruction)?;
        let name = self.parse_identifer()?;
        let _l_param = self.lexer.consume_if(TokenType::LParam)?;
        let accounts = self.parse_identifer()?;
        let payload = match self.lexer.consume_if(TokenType::Comma) {
            Ok(_) => Some(self.parse_identifer()?),
            Err(_) => None,
        };
        let _r_param = self.lexer.consume_if(TokenType::RParam)?;
        let (number, end) = self.parse_id_suffix()?;
        Ok(
            Instruction {
                span: Span { start: first.span.start, end },
                number,
                name,
                accounts,
                payload,
            },
        )
    }

    /// Parses an identifier.
    pub fn parse_identifer(&mut self) -> (r: Result<Identifer<'src>, SolGenError>)
        requires
            old(self).wf(),
        ensures
            final(self).wf(),
            final(self).source() == old(self).source(),
            match r {
                Ok(i) => identifer(old(self).source(), old(self)@) == Ok::<
                    (IdentiferView, Seq<Token>),
                    SolGenErrorView,
                >((i@, final(self)@)) && final(self)@.len() < old(self)@.len(),
                Err(e) => identifer(old(self).source(), old(self)@) == Err::<
                    (IdentiferView, Seq<Token>),
                    SolGenErrorView,
                >(e@),
            },
    {
        let identifer = self.lexer.consume_if(TokenType::Identifer)?;
        Ok(Identifer { span: identifer.span, value: self.lexer.src_span(identifer.span) })
    }

    /// Parses an id: a run of digits that writes a byte.
    pub fn parse_int(&mut self) -> (r: Result<u8, SolGenError>)
        requires
            old(self).wf(),
        ensures
            final(self).wf(),
            final(self).source() == old(self).source(),
            match r {
                Ok(n) => number(old(self).source(), old(self)@) == Ok::<
                    (u8, Seq<Token>),
                    SolGenErrorView,
                >((n, final(self)@)) && final(self)@.len() < old(self)@.len(),
                Err(e) => number(old(self).source(), old(self)@) == Err::<
                    (u8, Seq<Token>),
                    SolGenErrorView,
                >(e@),
            },
    {
        let token = self.lexer.consume_if(TokenType::Intager)?;
        let text = self.lexer.src_span(token.span);
        let digits = chars_of(text);
        match parse_u8(&digits) {
            Some(n) => Ok(n),
            None => Err(SolGenError::ParseInt(String::from_str(text))),
        }
    }
}

/// An identifier: one token of that kind, with its text.
pub open spec fn identifer(src: Seq<char>, ts: Seq<Token>) -> Parsed<IdentiferView> {
    match expect(ts, TokenType::Identifer) {
        Ok((t, rest)) => Ok((IdentiferView { span: t.span, value: text_of(src, t.span) }, rest)),
        Err(e) => Err(e),
    }
}

/// An id: one run of digits that writes a byte.
pub open spec fn number(src: Seq<char>, ts: Seq<Token>) -> Parsed<u8> {
    match expect(ts, TokenType::Intager) {
        Ok((t, rest)) => match u8_of(text_of(src, t.span)) {
            Some(n) => Ok((n, rest)),
            None => Err(SolGenErrorView::ParseInt(text_of(src, t.span))),
        },
        Err(e) => Err(e),
    }
}

/// The type of a field: `u8`, `u64` or `bool`.
pub open spec fn field_type(ts: Seq<Token>) -> Parsed<Type> {
    if ts.len() == 0 {
        Err(SolGenErrorView::ExpectedToken("u8, u64, or bool"@, "None"@))
    } else {
        match ts[0].kind {
            TokenType::U8 => Ok((Type::U8, ts.skip(1))),
            TokenType::U64 => Ok((Type::U64, ts.skip(1))),
            TokenType::Bool => Ok((Type::Bool, ts.skip(1))),
            k => Err(SolGenErrorView::ExpectedToken("u8, u64, or bool"@, kind_name(k))),
        }
    }
}

/// `= number ;`: the id that ends a member, and the end of its span.
pub open spec fn id_suffix(src: Seq<char>, ts: Seq<Token>) -> Parsed<(u8, usize)> {
    match expect(ts, TokenType::Assign) {
        Err(e) => Err(e),
        Ok((_, t1)) => match number(src, t1) {
            Err(e) => Err(e),
            Ok((n, t2)) => match expect(t2, TokenType::SimiColon) {
                Err(e) => Err(e),
                Ok((semi, t3)) => Ok(((n, semi.span.end), t3)),
            },
        },
    }
}

/// A field of a message or an account: `name : type = number ;`.
pub open spec fn field(src: Seq<char>, ts: Seq<Token>) -> Parsed<FieldView> {
    match identifer(src, ts) {
        Err(e) => Err(e),
        Ok((name, t1)) => match expect(t1, TokenType::Colon) {
            Err(e) => Err(e),
            Ok((_, t2)) => match field_type(t2) {
                Err(e) => Err(e),
                Ok((ty, t3)) => match id_suffix(src, t3) {
                    Err(e) => Err(e),
                    Ok(((n, end), t4)) => Ok(
                        (
                            FieldView {
                                span: Span { start: name.span.start, end },
                                number: n,
                                name,
                                ty,
                            },
                            t4,
                        ),
                    ),
                },
            },
        },
    }
}

/// The fields up to a closing brace or the end of the text, after those of
/// `acc`.
pub open spec fn fields_from(src: Seq<char>, ts: Seq<Token>, acc: Seq<FieldView>) -> Parsed<
    Seq<FieldView>,
>
    decreases ts.len(),
{
    if ts.len() == 0 || ts[0].kind == TokenType::RBrace {
        Ok((acc, ts))
    } else {
        match field(src, ts) {
            Err(e) => Err(e),
            Ok((f, rest)) => if rest.len() < ts.len() {
                fields_from(src, rest, acc.push(f))
            } else {
                Ok((acc.push(f), rest))
            },
        }
    }
}

/// A message or an account, after its keyword `kw`:
/// `kw name { field* }`.
pub open spec fn record(src: Seq<char>, ts: Seq<Token>, kw: TokenType) -> Parsed<RecordView> {
    match expect(ts, kw) {
        Err(e) => Err(e),
        Ok((first, t1)) => match identifer(src, t1) {
            Err(e) => Err(e),
            Ok((name, t2)) => match expect(t2, TokenType::LBrace) {
                Err(e) => Err(e),
                Ok((_, t3)) => match fields_from(src, t3, Seq::empty()) {
                    Err(e) => Err(e),
                    Ok((fields, t4)) => match expect(t4, TokenType::RBrace) {
                        Err(e) => Err(e),
                        Ok((last, t5)) => Ok(
                            (
                                RecordView {
                                    span: Span { start: first.span.start, end: last.span.end },
                                    name,
                                    fields,
                                },
                                t5,
                            ),
                        ),
                    },
                },
            },
        },
    }
}

/// The account that an entry of an account list names: the signer marker or
/// an identifier.
pub open spec fn account_name(src: Seq<char>, ts: Seq<Token>) -> Parsed<IdentiferView> {
    if ts.len() > 0 && ts[0].kind == TokenType::Signer {
        Ok((IdentiferView { span: ts[0].span, value: text_of(src, ts[0].span) }, ts.skip(1)))
    } else {
        identifer(src, ts)
    }
}

/// An entry of an account list: `[mutable | init] name : Account = number ;`.
/// An entry cannot be both `mutable` and `init`.
pub open spec fn accounts_field(src: Seq<char>, ts: Seq<Token>) -> Parsed<AccountsFieldView> {
    let mutable = expect(ts, TokenType::Mutable) is Ok;
    let t1 = if mutable {
        ts.skip(1)
    } else {
        ts
    };
    let init = !mutable && expect(t1, TokenType::Init) is Ok;
    let t2 = if init {
        t1.skip(1)
    } else {
        t1
    };
    match identifer(src, t2) {
        Err(e) => Err(e),
        Ok((name, t3)) => match expect(t3, TokenType::Colon) {
            Err(e) => Err(e),
            Ok((_, t4)) => match account_name(src, t4) {
                Err(e) => Err(e),
                Ok((account, t5)) => match id_suffix(src, t5) {
                    Err(e) => Err(e),
                    Ok(((n, end), t6)) => Ok(
                        (
                            AccountsFieldView {
                                span: Span { start: name.span.start, end },
                                number: n,
                                init,
                                mutable,
                                name,
                                account,
                            },
                            t6,
                        ),
                    ),
                },
            },
        },
    }
}

/// The entries up to a closing brace or the end of the text, after those of
/// `acc`.
pub open spec fn accounts_fields_from(
    src: Seq<char>,
    ts: Seq<Token>,
    acc: Seq<AccountsFieldView>,
) -> Parsed<Seq<AccountsFieldView>>
    decreases ts.len(),
{
    if ts.len() == 0 || ts[0].kind == TokenType::RBrace {
        Ok((acc, ts))
    } else {
        match accounts_field(src, ts) {
            Err(e) => Err(e),
            Ok((f, rest)) => if rest.len() < ts.len() {
                accounts_fields_from(src, rest, acc.push(f))
            } else {
                Ok((acc.push(f), rest))
            },
        }
    }
}

/// An account list: `accounts name { entry* }`.
pub open spec fn accounts(src: Seq<char>, ts: Seq<Token>) -> Parsed<AccountsView> {
    match expect(ts, TokenType::Accounts) {
        Err(e) => Err(e),
        Ok((first, t1)) => match identifer(src, t1) {
            Err(e) => Err(e),
            Ok((name, t2)) => match expect(t2, TokenType::LBrace) {
                Err(e) => Err(e),
                Ok((_, t3)) => match accounts_fields_from(src, t3, Seq::empty()) {
                    Err(e) => Err(e),
                    Ok((fields, t4)) => match expect(t4, TokenType::RBrace) {
                        Err(e) => Err(e),
                        Ok((last, t5)) => Ok(
                            (
                                AccountsView {
                                    span: Span { start: first.span.start, end: last.span.end },
                                    name,
                                    fields,
                                },
                                t5,
                            ),
                        ),
                    },
                },
            },
        },
    }
}

/// The payload of an instruction: `, Payload`, or nothing.
pub open spec fn payload(src: Seq<char>, ts: Seq<Token>) -> Parsed<Option<IdentiferView>> {
    match expect(ts, TokenType::Comma) {
        Err(_) => Ok((None, ts)),
        Ok((_, t1)) => match identifer(src, t1) {
            Err(e) => Err(e),
            Ok((p, t2)) => Ok((Some(p), t2)),
        },
    }
}

/// An instruction: `instruction name ( Accounts [, Payload] ) = number ;`.
pub open spec fn instruction(src: Seq<char>, ts: Seq<Token>) -> Parsed<InstructionView> {
    match expect(ts, TokenType::Instruction) {
        Err(e) => Err(e),
        Ok((first, t1)) => match identifer(src, t1) {
            Err(e) => Err(e),
            Ok((name, t2)) => match expect(t2, TokenType::LParam) {
                Err(e) => Err(e),
                Ok((_, t3)) => match identifer(src, t3) {
                    Err(e) => Err(e),
                    Ok((accounts, t4)) => match payload(src, t4) {
                        Err(e) => Err(e),
                        Ok((payload, t5)) => match expect(t5, TokenType::RParam) {
                            Err(e) => Err(e),
                            Ok((_, t6)) => match id_suffix(src, t6) {
                                Err(e) => Err(e),
                                Ok(((n, end), t7)) => Ok(
                                    (
                                        InstructionView {
                                            span: Span { start: first.span.start, end },
                                            number: n,
                                            name,
                                            accounts,
                                            payload,
                                        },
                                        t7,
                                    ),
                                ),
                            },
                        },
                    },
                },
            },
        },
    }
}

/// The instructions up to a closing brace or the end of the text, after those
/// of `acc`.
pub open spec fn instructions_from(
    src: Seq<char>,
    ts: Seq<Token>,
    acc: Seq<InstructionView>,
) -> Parsed<Seq<InstructionView>>
    decreases ts.len(),
{
    if ts.len() == 0 || ts[0].kind == TokenType::RBrace {
        Ok((acc, ts))
    } else {
        match instruction(src, ts) {
            Err(e) => Err(e),
            Ok((f, rest)) => if rest.len() < ts.len() {
                instructions_from(src, rest, acc.push(f))
            } else {
                Ok((acc.push(f), rest))
            },
        }
    }
}

/// The contract: `contract name { instruction* }`.
pub open spec fn contract(src: Seq<char>, ts: Seq<Token>) -> Parsed<ContractView> {
    match expect(ts, TokenType::Contract) {
        Err(e) => Err(e),
        Ok((first, t1)) => match identifer(src, t1) {
            Err(e) => Err(e),
            Ok((name, t2)) => match expect(t2, TokenType::LBrace) {
                Err(e) => Err(e),
                Ok((_, t3)) => match instructions_from(src, t3, Seq::empty()) {
                    Err(e) => Err(e),
                    Ok((instructions, t4)) => match expect(t4, TokenType::RBrace) {
                        Err(e) => Err(e),
                        Ok((last, t5)) => Ok(
                            (
                                ContractView {
                                    span: Span { start: first.span.start, end: last.span.end },
                                    name,
                                    instructions,
                                },
                                t5,
                            ),
                        ),
                    },
                },
            },
        },
    }
}

/// What has been read of a schema so far.
pub ghost struct Partial {
    pub message: Seq<RecordView>,
    pub account: Seq<RecordView>,
    pub accounts: Seq<AccountsView>,
    pub contract: Option<ContractView>,
}

/// A schema that follows what `acc` holds: messages, accounts and account
/// lists in any order and number, and exactly one contract. Any other token at
/// the start of a declaration ends the parse with an error.
pub open spec fn definitions_from(src: Seq<char>, ts: Seq<Token>, acc: Partial) -> Result<
    DefinitionsView,
    SolGenErrorView,
>
    decreases ts.len(),
{
    if ts.len() == 0 {
        match acc.contract {
            Some(c) => Ok(
                DefinitionsView {
                    message: acc.message,
                    account: acc.account,
                    accounts: acc.accounts,
                    contract: c,
                },
            ),
            None => Err(SolGenErrorView::MissingContract),
        }
    } else {
        match ts[0].kind {
            TokenType::Account => match record(src, ts, TokenType::Account) {
                Err(e) => Err(e),
                Ok((a, rest)) => if rest.len() < ts.len() {
                    definitions_from(src, rest, Partial { account: acc.account.push(a), ..acc })
                } else {
                    Err(SolGenErrorView::MissingContract)
                },
            },
            TokenType::Accounts => match accounts(src, ts) {
                Err(e) => Err(e),
                Ok((a, rest)) => if rest.len() < ts.len() {
                    definitions_from(src, rest, Partial { accounts: acc.accounts.push(a), ..acc })
                } else {
                    Err(SolGenErrorView::MissingContract)
                },
            },
            TokenType::Contract => if acc.contract is Some {
                Err(SolGenErrorView::DuplicateContract)
            } else {
                match contract(src, ts) {
                    Err(e) => Err(e),
                    Ok((c, rest)) => if rest.len() < ts.len() {
                        definitions_from(src, rest, Partial { contract: Some(c), ..acc })
                    } else {
                        Err(SolGenErrorView::MissingContract)
                    },
                }
            },
            TokenType::Message => match record(src, ts, TokenType::Message) {
                Err(e) => Err(e),
                Ok((m, rest)) => if rest.len() < ts.len() {
                    definitions_from(src, rest, Partial { message: acc.message.push(m), ..acc })
                } else {
                    Err(SolGenErrorView::MissingContract)
                },
            },
            TokenType::InvalidChar(c) => Err(SolGenErrorView::InvalidChar(c)),
            k => Err(
                SolGenErrorView::ExpectedToken("account, accounts, or contract"@, kind_name(k)),
            ),
        }
    }
}

/// The schema that the tokens `ts` of the text `src` write.
pub open spec fn definitions(src: Seq<char>, ts: Seq<Token>) -> Result<
    DefinitionsView,
    SolGenErrorView,
> {
    definitions_from(
        src,
        ts,
        Partial {
            message: Seq::empty(),
            account: Seq::empty(),
            accounts: Seq::empty(),
            contract: None,
        },
    )
}

} // verus!
