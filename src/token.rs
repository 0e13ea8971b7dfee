use vstd::prelude::*;

verus! {

pub const RUNE_LITERAL: &'static str = "runeLiteral";
pub const STRING_LITERAL: &'static str = "stringLiteral";
pub const INTEGER_LITERAL: &'static str = "integerLiteral";
pub const BOOLEAN_LITERAL: &'static str = "booleanLiteral";
pub const IDENTIFIER: &'static str = "identifier";
pub const EOF: &'static str = "eof";
pub const UNKNOWN: &'static str = "unknown";

pub const INTEGER: &'static str = "integer";
pub const RUNE: &'static str = "rune";
pub const STRING: &'static str = "string";
pub const BOOLEAN: &'static str = "boolean";
pub const USER: &'static str = "user";
pub const REPO: &'static str = "repo";
pub const CI_CONFIG: &'static str = "ciConfig";
pub const DEPLOYMENT: &'static str = "deployment";
pub const MANIFEST: &'static str = "manifest";
pub const IF: &'static str = "if";
pub const ELSE: &'static str = "else";
pub const WHILE: &'static str = "while";
pub const VOID: &'static str = "void";
pub const VAR: &'static str = "var";
pub const COMMAND: &'static str = "command";
pub const FUNC: &'static str = "func";
pub const COMPLEX: &'static str = "complex";
pub const RETURN: &'static str = "return";

/// One lexical token. `token_type` is the kind's wire name; for keywords,
/// operators and delimiters it is the spelling itself.
#[derive(Debug)]
pub struct Token {
    pub token_type: String,
    pub value: String,
    pub line: usize,
    pub column: usize,
}

/// The mathematical value of a [`Token`].
pub struct TokenView {
    pub kind: Seq<char>,
    pub text: Seq<char>,
    pub line: nat,
    pub column: nat,
}

impl View for Token {
    type V = TokenView;

    open spec fn view(&self) -> TokenView {
        TokenView {
            kind: self.token_type@,
            text: self.value@,
            line: self.line as nat,
            column: self.column as nat,
        }
    }
}

} // verus!
