//! The arguments of `#[with_enum_handlers(EnumType)]` and
//! `#[with_enum_handlers(EnumType, dispatch = name)]`.
use vstd::prelude::*;
use crate::model::TypeInfo;

verus! {

/// A token of the attribute arguments that follow the enum type.
pub enum TokenInfo {
    /// A token that syn's identifier parser accepts, with its text (raw
    /// identifiers keep their `r#`).
    Ident(String),
    /// A punctuation character.
    Punct(char),
    /// Anything else: a literal, a delimited group, or a keyword.
    Other,
}

/// Mathematical view of a [`TokenInfo`].
pub ghost enum TokenSpec {
    Ident(Seq<char>),
    Punct(char),
    Other,
}

impl View for TokenInfo {
    type V = TokenSpec;

    open spec fn view(&self) -> TokenSpec {
        match self {
            TokenInfo::Ident(s) => TokenSpec::Ident(s@),
            TokenInfo::Punct(c) => TokenSpec::Punct(*c),
            TokenInfo::Other => TokenSpec::Other,
        }
    }
}

/// The view of a list of tokens.
pub open spec fn tokens_view(t: Seq<TokenInfo>) -> Seq<TokenSpec> {
    t.map_values(|x: TokenInfo| x@)
}

/// Why the attribute arguments were refused, and where: `at` is the position
/// of the offending token, or `None` for the end of the arguments.
pub enum AttrError {
    /// Refused with this message.
    Refused { at: Option<usize>, message: String },
    /// An identifier was expected there; the message is the one syn's
    /// identifier parser gives for what stands there.
    NotIdent { at: Option<usize> },
}

/// Mathematical view of an [`AttrError`].
pub ghost enum AttrErrorSpec {
    Refused { at: Option<int>, message: Seq<char> },
    NotIdent { at: Option<int> },
}

/// The view of a token position.
pub open spec fn position_view(at: Option<usize>) -> Option<int> {
    match at {
        Some(k) => Some(k as int),
        None => None,
    }
}

impl View for AttrError {
    type V = AttrErrorSpec;

    open spec fn view(&self) -> AttrErrorSpec {
        match self {
            AttrError::Refused { at, message } => AttrErrorSpec::Refused {
                at: position_view(*at),
                message: message@,
            },
            AttrError::NotIdent { at } => AttrErrorSpec::NotIdent { at: position_view(*at) },
        }
    }
}

/// The identifier at position `k`, or why there is none.
pub open spec fn ident_at(t: Seq<TokenSpec>, k: int) -> Result<Seq<char>, AttrErrorSpec> {
    if k >= t.len() {
        Err(AttrErrorSpec::NotIdent { at: None })
    } else {
        match t[k] {
            TokenSpec::Ident(s) => Ok(s),
            _ => Err(AttrErrorSpec::NotIdent { at: Some(k) }),
        }
    }
}

/// The dispatch method's name that the tokens after the enum type give:
/// `dispatch` when there are none, `name` for `, dispatch = name`; anything
/// else is refused.
pub open spec fn parse_tail(t: Seq<TokenSpec>) -> Result<Seq<char>, AttrErrorSpec> {
    if t.len() == 0 {
        Ok("dispatch"@)
    } else if t[0] != TokenSpec::Punct(',') {
        Err(AttrErrorSpec::Refused { at: Some(0), message: "unexpected token"@ })
    } else {
        match ident_at(t, 1) {
            Err(e) => Err(e),
            Ok(word) => if word != "dispatch"@ {
                Err(AttrErrorSpec::Refused { at: Some(1), message: "Expected 'dispatch'"@ })
            } else if t.len() < 3 {
                Err(AttrErrorSpec::Refused { at: None, message: "expected `=`"@ })
            } else if t[2] != TokenSpec::Punct('=') {
                Err(AttrErrorSpec::Refused { at: Some(2), message: "expected `=`"@ })
            } else {
                match ident_at(t, 3) {
                    Err(e) => Err(e),
                    Ok(name) => if t.len() > 4 {
                        Err(AttrErrorSpec::Refused { at: Some(4), message: "unexpected token"@ })
                    } else {
                        Ok(name)
                    },
                }
            },
        }
    }
}

/// The identifier at position `k`, or why there is none.
fn expect_ident(tokens: &Vec<TokenInfo>, k: usize) -> (r: Result<String, AttrError>)
    ensures
        match ident_at(tokens_view(tokens@), k as int) {
            Ok(s) => r matches Ok(x) && x@ == s,
            Err(e) => r matches Err(x) && x@ == e,
        },
{
    if k >= tokens.len() {
        return Err(AttrError::NotIdent { at: None });
    }
    assert(tokens[k as int]@ == tokens_view(tokens@)[k as int]);
    match &tokens[k] {
        TokenInfo::Ident(s) => Ok(s.clone()),
        _ => Err(AttrError::NotIdent { at: Some(k) }),
    }
}

/// Whether the token at position `k` is the punctuation character `c`.
fn is_punct(tokens: &Vec<TokenInfo>, k: usize, c: char) -> (r: bool)
    requires
        k < tokens.len(),
    ensures
        r == (tokens_view(tokens@)[k as int] == TokenSpec::Punct(c)),
{
    assert(tokens[k as int]@ == tokens_view(tokens@)[k as int]);
    match &tokens[k] {
        TokenInfo::Punct(p) => *p == c,
        _ => false,
    }
}

/// Parsed representation of the `#[with_enum_handlers(...)]` attribute: the
/// enum type to match on and the name of the generated method.
pub struct EnumHandlersAttr {
    pub enum_name: TypeInfo,
    pub dispatch_name: String,
}

impl EnumHandlersAttr {
    /// Completes the attribute from its enum type and the tokens that follow
    /// it, which are either none (the method is named `dispatch`) or
    /// `, dispatch = name`.
    pub fn parse(enum_name: TypeInfo, rest: &Vec<TokenInfo>) -> (r: Result<EnumHandlersAttr, AttrError>)
        ensures
            match parse_tail(tokens_view(rest@)) {
                Ok(name) => r matches Ok(a) && a.enum_name@ == enum_name@ && a.dispatch_name@ == name,
                Err(e) => r matches Err(x) && x@ == e,
            },
    {
        if rest.len() == 0 {
            return Ok(EnumHandlersAttr { enum_name, dispatch_name: String::from_str("dispatch") });
        }
        if !is_punct(rest, 0, ',') {
            return Err(AttrError::Refused { at: Some(0), message: String::from_str("unexpected token") });
        }
        let word = match expect_ident(rest, 1) {
            Ok(w) => w,
            Err(e) => {
                return Err(e);
            },
        };
        let keyword = String::from_str("dispatch");
        if !(word == keyword) {
            return Err(AttrError::Refused { at: Some(1), message: String::from_str("Expected 'dispatch'") });
        }
        if rest.len() < 3 {
            return Err(AttrError::Refused { at: None, message: String::from_str("expected `=`") });
        }
        if !is_punct(rest, 2, '=') {
            return Err(AttrError::Refused { at: Some(2), message: String::from_str("expected `=`") });
        }
        let dispatch_name = match expect_ident(rest, 3) {
            Ok(n) => n,
            Err(e) => {
                return Err(e);
            },
        };
        if rest.len() > 4 {
            return Err(AttrError::Refused { at: Some(4), message: String::from_str("unexpected token") });
        }
        Ok(EnumHandlersAttr { enum_name, dispatch_name })
    }
}

} // verus!
