//! Lexical classification of raw argument tokens.
use vstd::prelude::*;
use vstd::string::*;

verus! {

/// A classified argument token.
#[derive(Clone, Debug)]
pub enum Token {
    /// `-c`: a dash followed by exactly one character other than a dash.
    Short(char),
    /// `--name`: two dashes followed by a non-empty name.
    Long(String),
    /// Anything else, kept verbatim.
    Value(String),
}

/// The mathematical model of a token.
pub enum TokenModel {
    Short(char),
    Long(Seq<char>),
    Value(Seq<char>),
}

impl View for Token {
    type V = TokenModel;

    open spec fn view(&self) -> TokenModel {
        match self {
            Token::Short(c) => TokenModel::Short(*c),
            Token::Long(s) => TokenModel::Long(s@),
            Token::Value(s) => TokenModel::Value(s@),
        }
    }
}

/// How a raw argument is classified, from its characters alone.
pub open spec fn classify_model(a: Seq<char>) -> TokenModel {
    if a.len() > 2 && a[0] == '-' && a[1] == '-' {
        TokenModel::Long(a.skip(2))
    } else if a.len() == 2 && a[0] == '-' && a[1] != '-' {
        TokenModel::Short(a[1])
    } else {
        TokenModel::Value(a)
    }
}

/// Classifies one raw argument as a short flag, a long flag or a bare value.
pub fn classify(arg: &str) -> (t: Token)
    ensures
        t@ == classify_model(arg@),
{
    let n = arg.unicode_len();
    if n >= 2 && arg.get_char(0) == '-' {
        let c1 = arg.get_char(1);
        if c1 == '-' {
            if n > 2 {
                let name = arg.substring_char(2, n);
                proof {
                    assert(name@ =~= arg@.skip(2));
                }
                return Token::Long(String::from_str(name));
            }
        } else if n == 2 {
            return Token::Short(c1);
        }
    }
    Token::Value(String::from_str(arg))
}

} // verus!
