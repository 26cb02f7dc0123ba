//! Errors of the language server and the messages they are shown with.
use crate::position::Position;
use crate::text::{concat, push_char};
use vstd::prelude::*;

verus! {

/// What went wrong while serving a request.
#[derive(Debug, Clone, PartialEq, Eq)]
pub enum LspError {
    ParseError { uri: String, reason: String },
    ResolutionError { var_name: String, reason: String },
    FeatureDisabled { feature: String },
    DocumentNotFound { uri: String },
    UnsupportedLanguage { language_id: String },
    InvalidPosition { uri: String, line: u32, character: u32 },
    Internal(String),
}

/// The decimal digits of `n`.
pub open spec fn decimal(n: nat) -> Seq<char>
    decreases n,
{
    if n < 10 {
        seq![digit_char(n)]
    } else {
        decimal(n / 10).push(digit_char(n % 10))
    }
}

pub open spec fn digit_char(d: nat) -> char {
    if d == 0 {
        '0'
    } else if d == 1 {
        '1'
    } else if d == 2 {
        '2'
    } else if d == 3 {
        '3'
    } else if d == 4 {
        '4'
    } else if d == 5 {
        '5'
    } else if d == 6 {
        '6'
    } else if d == 7 {
        '7'
    } else if d == 8 {
        '8'
    } else {
        '9'
    }
}

fn digit(d: u32) -> (c: char)
    requires
        d < 10,
    ensures
        c == digit_char(d as nat),
{
    if d == 0 {
        '0'
    } else if d == 1 {
        '1'
    } else if d == 2 {
        '2'
    } else if d == 3 {
        '3'
    } else if d == 4 {
        '4'
    } else if d == 5 {
        '5'
    } else if d == 6 {
        '6'
    } else if d == 7 {
        '7'
    } else if d == 8 {
        '8'
    } else {
        '9'
    }
}

/// Appends the decimal digits of `n` to `s`.
pub fn push_decimal(s: &mut String, n: u32)
    ensures
        final(s)@ == old(s)@ + decimal(n as nat),
    decreases n,
{
    if n < 10 {
        push_char(s, digit(n));
        assert(old(s)@.push(digit_char(n as nat)) =~= old(s)@ + decimal(n as nat));
    } else {
        push_decimal(s, n / 10);
        push_char(s, digit(n % 10));
        assert(old(s)@ + decimal(n as nat / 10) + seq![digit_char(n as nat % 10)] =~= old(s)@
            + decimal(n as nat));
    }
}

/// Appends the decimal digits of `n` to `s`.
pub fn push_decimal_usize(s: &mut String, n: usize)
    ensures
        final(s)@ == old(s)@ + decimal(n as nat),
    decreases n,
{
    if n < 10 {
        push_char(s, digit(n as u32));
        assert(old(s)@.push(digit_char(n as nat)) =~= old(s)@ + decimal(n as nat));
    } else {
        push_decimal_usize(s, n / 10);
        push_char(s, digit((n % 10) as u32));
        assert(old(s)@ + decimal(n as nat / 10) + seq![digit_char(n as nat % 10)] =~= old(s)@
            + decimal(n as nat));
    }
}

/// The decimal digits of `n`.
pub fn decimal_string(n: usize) -> (s: String)
    ensures
        s@ == decimal(n as nat),
{
    let mut s = String::new();
    push_decimal_usize(&mut s, n);
    assert(Seq::<char>::empty() + decimal(n as nat) =~= decimal(n as nat));
    s
}

impl LspError {
    /// The message the error is shown with.
    pub open spec fn spec_message(&self) -> Seq<char> {
        match self {
            LspError::ParseError { uri, reason } => "Parse failed for "@ + uri@ + ": "@ + reason@,
            LspError::ResolutionError { var_name, reason } => "Resolution failed for "@ + var_name@
                + ": "@ + reason@,
            LspError::FeatureDisabled { feature } => "Feature disabled: "@ + feature@,
            LspError::DocumentNotFound { uri } => "Document not found: "@ + uri@,
            LspError::UnsupportedLanguage { language_id } => "Language not supported: "@
                + language_id@,
            LspError::InvalidPosition { uri, line, character } => "Invalid position: line "@
                + decimal(*line as nat) + ", char "@ + decimal(*character as nat) + " in "@ + uri@,
            LspError::Internal(msg) => "Internal error: "@ + msg@,
        }
    }

    /// The message the error is shown with.
    pub fn to_string(&self) -> (s: String)
        ensures
            s@ == self.spec_message(),
    {
        match self {
            LspError::ParseError { uri, reason } => {
                let mut s = concat("Parse failed for ", uri.as_str());
                s.append(": ");
                s.append(reason.as_str());
                s
            },
            LspError::ResolutionError { var_name, reason } => {
                let mut s = concat("Resolution failed for ", var_name.as_str());
                s.append(": ");
                s.append(reason.as_str());
                s
            },
            LspError::FeatureDisabled { feature } => concat("Feature disabled: ", feature.as_str()),
            LspError::DocumentNotFound { uri } => concat("Document not found: ", uri.as_str()),
            LspError::UnsupportedLanguage { language_id } => concat(
                "Language not supported: ",
                language_id.as_str(),
            ),
            LspError::InvalidPosition { uri, line, character } => {
                let mut s = "Invalid position: line ".to_string();
                push_decimal(&mut s, *line);
                s.append(", char ");
                push_decimal(&mut s, *character);
                s.append(" in ");
                s.append(uri.as_str());
                s
            },
            LspError::Internal(msg) => concat("Internal error: ", msg.as_str()),
        }
    }

    /// The error for a request on a document that is not open.
    pub fn document_not_found(uri: &str) -> (e: Self)
        ensures
            e matches LspError::DocumentNotFound { uri: u } && u@ == uri@,
    {
        LspError::DocumentNotFound { uri: uri.to_string() }
    }

    /// The error for a position that does not exist in a document.
    pub fn invalid_position(uri: &str, position: Position) -> (e: Self)
        ensures
            e matches LspError::InvalidPosition { uri: u, line, character } && u@ == uri@ && line
                == position.line && character == position.character,
    {
        LspError::InvalidPosition {
            uri: uri.to_string(),
            line: position.line,
            character: position.character,
        }
    }

    /// The error for a request on a feature that is switched off.
    pub fn feature_disabled(feature: &str) -> (e: Self)
        ensures
            e matches LspError::FeatureDisabled { feature: f } && f@ == feature@,
    {
        LspError::FeatureDisabled { feature: feature.to_string() }
    }
}

} // verus!
