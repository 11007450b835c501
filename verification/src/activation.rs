//! The activation function a layer applies to its weighted sums.
use vstd::prelude::*;
use vstd::string::*;

use crate::text::str_equal;

verus! {

/// Activation function of a layer.
#[derive(Debug, Clone, Copy, PartialEq, Eq, Structural)]
pub enum Activation {
    Sigmoid,
    Linear,
}

/// The characters of `"Sigmoid"`.
pub open spec fn sigmoid_name() -> Seq<char> {
    seq!['S', 'i', 'g', 'm', 'o', 'i', 'd']
}

/// The characters of `"Linear"`.
pub open spec fn linear_name() -> Seq<char> {
    seq!['L', 'i', 'n', 'e', 'a', 'r']
}

/// The characters of the prefix of the parse error, `"unknown activation: "`.
pub open spec fn unknown_prefix() -> Seq<char> {
    seq![
        'u', 'n', 'k', 'n', 'o', 'w', 'n', ' ', 'a', 'c', 't', 'i', 'v', 'a', 't', 'i', 'o', 'n',
        ':', ' ',
    ]
}

/// What parsing a text gives: only the name `Sigmoid` is recognised (the
/// `Linear` variant cannot be spelled); any other text is refused with a
/// message that quotes it.
pub open spec fn parse_spec(text: Seq<char>) -> Result<Activation, Seq<char>> {
    if text == sigmoid_name() {
        Ok(Activation::Sigmoid)
    } else {
        Err(unknown_prefix() + text)
    }
}

impl Activation {
    /// The name of the variant, as printed.
    pub open spec fn name(self) -> Seq<char> {
        match self {
            Activation::Sigmoid => sigmoid_name(),
            Activation::Linear => linear_name(),
        }
    }

    /// The variant name as text: `"Sigmoid"` or `"Linear"`.
    pub fn to_string(&self) -> (s: String)
        ensures
            s@ == self.name(),
    {
        match self {
            Activation::Sigmoid => {
                proof {
                    reveal_strlit("Sigmoid");
                    assert("Sigmoid"@ =~= sigmoid_name());
                }
                String::from_str("Sigmoid")
            },
            Activation::Linear => {
                proof {
                    reveal_strlit("Linear");
                    assert("Linear"@ =~= linear_name());
                }
                String::from_str("Linear")
            },
        }
    }

    /// Reads an activation from its name. The match is exact and case
    /// sensitive; an unknown name gives `"unknown activation: <name>"`.
    pub fn parse(text: &str) -> (r: Result<Activation, String>)
        ensures
            match r {
                Ok(a) => parse_spec(text@) == Ok::<Activation, Seq<char>>(a),
                Err(m) => parse_spec(text@) == Err::<Activation, Seq<char>>(m@),
            },
    {
        proof {
            reveal_strlit("Sigmoid");
            assert("Sigmoid"@ =~= sigmoid_name());
        }
        if str_equal(text, "Sigmoid") {
            Ok(Activation::Sigmoid)
        } else {
            proof {
                reveal_strlit("unknown activation: ");
                assert("unknown activation: "@ =~= unknown_prefix());
            }
            let message = String::from_str("unknown activation: ").concat(text);
            Err(message)
        }
    }
}

/// Printing the activation that a text parses to gives back that very text:
/// parsing accepts a name only where it is the printed name of its result.
pub proof fn lemma_parse_then_print(text: Seq<char>)
    ensures
        parse_spec(text) is Ok ==> parse_spec(text)->Ok_0.name() == text,
{
}

/// Parsing the printed name of an activation gives that activation back,
/// for every activation whose name the parser knows (all but `Linear`, which
/// prints as `"Linear"` and is refused).
pub proof fn lemma_print_then_parse(a: Activation)
    requires
        a != Activation::Linear,
    ensures
        parse_spec(a.name()) == Ok::<Activation, Seq<char>>(a),
{
}

/// A refused text is named in the message that refuses it: the message ends
/// with the text, after the fixed prefix.
pub proof fn lemma_parse_error_quotes_the_text(text: Seq<char>)
    ensures
        parse_spec(text) is Err ==> parse_spec(text)->Err_0.subrange(
            unknown_prefix().len() as int,
            parse_spec(text)->Err_0.len() as int,
        ) == text,
{
    if parse_spec(text) is Err {
        assert((unknown_prefix() + text).subrange(unknown_prefix().len() as int, (unknown_prefix() + text).len() as int) =~= text);
    }
}

impl core::str::FromStr for Activation {
    type Err = String;

    fn from_str(text: &str) -> (r: Result<Self, Self::Err>)
        ensures
            match r {
                Ok(a) => parse_spec(text@) == Ok::<Activation, Seq<char>>(a),
                Err(m) => parse_spec(text@) == Err::<Activation, Seq<char>>(m@),
            },
    {
        Activation::parse(text)
    }
}

} // verus!
