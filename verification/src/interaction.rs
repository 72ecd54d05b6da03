//! Interaction codes.
//!
//! The controller reports which prompt the user is being asked to confirm
//! through a short code.  The code is usually a digit but is sometimes a
//! letter (pressing Set to confirm added sparge water sends `C`), so the
//! type keeps a catch-all variant for codes this crate does not know.

use vstd::prelude::*;

verus! {

/// A prompt code carried by `Status1` and `Interaction` notifications and
/// by the command that skips to an interaction.
#[derive(Debug)]
pub enum InteractionCode {
    /// Code `C`: the user dismissed a prompt on the controller itself.
    Dismiss,
    NoPrompt,
    SkipDelayedRecipe,
    AddGrain,
    MashOutDoneStartSparge,
    Sparge,
    BoilReached,
    BoilFinished,
    /// Any code this crate does not recognise, kept verbatim.
    Other(String),
}

/// The mathematical value of an interaction code: its text.
pub ghost enum CodeV {
    Dismiss,
    NoPrompt,
    SkipDelayedRecipe,
    AddGrain,
    MashOutDoneStartSparge,
    Sparge,
    BoilReached,
    BoilFinished,
    Other(Seq<char>),
}

impl View for InteractionCode {
    type V = CodeV;

    open spec fn view(&self) -> CodeV {
        match self {
            InteractionCode::Dismiss => CodeV::Dismiss,
            InteractionCode::NoPrompt => CodeV::NoPrompt,
            InteractionCode::SkipDelayedRecipe => CodeV::SkipDelayedRecipe,
            InteractionCode::AddGrain => CodeV::AddGrain,
            InteractionCode::MashOutDoneStartSparge => CodeV::MashOutDoneStartSparge,
            InteractionCode::Sparge => CodeV::Sparge,
            InteractionCode::BoilReached => CodeV::BoilReached,
            InteractionCode::BoilFinished => CodeV::BoilFinished,
            InteractionCode::Other(s) => CodeV::Other(s@),
        }
    }
}

/// The text of a code: named codes render as their single character, a
/// kept-verbatim code renders as itself.
pub open spec fn code_chars(c: CodeV) -> Seq<char> {
    match c {
        CodeV::Dismiss => seq!['C'],
        CodeV::NoPrompt => seq!['0'],
        CodeV::SkipDelayedRecipe => seq!['1'],
        CodeV::AddGrain => seq!['2'],
        CodeV::MashOutDoneStartSparge => seq!['3'],
        CodeV::Sparge => seq!['4'],
        CodeV::BoilReached => seq!['5'],
        CodeV::BoilFinished => seq!['6'],
        CodeV::Other(s) => s,
    }
}

/// The code named by a text: the eight known single characters map to their
/// named codes, everything else is kept verbatim.
pub open spec fn code_of_chars(t: Seq<char>) -> CodeV {
    if t == seq!['C'] {
        CodeV::Dismiss
    } else if t == seq!['0'] {
        CodeV::NoPrompt
    } else if t == seq!['1'] {
        CodeV::SkipDelayedRecipe
    } else if t == seq!['2'] {
        CodeV::AddGrain
    } else if t == seq!['3'] {
        CodeV::MashOutDoneStartSparge
    } else if t == seq!['4'] {
        CodeV::Sparge
    } else if t == seq!['5'] {
        CodeV::BoilReached
    } else if t == seq!['6'] {
        CodeV::BoilFinished
    } else {
        CodeV::Other(t)
    }
}

impl InteractionCode {
    /// The code's text, as sent on the wire.
    pub fn to_string(&self) -> (r: String)
        ensures
            r@ == code_chars(self@),
    {
        proof {
            reveal_strlit("C");
            reveal_strlit("0");
            reveal_strlit("1");
            reveal_strlit("2");
            reveal_strlit("3");
            reveal_strlit("4");
            reveal_strlit("5");
            reveal_strlit("6");
            assert("C"@ =~= seq!['C']);
            assert("0"@ =~= seq!['0']);
            assert("1"@ =~= seq!['1']);
            assert("2"@ =~= seq!['2']);
            assert("3"@ =~= seq!['3']);
            assert("4"@ =~= seq!['4']);
            assert("5"@ =~= seq!['5']);
            assert("6"@ =~= seq!['6']);
        }
        match self {
            InteractionCode::Dismiss => string_of_literal("C"),
            InteractionCode::NoPrompt => string_of_literal("0"),
            InteractionCode::SkipDelayedRecipe => string_of_literal("1"),
            InteractionCode::AddGrain => string_of_literal("2"),
            InteractionCode::MashOutDoneStartSparge => string_of_literal("3"),
            InteractionCode::Sparge => string_of_literal("4"),
            InteractionCode::BoilReached => string_of_literal("5"),
            InteractionCode::BoilFinished => string_of_literal("6"),
            InteractionCode::Other(s) => s.clone(),
        }
    }

    /// Reads a code from its text.  This never fails: an unrecognised text
    /// becomes `Other`.
    pub fn from_str(s: &str) -> (r: Self)
        ensures
            r@ == code_of_chars(s@),
    {
        proof {
            reveal_strlit("C");
            reveal_strlit("0");
            reveal_strlit("1");
            reveal_strlit("2");
            reveal_strlit("3");
            reveal_strlit("4");
            reveal_strlit("5");
            reveal_strlit("6");
        }
        if s.unicode_len() == 1 {
            let c = s.get_char(0);
            proof {
                assert(s@ =~= seq![s@[0]]);
            }
            match c {
                'C' => InteractionCode::Dismiss,
                '0' => InteractionCode::NoPrompt,
                '1' => InteractionCode::SkipDelayedRecipe,
                '2' => InteractionCode::AddGrain,
                '3' => InteractionCode::MashOutDoneStartSparge,
                '4' => InteractionCode::Sparge,
                '5' => InteractionCode::BoilReached,
                '6' => InteractionCode::BoilFinished,
                _ => InteractionCode::Other(s.to_owned()),
            }
        } else {
            proof {
                assert(forall|c: char| (seq![c]).len() == 1);
            }
            InteractionCode::Other(s.to_owned())
        }
    }
}

impl Clone for InteractionCode {
    /// A copy with the same code.
    fn clone(&self) -> (r: Self)
        ensures
            r@ == self@,
    {
        match self {
            InteractionCode::Dismiss => InteractionCode::Dismiss,
            InteractionCode::NoPrompt => InteractionCode::NoPrompt,
            InteractionCode::SkipDelayedRecipe => InteractionCode::SkipDelayedRecipe,
            InteractionCode::AddGrain => InteractionCode::AddGrain,
            InteractionCode::MashOutDoneStartSparge => InteractionCode::MashOutDoneStartSparge,
            InteractionCode::Sparge => InteractionCode::Sparge,
            InteractionCode::BoilReached => InteractionCode::BoilReached,
            InteractionCode::BoilFinished => InteractionCode::BoilFinished,
            InteractionCode::Other(s) => InteractionCode::Other(s.clone()),
        }
    }
}

impl Default for InteractionCode {
    fn default() -> (r: Self)
        ensures
            r@ == CodeV::NoPrompt,
    {
        InteractionCode::NoPrompt
    }
}

impl PartialEq for InteractionCode {
    fn eq(&self, other: &Self) -> (r: bool) {
        match (self, other) {
            (InteractionCode::Dismiss, InteractionCode::Dismiss) => true,
            (InteractionCode::NoPrompt, InteractionCode::NoPrompt) => true,
            (InteractionCode::SkipDelayedRecipe, InteractionCode::SkipDelayedRecipe) => true,
            (InteractionCode::AddGrain, InteractionCode::AddGrain) => true,
            (
                InteractionCode::MashOutDoneStartSparge,
                InteractionCode::MashOutDoneStartSparge,
            ) => true,
            (InteractionCode::Sparge, InteractionCode::Sparge) => true,
            (InteractionCode::BoilReached, InteractionCode::BoilReached) => true,
            (InteractionCode::BoilFinished, InteractionCode::BoilFinished) => true,
            (InteractionCode::Other(a), InteractionCode::Other(b)) => *a == *b,
            _ => false,
        }
    }
}

impl Eq for InteractionCode {}

impl vstd::std_specs::cmp::PartialEqSpecImpl for InteractionCode {
    open spec fn obeys_eq_spec() -> bool {
        true
    }

    open spec fn eq_spec(&self, other: &Self) -> bool {
        self@ == other@
    }
}

/// A known code's text never collides with another known code's text.
pub proof fn lemma_code_chars_injective(a: CodeV, b: CodeV)
    requires
        code_chars(a) == code_chars(b),
        !(a matches CodeV::Other(_)),
        !(b matches CodeV::Other(_)),
    ensures
        a == b,
{
    let ta = code_chars(a);
    let tb = code_chars(b);
    assert(ta[0] == tb[0]);
}

/// Round trip: reading back a rendered code yields the code itself.  The
/// one exception is a kept-verbatim code whose text happens to be one of
/// the eight known texts; reading that text yields the named code instead.
pub proof fn lemma_code_round_trip(c: CodeV)
    requires
        c matches CodeV::Other(s) ==> code_of_chars(s) == c,
    ensures
        code_of_chars(code_chars(c)) == c,
{
    let t = code_chars(c);
    if !(c matches CodeV::Other(_)) {
        assert(t.len() == 1);
        lemma_code_chars_injective(c, code_of_chars(t));
    }
}

/// Copies a string literal, relating the copy to the literal's view.
fn string_of_literal(s: &str) -> (r: String)
    ensures
        r@ == s@,
{
    s.to_owned()
}

} // verus!
