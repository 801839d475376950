//! Reading the option type and the exercise style from their names, as the
//! JavaScript bindings and the web API receive them.
use vstd::prelude::*;

use crate::error::PricerError;
use crate::text::{
    ascii_lower_code, lemma_lowercase_word_matches_itself, lowercase_is, lowercases_to,
};
use crate::types::{ExerciseStyle, OptionType};

verus! {

/// The text of the error for an unknown option type name.
pub open spec fn bad_option_type_message(s: Seq<char>) -> Seq<char> {
    "invalid option type: '"@ + s + "' (expected 'call' or 'put')"@
}

/// The text of the error for an unknown exercise style name.
pub open spec fn bad_exercise_style_message(s: Seq<char>) -> Seq<char> {
    "invalid exercise style: '"@ + s + "' (expected 'european' or 'american')"@
}

/// The option type named by `s`, whose case does not matter: "call" or "put".
pub fn parse_option_type(s: &str) -> (r: Result<OptionType, PricerError>)
    ensures
        lowercases_to(s@, "call"@) ==> r == Ok::<OptionType, PricerError>(OptionType::Call),
        s@ == "call"@ ==> r == Ok::<OptionType, PricerError>(OptionType::Call),
        s@ == "put"@ ==> r == Ok::<OptionType, PricerError>(OptionType::Put),
        lowercases_to(s@, "put"@) ==> r == Ok::<OptionType, PricerError>(OptionType::Put),
        !lowercases_to(s@, "call"@) && !lowercases_to(s@, "put"@) ==> (r matches Err(
            PricerError::InvalidInput(m),
        ) && m@ == bad_option_type_message(s@)),
{
    proof {
        lemma_exact_names_match();
    }
    if lowercase_is(s, "call") {
        proof {
            lemma_call_put_exclusive(s@);
        }
        Ok(OptionType::Call)
    } else if lowercase_is(s, "put") {
        Ok(OptionType::Put)
    } else {
        let mut m = String::from_str("invalid option type: '");
        m.append(s);
        m.append("' (expected 'call' or 'put')");
        Err(PricerError::InvalidInput(m))
    }
}

/// The exercise style named by `s`, whose case does not matter:
/// "european" or "american".
pub fn parse_exercise_style(s: &str) -> (r: Result<ExerciseStyle, PricerError>)
    ensures
        lowercases_to(s@, "european"@) ==> r == Ok::<ExerciseStyle, PricerError>(
            ExerciseStyle::European,
        ),
        s@ == "european"@ ==> r == Ok::<ExerciseStyle, PricerError>(ExerciseStyle::European),
        s@ == "american"@ ==> r == Ok::<ExerciseStyle, PricerError>(ExerciseStyle::American),
        lowercases_to(s@, "american"@) ==> r == Ok::<ExerciseStyle, PricerError>(
            ExerciseStyle::American,
        ),
        !lowercases_to(s@, "european"@) && !lowercases_to(s@, "american"@) ==> (r matches Err(
            PricerError::InvalidInput(m),
        ) && m@ == bad_exercise_style_message(s@)),
{
    proof {
        lemma_exact_names_match();
    }
    if lowercase_is(s, "european") {
        proof {
            lemma_european_american_exclusive(s@);
        }
        Ok(ExerciseStyle::European)
    } else if lowercase_is(s, "american") {
        Ok(ExerciseStyle::American)
    } else {
        let mut m = String::from_str("invalid exercise style: '");
        m.append(s);
        m.append("' (expected 'european' or 'american')");
        Err(PricerError::InvalidInput(m))
    }
}

/// Each of the four names, written exactly, matches itself, so that it
/// parses as the variant it names.
pub proof fn lemma_exact_names_match()
    ensures
        lowercases_to("call"@, "call"@),
        lowercases_to("put"@, "put"@),
        lowercases_to("european"@, "european"@),
        lowercases_to("american"@, "american"@),
{
    reveal_strlit("call");
    reveal_strlit("put");
    reveal_strlit("european");
    reveal_strlit("american");
    lemma_lowercase_word_matches_itself("call"@);
    lemma_lowercase_word_matches_itself("put"@);
    lemma_lowercase_word_matches_itself("european"@);
    lemma_lowercase_word_matches_itself("american"@);
}

/// The error for an unknown name quotes the name whole and unchanged,
/// after one fixed prefix, whatever the name is.
pub proof fn lemma_bad_name_messages_quote_the_name(s: Seq<char>)
    ensures
        bad_option_type_message(s).subrange(22, 22 + s.len() as int) == s,
        bad_exercise_style_message(s).subrange(25, 25 + s.len() as int) == s,
        bad_option_type_message(s).len() == s.len() + 50,
        bad_exercise_style_message(s).len() == s.len() + 62,
{
    reveal_strlit("invalid option type: '");
    reveal_strlit("' (expected 'call' or 'put')");
    reveal_strlit("invalid exercise style: '");
    reveal_strlit("' (expected 'european' or 'american')");
    assert(bad_option_type_message(s).subrange(22, 22 + s.len() as int) =~= s);
    assert(bad_exercise_style_message(s).subrange(25, 25 + s.len() as int) =~= s);
}

/// No name is both "call" and "put".
proof fn lemma_call_put_exclusive(s: Seq<char>)
    ensures
        !(lowercases_to(s, "call"@) && lowercases_to(s, "put"@)),
{
    reveal_strlit("call");
    reveal_strlit("put");
}

/// No name is both "european" and "american".
proof fn lemma_european_american_exclusive(s: Seq<char>)
    ensures
        !(lowercases_to(s, "european"@) && lowercases_to(s, "american"@)),
{
    reveal_strlit("european");
    reveal_strlit("american");
    if lowercases_to(s, "european"@) && lowercases_to(s, "american"@) {
        assert(ascii_lower_code(s[0]) == "european"@[0] as u32);
        assert(ascii_lower_code(s[0]) == "american"@[0] as u32);
        assert("european"@[0] == 'e' && "american"@[0] == 'a');
    }
}

} // verus!
