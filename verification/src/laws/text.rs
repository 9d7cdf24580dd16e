//! What the texts of errors say about gas.
use crate::errors::{ExceptionalHalt, InternalError, VMError};
use crate::text::{ascii_lower, ascii_lowercase, occurs_in, says_out_of_gas};
use vstd::prelude::*;
use vstd::utf8::is_ascii_chars;

verus! {

/// The text of an error consists of ASCII characters.
pub proof fn lemma_error_texts_are_ascii(error: VMError)
    ensures
        is_ascii_chars(error.message()),
{
    reveal_strlit("Stack Underflow");
    reveal_strlit("Stack Overflow");
    reveal_strlit("Out Of Gas");
    reveal_strlit("Out Of Bounds");
    reveal_strlit("Very Large Number");
    reveal_strlit("Call Frame Error");
    reveal_strlit("Database Error");
}

/// The texts of the errors.
pub proof fn lemma_error_texts()
    ensures
        VMError::ExceptionalHalt(ExceptionalHalt::StackUnderflow).message() == "Stack Underflow"@,
        VMError::ExceptionalHalt(ExceptionalHalt::StackOverflow).message() == "Stack Overflow"@,
        VMError::ExceptionalHalt(ExceptionalHalt::OutOfGas).message() == "Out Of Gas"@,
        VMError::ExceptionalHalt(ExceptionalHalt::OutOfBounds).message() == "Out Of Bounds"@,
        VMError::ExceptionalHalt(ExceptionalHalt::VeryLargeNumber).message()
            == "Very Large Number"@,
        VMError::Internal(InternalError::CallFrame).message() == "Call Frame Error"@,
        VMError::Internal(InternalError::Database).message() == "Database Error"@,
{
}

/// The text from place `i` is not the pattern: some character is another.
spec fn differs_at(pattern: Seq<char>, text: Seq<char>, i: int) -> bool {
    exists|k: int| 0 <= k < pattern.len() && text[i + k] != #[trigger] pattern[k]
}

/// A text that differs from a pattern at every place does not hold it.
proof fn lemma_absent(pattern: Seq<char>, text: Seq<char>)
    requires
        forall|i: int|
            0 <= i <= text.len() - pattern.len() ==> #[trigger] differs_at(pattern, text, i),
    ensures
        !occurs_in(pattern, text),
{
    assert forall|i: int| 0 <= i <= text.len() - pattern.len() implies #[trigger] text.subrange(
        i,
        i + pattern.len(),
    ) != pattern by {
        assert(differs_at(pattern, text, i));
        let k = choose|k: int| 0 <= k < pattern.len() && text[i + k] != #[trigger] pattern[k];
        assert(text.subrange(i, i + pattern.len())[k] == text[i + k]);
    }
}

/// Of all errors, the text of the out-of-gas halt alone says that gas ran out.
pub proof fn lemma_only_out_of_gas_says_so(error: VMError)
    ensures
        says_out_of_gas(ascii_lowercase(error.message())) <==> error == VMError::ExceptionalHalt(
            ExceptionalHalt::OutOfGas,
        ),
{
    reveal_strlit("out of gas");
    reveal_strlit("insufficient gas");
    reveal_strlit("Stack Underflow");
    reveal_strlit("Stack Overflow");
    reveal_strlit("Out Of Gas");
    reveal_strlit("Out Of Bounds");
    reveal_strlit("Very Large Number");
    reveal_strlit("Call Frame Error");
    reveal_strlit("Database Error");
    let text = ascii_lowercase(error.message());
    let first = "out of gas"@;
    let second = "insufficient gas"@;
    if error == VMError::ExceptionalHalt(ExceptionalHalt::OutOfGas) {
        assert(text.subrange(0, 0int + first.len()) =~= first);
    } else {
        assert forall|i: int| 0 <= i <= text.len() - first.len() implies #[trigger] differs_at(
            first,
            text,
            i,
        ) by {
            if error == VMError::ExceptionalHalt(ExceptionalHalt::OutOfBounds) && i == 0 {
                assert(text[i + 7] != first[7]);
            } else {
                assert(text[i + 0] != first[0]);
            }
        }
        lemma_absent(first, text);
        assert forall|i: int| 0 <= i <= text.len() - second.len() implies #[trigger] differs_at(
            second,
            text,
            i,
        ) by {
            assert(text[i + 0] != second[0]);
        }
        lemma_absent(second, text);
    }
}

/// Two texts that differ in the case of ASCII letters alone say the same about gas.
pub proof fn lemma_letter_case_is_ignored(one: Seq<char>, other: Seq<char>)
    requires
        one.len() == other.len(),
        forall|i: int|
            0 <= i < one.len() ==> ascii_lower(#[trigger] one[i]) == ascii_lower(other[i]),
    ensures
        says_out_of_gas(ascii_lowercase(one)) == says_out_of_gas(ascii_lowercase(other)),
{
    assert(ascii_lowercase(one) =~= ascii_lowercase(other));
}

} // verus!
