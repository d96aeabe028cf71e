//! Small helpers over strings as sequences of characters.
use vstd::prelude::*;

verus! {

/// The characters of `text`, in order.
pub fn chars_of(text: &str) -> (out: Vec<char>)
    ensures
        out@ == text@,
{
    let mut out: Vec<char> = Vec::new();
    for c in it: text.chars()
        invariant
            it.seq() == text@,
            out@ == text@.take(it.index() as int),
    {
        out.push(c);
    }
    out
}

/// The mathematical content of a `Result`: that of its value or of its
/// error.
pub open spec fn result_deep_view<T: DeepView, E: DeepView>(r: Result<T, E>) -> Result<T::V, E::V> {
    match r {
        Ok(value) => Ok(value.deep_view()),
        Err(error) => Err(error.deep_view()),
    }
}

/// `text` between two backticks.
pub open spec fn quoted(text: Seq<char>) -> Seq<char> {
    seq!['`'] + text + seq!['`']
}

/// `text` between two backticks.
pub fn quote(text: &str) -> (out: String)
    ensures
        out@ == quoted(text@),
{
    proof {
        reveal_strlit("`");
        assert("`"@ =~= seq!['`']);
    }
    let mut out = String::from_str("`");
    out.append(text);
    out.append("`");
    out
}

} // verus!
