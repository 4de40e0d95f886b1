use vstd::prelude::*;

verus! {

/// What the market logic reads of one JSON value of an exchange payload.
///
/// Numbers are carried as binary64 patterns (see `binary64`).
#[derive(Clone, Copy, Debug, PartialEq, Eq, Structural)]
pub struct JsonScalar {
    /// The value as a signed 64-bit integer, when it is an integer that fits.
    pub as_i64: Option<i64>,
    /// When the value is a string that reads as a decimal number: that number.
    pub text_number: Option<u64>,
    /// When the value is a JSON number: that number.
    pub number: Option<u64>,
}

/// The number that a JSON value stands for: the number written in a string,
/// else the JSON number itself.
pub open spec fn spec_number_of(value: JsonScalar) -> Option<u64> {
    match value.text_number {
        Some(n) => Some(n),
        None => value.number,
    }
}

/// The present values of a sequence of options, in order.
pub open spec fn spec_present<T>(s: Seq<Option<T>>) -> Seq<T>
    decreases s.len(),
{
    if s.len() == 0 {
        Seq::empty()
    } else {
        let rest = spec_present(s.drop_last());
        match s.last() {
            Some(v) => rest.push(v),
            None => rest,
        }
    }
}

/// Adding one more option to the end adds its value, if any.
pub proof fn lemma_present_step<T>(s: Seq<Option<T>>, i: int)
    requires
        0 <= i < s.len(),
    ensures
        spec_present(s.take(i + 1)) == match s[i] {
            Some(v) => spec_present(s.take(i)).push(v),
            None => spec_present(s.take(i)),
        },
{
    assert(s.take(i + 1).drop_last() =~= s.take(i));
}

} // verus!
