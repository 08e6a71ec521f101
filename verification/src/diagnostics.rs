//! The wording of diagnostics.

use vstd::prelude::*;
use vstd::string::*;

verus! {

/// What introduces the `i`-th of `len` alternatives.
pub open spec fn separator(i: nat, len: nat) -> Seq<char> {
    if i == 0 {
        "Expected one of"@
    } else if i < len - 1 {
        ","@
    } else {
        " or"@
    }
}

/// The list of the first `n` of the alternatives `expected`: each after what
/// introduces it and a space.
pub open spec fn expected_list(expected: Seq<Seq<char>>, n: nat) -> Seq<char>
    decreases n,
{
    if n == 0 || n > expected.len() {
        Seq::empty()
    } else {
        expected_list(expected, (n - 1) as nat) + separator((n - 1) as nat, expected.len()) + " "@
            + expected[n - 1]
    }
}

/// The strings of a list, each as its characters.
pub open spec fn strings_view(strings: Seq<String>) -> Seq<Seq<char>> {
    Seq::new(strings.len(), |i: int| strings[i]@)
}

/// The message that lists what a parser expected: "Expected one of a, b or c"; empty
/// where it expected nothing.
pub fn fmt_expected(expected: &Vec<String>) -> (s: String)
    ensures
        s@ == expected_list(strings_view(expected@), expected@.len()),
{
    let mut s = String::new();
    let mut i: usize = 0;
    while i < expected.len()
        invariant
            i <= expected.len(),
            s@ == expected_list(strings_view(expected@), i as nat),
        decreases expected.len() - i,
    {
        let sep = if i == 0 {
            "Expected one of"
        } else if i < expected.len() - 1 {
            ","
        } else {
            " or"
        };
        s.append(sep);
        s.append(" ");
        s.append(expected[i].as_str());
        i += 1;
    }
    s
}

} // verus!
