//! Small text operations on `String`.

use vstd::prelude::*;

verus! {

/// `String::push` appends one character (std documentation).
pub assume_specification[ String::push ](s: &mut String, ch: char)
    ensures
        final(s)@ == old(s)@.push(ch),
;

/// A text with every `-` removed.
pub open spec fn without_hyphens(text: Seq<char>) -> Seq<char>
    decreases text.len(),
{
    if text.len() == 0 {
        Seq::empty()
    } else if text.last() == '-' {
        without_hyphens(text.drop_last())
    } else {
        without_hyphens(text.drop_last()).push(text.last())
    }
}

/// Joins the pieces of a text that was split at each `-` (the text without its hyphens).
pub fn remove_hyphens(text: &str) -> (res: String)
    ensures
        res@ == without_hyphens(text@),
{
    let n = text.unicode_len();
    let mut res = String::new();
    let mut i: usize = 0;
    while i < n
        invariant
            n == text@.len(),
            i <= n,
            res@ == without_hyphens(text@.subrange(0, i as int)),
        decreases n - i,
    {
        let c = text.get_char(i);
        proof {
            let pre = text@.subrange(0, i + 1);
            assert(pre.drop_last() =~= text@.subrange(0, i as int));
            assert(pre.last() == c);
        }
        if c != '-' {
            res.push(c);
        }
        i = i + 1;
    }
    assert(text@.subrange(0, n as int) =~= text@);
    res
}

/// Concatenates two texts with one separator character between them.
pub fn join_with(first: &str, separator: char, second: &str) -> (res: String)
    ensures
        res@ == first@.push(separator) + second@,
{
    let mut res = first.to_owned();
    res.push(separator);
    res.append(second);
    res
}

} // verus!
