//! The directory part of a path written as text.
use vstd::prelude::*;
use vstd::string::*;

verus! {

pub open spec fn is_separator(c: char) -> bool {
    c == '/' || c == '\\'
}

/// Index of the last separator in `s`, or -1.
pub open spec fn last_separator(s: Seq<char>) -> int
    decreases s.len(),
{
    if s.len() == 0 {
        -1
    } else if is_separator(s.last()) {
        s.len() - 1
    } else {
        last_separator(s.drop_last())
    }
}

/// What precedes the last separator; empty when there is none.
pub open spec fn parent_dir_spec(s: Seq<char>) -> Seq<char> {
    if last_separator(s) < 0 {
        Seq::empty()
    } else {
        s.subrange(0, last_separator(s))
    }
}

/// The directory that holds the file at `path`.
pub fn parent_dir(path: &str) -> (r: String)
    ensures
        r@ == parent_dir_spec(path@),
{
    let n = path.unicode_len();
    let mut i: usize = n;
    assert(path@.subrange(0, n as int) =~= path@);
    while i > 0
        invariant
            n == path@.len(),
            i <= n,
            last_separator(path@) == last_separator(path@.subrange(0, i as int)),
        decreases i,
    {
        let c = path.get_char(i - 1);
        proof {
            let sub = path@.subrange(0, i as int);
            assert(sub.drop_last() =~= path@.subrange(0, i - 1));
            assert(sub.last() == c);
        }
        if c == '/' || c == '\\' {
            return String::from_str(path.substring_char(0, i - 1));
        }
        i -= 1;
    }
    assert(path@.subrange(0, 0) =~= Seq::<char>::empty());
    String::new()
}

} // verus!
