//! Small string facts and helpers shared by the other modules.

use vstd::prelude::*;

verus! {

broadcast use vstd::string::axiom_spec_iter;

/// `s` is non-empty and its last character is `c`.
pub open spec fn ends_with_char(s: Seq<char>, c: char) -> bool {
    s.len() > 0 && s.last() == c
}

/// `s` with every trailing `c` removed.
pub open spec fn trim_end_char(s: Seq<char>, c: char) -> Seq<char>
    decreases s.len(),
{
    if s.len() > 0 && s.last() == c {
        trim_end_char(s.drop_last(), c)
    } else {
        s
    }
}

/// Trimming removes exactly a run of trailing `c`: what remains is a prefix
/// of `s` that does not end with `c`, and the rest of `s` is all `c`.
pub proof fn lemma_trim_end_char(s: Seq<char>, c: char)
    ensures
        !ends_with_char(trim_end_char(s, c), c),
        trim_end_char(s, c).len() <= s.len(),
        trim_end_char(s, c) == s.subrange(0, trim_end_char(s, c).len() as int),
        forall|i: int| trim_end_char(s, c).len() <= i < s.len() ==> #[trigger] s[i] == c,
    decreases s.len(),
{
    if s.len() > 0 && s.last() == c {
        lemma_trim_end_char(s.drop_last(), c);
        let t = trim_end_char(s, c);
        assert(s.drop_last().subrange(0, t.len() as int) == s.subrange(0, t.len() as int));
        assert forall|i: int| t.len() <= i < s.len() implies #[trigger] s[i] == c by {
            if i < s.len() - 1 {
                assert(s[i] == s.drop_last()[i]);
            }
        }
    } else {
        assert(s.subrange(0, s.len() as int) =~= s);
    }
}

/// The last character of `s`, if any.
pub fn last_char(s: &str) -> (r: Option<char>)
    ensures
        r == (if s@.len() == 0 { None::<char> } else { Some(s@.last()) }),
{
    let mut last: Option<char> = None;
    for ch in it: s.chars()
        invariant
            it.seq() == s@,
            last == (if it.index() == 0 { None::<char> } else { Some(s@[it.index() - 1]) }),
    {
        last = Some(ch);
    }
    last
}

/// `s` is a Windows drive prefix and nothing more: an ASCII letter and a colon, such as `C:`.
pub open spec fn is_drive_prefix(s: Seq<char>) -> bool {
    &&& s.len() == 2
    &&& s[1] == ':'
    &&& ('a' <= s[0] <= 'z' || 'A' <= s[0] <= 'Z')
}

/// Whether `s` is a Windows drive prefix and nothing more.
pub fn drive_prefix_only(s: &str) -> (r: bool)
    ensures
        r == is_drive_prefix(s@),
{
    let mut seen: usize = 0;
    let mut first: char = ' ';
    let mut second: char = ' ';
    for ch in it: s.chars()
        invariant
            it.seq() == s@,
            seen == (if it.index() < 3 { it.index() } else { 3 }),
            seen >= 1 ==> first == s@[0],
            seen >= 2 ==> second == s@[1],
    {
        if seen == 0 {
            first = ch;
        } else if seen == 1 {
            second = ch;
        }
        if seen < 3 {
            seen = seen + 1;
        }
    }
    seen == 2 && second == ':' && (('a' <= first && first <= 'z') || ('A' <= first && first <= 'Z'))
}

/// `str::trim_end_matches` with a single character pattern, copied into a new `String`.
/// Trusted: std documents that this removes every trailing occurrence of the pattern.
#[verifier::external_body]
pub fn trim_end_matches_char(s: &str, c: char) -> (r: String)
    ensures
        r@ == trim_end_char(s@, c),
{
    s.trim_end_matches(c).to_owned()
}

} // verus!
