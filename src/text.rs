//! Text helpers: whitespace trimming, case folding and joining, with the
//! models that the index and the expansion are stated over.
use vstd::prelude::*;
use vstd::string::StringExecFns;

verus! {

/// A character of the Unicode `White_Space` property, which is what
/// `char::is_whitespace` and `str::trim` go by.
pub open spec fn is_white_space(c: char) -> bool {
    let u = c as u32;
    ||| 0x9 <= u <= 0xd
    ||| u == 0x20
    ||| u == 0x85
    ||| u == 0xa0
    ||| u == 0x1680
    ||| 0x2000 <= u <= 0x200a
    ||| u == 0x2028
    ||| u == 0x2029
    ||| u == 0x202f
    ||| u == 0x205f
    ||| u == 0x3000
}

/// `s` without its leading white space.
pub open spec fn trim_start(s: Seq<char>) -> Seq<char>
    decreases s.len(),
{
    if s.len() > 0 && is_white_space(s[0]) {
        trim_start(s.drop_first())
    } else {
        s
    }
}

/// `s` without its trailing white space.
pub open spec fn trim_end(s: Seq<char>) -> Seq<char>
    decreases s.len(),
{
    if s.len() > 0 && is_white_space(s.last()) {
        trim_end(s.drop_last())
    } else {
        s
    }
}

/// `s` without leading and trailing white space.
pub open spec fn trimmed(s: Seq<char>) -> Seq<char> {
    trim_end(trim_start(s))
}

/// What `str::to_uppercase` makes of a string.
pub uninterp spec fn upper_of(s: Seq<char>) -> Seq<char>;

/// The first character of what `char::to_uppercase` makes of a character.
pub uninterp spec fn upper_char_of(c: char) -> char;

/// Relies on `str::trim`: leading and trailing `White_Space` removed.
#[verifier::external_body]
pub(crate) fn trim(s: &str) -> (r: &str)
    ensures
        r@ == trimmed(s@),
{
    s.trim()
}

/// Relies on `str::to_uppercase`: the result depends on the characters
/// alone, and the empty string stays empty.
#[verifier::external_body]
pub(crate) fn to_upper(s: &str) -> (r: String)
    ensures
        r@ == upper_of(s@),
        s@.len() == 0 ==> r@.len() == 0,
{
    s.to_uppercase()
}

/// Relies on `char::to_uppercase`: the first character of the mapping,
/// which depends on the character alone.
#[verifier::external_body]
pub(crate) fn upper_char(c: char) -> (r: char)
    ensures
        r == upper_char_of(c),
{
    c.to_uppercase().next().unwrap_or(c)
}

/// The words, in order, with `delim` between each two neighbours.
pub open spec fn joined(words: Seq<Seq<char>>, delim: Seq<char>) -> Seq<char>
    decreases words.len(),
{
    if words.len() == 0 {
        Seq::empty()
    } else if words.len() == 1 {
        words[0]
    } else {
        joined(words.drop_last(), delim) + delim + words.last()
    }
}

/// The views of a sequence of strings.
pub open spec fn views(v: Seq<String>) -> Seq<Seq<char>> {
    v.map_values(|w: String| w@)
}

/// Joins the words with `delim` between each two neighbours.
pub(crate) fn join(words: &Vec<String>, delim: &str) -> (r: String)
    ensures
        r@ == joined(views(words@), delim@),
{
    let mut r = String::new();
    let mut i: usize = 0;
    while i < words.len()
        invariant
            i <= words.len(),
            r@ == joined(views(words@.take(i as int)), delim@),
        decreases words.len() - i,
    {
        if i > 0 {
            r.append(delim);
        }
        r.append(words[i].as_str());
        proof {
            let next = views(words@.take(i + 1));
            assert(next.drop_last() =~= views(words@.take(i as int)));
            assert(next.last() == words@[i as int]@);
        }
        i = i + 1;
    }
    assert(words@.take(words.len() as int) =~= words@);
    r
}

} // verus!
verus! {

/// The characters of a string, in order.
pub(crate) fn chars_of(s: &str) -> (r: Vec<char>)
    ensures
        r@ == s@,
{
    let mut r: Vec<char> = Vec::new();
    for c in it: s.chars()
        invariant
            r@ == it.seq().take(it.index() as int),
    {
        r.push(c);
    }
    r
}

} // verus!
