use vstd::prelude::*;

verus! {

/// Whether `c` has the Unicode White_Space property, as `char::is_whitespace` decides.
pub uninterp spec fn is_white_space(c: char) -> bool;

/// The full Unicode lowercase mapping of `s`, as `str::to_lowercase` computes it.
pub uninterp spec fn lower_of(s: Seq<char>) -> Seq<char>;

/// `s` with every white-space character removed, the others kept in order.
pub open spec fn strip_white(s: Seq<char>) -> Seq<char>
    decreases s.len(),
{
    if s.len() == 0 {
        Seq::empty()
    } else if is_white_space(s.last()) {
        strip_white(s.drop_last())
    } else {
        strip_white(s.drop_last()).push(s.last())
    }
}

/// Relies on `char::is_whitespace`: true exactly for the White_Space code points.
#[verifier::external_body]
fn white_space(c: char) -> (r: bool)
    ensures
        r == is_white_space(c),
{
    c.is_whitespace()
}

/// Relies on `String`'s `FromIterator<char>`: the string holds the characters in order.
#[verifier::external_body]
fn string_of_chars(v: &Vec<char>) -> (r: String)
    ensures
        r@ == v@,
{
    v.iter().collect()
}

/// Relies on `str::to_lowercase`: the result depends on the characters alone, and
/// the empty string stays empty.
#[verifier::external_body]
fn lowercase(s: &str) -> (r: String)
    ensures
        r@ == lower_of(s@),
        s@.len() == 0 ==> r@.len() == 0,
{
    s.to_lowercase()
}

/// `input` with every Unicode white-space character removed.
pub fn strip_whitespace(input: &str) -> (r: String)
    ensures
        r@ == strip_white(input@),
{
    let mut kept: Vec<char> = Vec::new();
    for c in it: input.chars()
        invariant
            it.seq() == input@,
            kept@ == strip_white(input@.take(it.index() as int)),
    {
        assert(input@.take(it.index() + 1).drop_last() == input@.take(it.index() as int));
        if !white_space(c) {
            kept.push(c);
        }
    }
    assert(input@.take(input@.len() as int) == input@);
    string_of_chars(&kept)
}

/// `input` with all Unicode white space removed and the rest folded to lowercase.
pub fn normalize(input: &str) -> (r: String)
    ensures
        r@ == lower_of(strip_white(input@)),
{
    let stripped = strip_whitespace(input);
    lowercase(stripped.as_str())
}

/// Removing white space twice removes nothing more than removing it once.
pub proof fn lemma_strip_white_idempotent(s: Seq<char>)
    ensures
        strip_white(strip_white(s)) == strip_white(s),
    decreases s.len(),
{
    if s.len() > 0 {
        lemma_strip_white_idempotent(s.drop_last());
        let p = strip_white(s.drop_last());
        if !is_white_space(s.last()) {
            assert(p.push(s.last()).drop_last() == p);
        }
    }
}

} // verus!
