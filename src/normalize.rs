use vstd::prelude::*;
use vstd::string::*;

verus! {

/// Whether a character is alphanumeric in Unicode's sense.
pub uninterp spec fn alphanumeric(c: char) -> bool;

/// Relies on `char::is_alphanumeric`: the answer depends on the character
/// alone.
#[verifier::external_body]
fn is_alphanumeric(c: char) -> (r: bool)
    ensures
        r == alphanumeric(c),
{
    c.is_alphanumeric()
}

/// The length of the longest prefix of the first `n` characters that ends
/// with a character not marked alphanumeric; 0 where there is none.
pub open spec fn closed_prefix_len(marks: Seq<bool>, n: int) -> int
    decreases n,
{
    if n <= 0 {
        0
    } else if !marks[n - 1] {
        n
    } else {
        closed_prefix_len(marks, n - 1)
    }
}

/// The characters of `q[0..n]` that are kept: every alphanumeric one, and
/// every other one but a space.
pub open spec fn kept_chars(q: Seq<char>, marks: Seq<bool>, n: int) -> Seq<char>
    decreases n,
{
    if n <= 0 {
        Seq::empty()
    } else if marks[n - 1] || q[n - 1] != ' ' {
        kept_chars(q, marks, n - 1).push(q[n - 1])
    } else {
        kept_chars(q, marks, n - 1)
    }
}

/// A query split into runs of alphanumeric characters and single other
/// characters, with the spaces dropped and the pieces joined again. A run
/// of alphanumeric characters at the very end is not closed by any other
/// character and is dropped too.
pub open spec fn normalized(q: Seq<char>, marks: Seq<bool>) -> Seq<char> {
    kept_chars(q, marks, closed_prefix_len(marks, q.len() as int))
}

/// Whether each character of `q` is alphanumeric.
pub open spec fn alphanumeric_marks(q: Seq<char>) -> Seq<bool> {
    q.map_values(|c: char| alphanumeric(c))
}

/// Normalizes `query` where `marks[i]` tells whether `query`'s character
/// `i` is alphanumeric.
pub fn normalize_marked(query: &str, marks: &Vec<bool>) -> (r: String)
    requires
        marks@.len() == query@.len(),
    ensures
        r@ == normalized(query@, marks@),
{
    let n = marks.len();
    let mut end = n;
    while end > 0 && marks[end - 1]
        invariant
            n == marks@.len(),
            0 <= end <= n,
            closed_prefix_len(marks@, n as int) == closed_prefix_len(marks@, end as int),
        decreases end,
    {
        end = end - 1;
    }
    let mut out = String::new();
    let mut i: usize = 0;
    while i < end
        invariant
            n == marks@.len(),
            n == query@.len(),
            0 <= i <= end <= n,
            out@ == kept_chars(query@, marks@, i as int),
        decreases end - i,
    {
        if marks[i] || query.get_char(i) != ' ' {
            out.append(query.substring_char(i, i + 1));
            assert(query@.subrange(i as int, i + 1) =~= seq![query@[i as int]]);
        }
        i = i + 1;
    }
    out
}

/// Removes the spaces from a query and drops a trailing run of
/// alphanumeric characters, as [`normalized`] states.
pub fn normalize_query(query: &str) -> (r: String)
    ensures
        r@ == normalized(query@, alphanumeric_marks(query@)),
{
    let n = query.unicode_len();
    let mut marks: Vec<bool> = Vec::new();
    let mut i: usize = 0;
    while i < n
        invariant
            n == query@.len(),
            0 <= i <= n,
            marks@ =~= alphanumeric_marks(query@).subrange(0, i as int),
        decreases n - i,
    {
        marks.push(is_alphanumeric(query.get_char(i)));
        i = i + 1;
    }
    assert(marks@ =~= alphanumeric_marks(query@));
    normalize_marked(query, &marks)
}

} // verus!
