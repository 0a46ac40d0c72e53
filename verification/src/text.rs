//! Text helpers: exact substring containment and decimal rendering of identifiers.

use vstd::prelude::*;
use vstd::string::StringExecFns;

verus! {

/// Whether `query` occurs in `text` beginning at position `at`.
pub open spec fn occurs_at(text: Seq<char>, query: Seq<char>, at: int) -> bool {
    &&& 0 <= at
    &&& at + query.len() <= text.len()
    &&& text.subrange(at, at + query.len()) == query
}

/// Whether `query` occurs somewhere in `text` as a contiguous run of characters.
/// The comparison is exact: no case folding, no normalisation, no tokenisation.
pub open spec fn contains_text(text: Seq<char>, query: Seq<char>) -> bool {
    exists|at: int| occurs_at(text, query, at)
}

/// The empty query occurs in every text.
pub proof fn lemma_empty_query_matches(text: Seq<char>)
    ensures
        contains_text(text, Seq::<char>::empty()),
{
    assert(text.subrange(0, 0) =~= Seq::<char>::empty());
    assert(occurs_at(text, Seq::<char>::empty(), 0));
}

/// The characters of a string slice, in order.
pub fn chars_of(s: &str) -> (chars: Vec<char>)
    ensures
        chars@ == s@,
{
    broadcast use vstd::string::axiom_spec_iter;

    let mut chars: Vec<char> = Vec::new();
    for c in it: s.chars()
        invariant
            it.seq() == s@,
            chars@ == s@.take(it.index()),
    {
        chars.push(c);
    }
    chars
}

/// Compares `query` with the window of `text` that starts at `at`.
fn window_matches(text: &Vec<char>, query: &Vec<char>, at: usize) -> (same: bool)
    requires
        at + query.len() <= text.len(),
    ensures
        same == occurs_at(text@, query@, at as int),
{
    let mut j: usize = 0;
    while j < query.len()
        invariant
            j <= query.len(),
            at + query.len() <= text.len(),
            forall|k: int| 0 <= k < j ==> text@[at + k] == query@[k],
        decreases query.len() - j,
    {
        if text[at + j] != query[j] {
            proof {
                let window = text@.subrange(at as int, at + query.len());
                assert(window[j as int] == text@[at + j]);
            }
            return false;
        }
        j += 1;
    }
    assert(text@.subrange(at as int, at + query.len()) =~= query@);
    true
}

/// Linear scan for `query` in `text`: tries every starting position in turn.
pub fn chars_contain(text: &Vec<char>, query: &Vec<char>) -> (found: bool)
    ensures
        found == contains_text(text@, query@),
{
    if query.len() > text.len() {
        return false;
    }
    let last: usize = text.len() - query.len();
    let mut at: usize = 0;
    loop
        invariant
            query.len() <= text.len(),
            last == text.len() - query.len(),
            at <= last,
            forall|k: int| 0 <= k < at ==> !occurs_at(text@, query@, k),
        decreases last - at,
    {
        if window_matches(text, query, at) {
            return true;
        }
        if at == last {
            return false;
        }
        at += 1;
    }
}

/// Whether `query` occurs somewhere in `text`, character for character.
pub fn text_contains(text: &str, query: &str) -> (found: bool)
    ensures
        found == contains_text(text@, query@),
{
    let hay = chars_of(text);
    let needle = chars_of(query);
    chars_contain(&hay, &needle)
}

/// The character that stands for a single decimal digit.
pub open spec fn digit_char(d: nat) -> char {
    seq!['0', '1', '2', '3', '4', '5', '6', '7', '8', '9'][d as int]
}

/// The decimal numeral of `n`, without sign, padding or separators.
pub open spec fn decimal(n: nat) -> Seq<char>
    decreases n,
{
    if n < 10 {
        seq![digit_char(n)]
    } else {
        decimal(n / 10).push(digit_char(n % 10))
    }
}

fn digit_text(d: u64) -> (s: &'static str)
    requires
        d < 10,
    ensures
        s@ == seq![digit_char(d as nat)],
{
    proof {
        reveal_strlit("0");
        reveal_strlit("1");
        reveal_strlit("2");
        reveal_strlit("3");
        reveal_strlit("4");
        reveal_strlit("5");
        reveal_strlit("6");
        reveal_strlit("7");
        reveal_strlit("8");
        reveal_strlit("9");
    }
    if d == 0 {
        "0"
    } else if d == 1 {
        "1"
    } else if d == 2 {
        "2"
    } else if d == 3 {
        "3"
    } else if d == 4 {
        "4"
    } else if d == 5 {
        "5"
    } else if d == 6 {
        "6"
    } else if d == 7 {
        "7"
    } else if d == 8 {
        "8"
    } else {
        "9"
    }
}

/// Appends the decimal numeral of `n` to `out`.
pub fn push_decimal(out: &mut String, n: u64)
    ensures
        final(out)@ == old(out)@ + decimal(n as nat),
    decreases n,
{
    if n >= 10 {
        push_decimal(out, n / 10);
    }
    out.append(digit_text(n % 10));
}

} // verus!
