//! The canonical text of a snippet that is handed to the embedding model.

use vstd::prelude::*;

use crate::models::{Snippet, UpdateSnippetInput};

verus! {

/// The characters that carry the Unicode `White_Space` property, which is
/// what `char::is_whitespace` tests.
pub open spec fn is_space(c: char) -> bool {
    ||| ('\u{9}' <= c && c <= '\u{d}')
    ||| c == ' '
    ||| c == '\u{85}'
    ||| c == '\u{a0}'
    ||| c == '\u{1680}'
    ||| ('\u{2000}' <= c && c <= '\u{200a}')
    ||| c == '\u{2028}'
    ||| c == '\u{2029}'
    ||| c == '\u{202f}'
    ||| c == '\u{205f}'
    ||| c == '\u{3000}'
}

/// Number of whitespace characters at the start of `s`.
pub open spec fn leading_spaces(s: Seq<char>) -> nat
    decreases s.len(),
{
    if s.len() > 0 && is_space(s[0]) {
        1 + leading_spaces(s.drop_first())
    } else {
        0
    }
}

/// Number of whitespace characters at the end of `s`.
pub open spec fn trailing_spaces(s: Seq<char>) -> nat
    decreases s.len(),
{
    if s.len() > 0 && is_space(s.last()) {
        1 + trailing_spaces(s.drop_last())
    } else {
        0
    }
}

/// `s` without its leading and trailing whitespace.
pub open spec fn trimmed(s: Seq<char>) -> Seq<char> {
    let front = leading_spaces(s) as int;
    if front == s.len() {
        Seq::empty()
    } else {
        s.subrange(front, s.len() - trailing_spaces(s) as int)
    }
}

/// The text embedded for a snippet: the title twice, then the problem and the
/// solution (empty when absent), separated by single spaces and trimmed.
pub open spec fn prepared_text(title: Seq<char>, problem: Seq<char>, solution: Option<Seq<char>>) -> Seq<char> {
    let sol = match solution {
        Some(s) => s,
        None => Seq::empty(),
    };
    trimmed(title + seq![' '] + title + seq![' '] + problem + seq![' '] + sol)
}

pub open spec fn opt_view(o: Option<String>) -> Option<Seq<char>> {
    match o {
        Some(s) => Some(s@),
        None => None,
    }
}

proof fn lemma_leading_bound(s: Seq<char>)
    ensures
        leading_spaces(s) <= s.len(),
        forall|i: int| 0 <= i < leading_spaces(s) ==> is_space(#[trigger] s[i]),
        leading_spaces(s) < s.len() ==> !is_space(s[leading_spaces(s) as int]),
    decreases s.len(),
{
    if s.len() > 0 && is_space(s[0]) {
        lemma_leading_bound(s.drop_first());
        assert forall|i: int| 0 <= i < leading_spaces(s) implies is_space(#[trigger] s[i]) by {
            if i > 0 {
                assert(s[i] == s.drop_first()[i - 1]);
            }
        }
    }
}

proof fn lemma_trailing_bound(s: Seq<char>)
    ensures
        trailing_spaces(s) <= s.len(),
        forall|i: int| s.len() - trailing_spaces(s) <= i < s.len() ==> is_space(#[trigger] s[i]),
        trailing_spaces(s) < s.len() ==> !is_space(s[s.len() - 1 - trailing_spaces(s)]),
    decreases s.len(),
{
    if s.len() > 0 && is_space(s.last()) {
        lemma_trailing_bound(s.drop_last());
        assert forall|i: int| s.len() - trailing_spaces(s) <= i < s.len() implies is_space(#[trigger] s[i]) by {
            if i < s.len() - 1 {
                assert(s[i] == s.drop_last()[i]);
            }
        }
    }
}

/// Whether `c` is whitespace in the sense of `is_space`.
pub fn char_is_space(c: char) -> (r: bool)
    ensures
        r == is_space(c),
{
    ('\u{9}' <= c && c <= '\u{d}') || c == ' ' || c == '\u{85}' || c == '\u{a0}' || c == '\u{1680}'
        || ('\u{2000}' <= c && c <= '\u{200a}') || c == '\u{2028}' || c == '\u{2029}'
        || c == '\u{202f}' || c == '\u{205f}' || c == '\u{3000}'
}

/// `s` with leading and trailing whitespace removed.
pub fn trim(s: &str) -> (r: String)
    ensures
        r@ == trimmed(s@),
{
    let n = s.unicode_len();
    let mut front: usize = 0;
    while front < n && char_is_space(s.get_char(front))
        invariant
            n == s@.len(),
            front <= n,
            forall|i: int| 0 <= i < front ==> is_space(#[trigger] s@[i]),
        decreases n - front,
    {
        front = front + 1;
    }
    proof {
        lemma_leading_bound(s@);
        lemma_leading_exact(s@, front as nat);
    }
    if front == n {
        return String::new();
    }
    let mut back: usize = n;
    while back > front && char_is_space(s.get_char(back - 1))
        invariant
            n == s@.len(),
            front < n,
            front <= back <= n,
            !is_space(s@[front as int]),
            forall|i: int| back <= i < n ==> is_space(#[trigger] s@[i]),
        decreases back,
    {
        back = back - 1;
    }
    proof {
        lemma_trailing_bound(s@);
        lemma_trailing_exact(s@, (n - back) as nat);
    }
    String::from_str(s.substring_char(front, back))
}

proof fn lemma_leading_exact(s: Seq<char>, k: nat)
    requires
        k <= s.len(),
        forall|i: int| 0 <= i < k ==> is_space(#[trigger] s[i]),
        k == s.len() || !is_space(s[k as int]),
    ensures
        leading_spaces(s) == k,
    decreases k,
{
    if k > 0 {
        let t = s.drop_first();
        assert forall|i: int| 0 <= i < k - 1 implies is_space(#[trigger] t[i]) by {
            assert(t[i] == s[i + 1]);
        }
        if k < s.len() {
            assert(t[k - 1] == s[k as int]);
        }
        lemma_leading_exact(t, (k - 1) as nat);
    }
}

proof fn lemma_trailing_exact(s: Seq<char>, k: nat)
    requires
        k <= s.len(),
        forall|i: int| s.len() - k <= i < s.len() ==> is_space(#[trigger] s[i]),
        k == s.len() || !is_space(s[s.len() - 1 - k]),
    ensures
        trailing_spaces(s) == k,
    decreases k,
{
    if k > 0 {
        let t = s.drop_last();
        assert forall|i: int| t.len() - (k - 1) <= i < t.len() implies is_space(#[trigger] t[i]) by {
            assert(t[i] == s[i]);
        }
        if k < s.len() {
            assert(t[t.len() - 1 - (k - 1)] == s[s.len() - 1 - k]);
        }
        assert(is_space(s.last()));
        lemma_trailing_exact(t, (k - 1) as nat);
    }
}

/// Builds the text that is embedded for a snippet. The title is repeated so
/// that it weighs more in the embedding; a missing solution contributes
/// nothing.
pub fn prepare_text(snippet: &Snippet) -> (r: String)
    ensures
        r@ == prepared_text(snippet.title@, snippet.problem@, opt_view(snippet.solution)),
{
    let mut joined = String::new();
    joined.append(snippet.title.as_str());
    joined.append(" ");
    joined.append(snippet.title.as_str());
    joined.append(" ");
    joined.append(snippet.problem.as_str());
    joined.append(" ");
    match &snippet.solution {
        Some(sol) => joined.append(sol.as_str()),
        None => {},
    }
    proof {
        reveal_strlit(" ");
        let sol = match opt_view(snippet.solution) {
            Some(s) => s,
            None => Seq::empty(),
        };
        assert(joined@ =~= snippet.title@ + seq![' '] + snippet.title@ + seq![' '] + snippet.problem@ + seq![' '] + sol);
    }
    trim(joined.as_str())
}

pub open spec fn digit_char(d: int) -> char {
    if d == 0 { '0' } else if d == 1 { '1' } else if d == 2 { '2' } else if d == 3 { '3' }
    else if d == 4 { '4' } else if d == 5 { '5' } else if d == 6 { '6' } else if d == 7 { '7' }
    else if d == 8 { '8' } else { '9' }
}

/// The decimal digits of `n`, most significant first, without leading zeros.
pub open spec fn digits(n: nat) -> Seq<char>
    decreases n,
{
    if n < 10 {
        seq![digit_char(n as int)]
    } else {
        digits(n / 10).push(digit_char((n % 10) as int))
    }
}

/// `n` written in decimal, with a leading `-` when negative.
pub open spec fn decimal(n: int) -> Seq<char> {
    if n < 0 {
        seq!['-'] + digits((-n) as nat)
    } else {
        digits(n as nat)
    }
}

fn digit_str(d: u8) -> (r: &'static str)
    requires
        d < 10,
    ensures
        r@ == seq![digit_char(d as int)],
{
    proof {
        reveal_strlit("0");
        reveal_strlit("1");
        reveal_strlit("2");
        reveal_strlit("3");
        reveal_strlit("4");
        reveal_strlit("5");
        reveal_strlit("6");
        reveal_strlit("7");
        reveal_strlit("8");
        reveal_strlit("9");
    }
    match d {
        0 => "0",
        1 => "1",
        2 => "2",
        3 => "3",
        4 => "4",
        5 => "5",
        6 => "6",
        7 => "7",
        8 => "8",
        _ => "9",
    }
}

/// Appends `n` in decimal to `out`.
pub fn append_decimal(out: &mut String, n: i64)
    ensures
        final(out)@ == old(out)@ + decimal(n as int),
{
    let mag: u64 = if n < 0 {
        out.append("-");
        proof {
            reveal_strlit("-");
        }
        (0i128 - n as i128) as u64
    } else {
        n as u64
    };
    let ghost base = out@;
    let ghost prefix: Seq<char> = if n < 0 { seq!['-'] } else { Seq::empty() };
    assert(out@ == old(out)@ + prefix);
    let mut low_first: Vec<u8> = Vec::new();
    let mut m: u64 = mag;
    while m >= 10
        invariant
            digits(mag as nat) == digits(m as nat) + Seq::new(low_first@.len(), |i: int| digit_char(low_first@[low_first@.len() - 1 - i] as int)),
            forall|i: int| 0 <= i < low_first@.len() ==> low_first@[i] < 10,
        decreases m,
    {
        let ghost before = low_first@;
        low_first.push((m % 10) as u8);
        proof {
            assert(Seq::new(low_first@.len(), |i: int| digit_char(low_first@[low_first@.len() - 1 - i] as int))
                =~= seq![digit_char((m % 10) as int)] + Seq::new(before.len(), |i: int| digit_char(before[before.len() - 1 - i] as int)));
        }
        m = m / 10;
    }
    let ghost before = low_first@;
    low_first.push(m as u8);
    let ghost all = Seq::new(low_first@.len(), |i: int| digit_char(low_first@[low_first@.len() - 1 - i] as int));
    proof {
        assert(all =~= seq![digit_char(m as int)] + Seq::new(before.len(), |i: int| digit_char(before[before.len() - 1 - i] as int)));
        assert(digits(mag as nat) == all);
    }
    let mut j: usize = low_first.len();
    while j > 0
        invariant
            j <= low_first@.len(),
            all.len() == low_first@.len(),
            all == Seq::new(low_first@.len(), |i: int| digit_char(low_first@[low_first@.len() - 1 - i] as int)),
            forall|i: int| 0 <= i < low_first@.len() ==> low_first@[i] < 10,
            out@ == base + all.subrange(0, low_first@.len() - j),
        decreases j,
    {
        j = j - 1;
        out.append(digit_str(low_first[j]));
        proof {
            assert(all.subrange(0, low_first@.len() - j) =~= all.subrange(0, low_first@.len() - j - 1).push(all[low_first@.len() - 1 - j]));
        }
    }
    proof {
        assert(all.subrange(0, all.len() as int) =~= all);
        if n < 0 {
            assert((-(n as int)) as nat == mag as nat);
        }
        assert(old(out)@ + prefix + all =~= old(out)@ + decimal(n as int));
    }
}

/// Whether an update changes the embedded text: it sets the title, the
/// problem or the solution. Other fields (code, language, link, tags) leave
/// the embedding as it is.
pub fn needs_reembed(input: &UpdateSnippetInput) -> (r: bool)
    ensures
        r == (input.title is Some || input.problem is Some || input.solution is Some),
{
    input.title.is_some() || input.problem.is_some() || input.solution.is_some()
}

/// A tag name as it is stored: the given name trimmed; an error when nothing
/// is left.
pub fn validate_tag_name(name: &str) -> (r: Result<String, String>)
    ensures
        trimmed(name@).len() > 0 ==> (r matches Ok(t) && t@ == trimmed(name@)),
        trimmed(name@).len() == 0 ==> (r matches Err(e) && e@ == "Tag name cannot be empty"@),
{
    let t = trim(name);
    if t.unicode_len() == 0 {
        Err(String::from_str("Tag name cannot be empty"))
    } else {
        Ok(t)
    }
}

} // verus!
