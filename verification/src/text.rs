//! The text of a printed document, made easier on the eye: the escapes of
//! line ends and tabs are undone, and indentation by spaces becomes tabs.
use vstd::prelude::*;

verus! {

/// `s` with every occurrence of `from` replaced by `to`, found from left to
/// right and without overlap.
pub open spec fn replaced(s: Seq<char>, from: Seq<char>, to: Seq<char>) -> Seq<char>
    decreases s.len(),
{
    if from.len() == 0 || s.len() < from.len() {
        s
    } else if s.take(from.len() as int) == from {
        to + replaced(s.skip(from.len() as int), from, to)
    } else {
        seq![s[0]] + replaced(s.skip(1), from, to)
    }
}

/// `s` without escaped carriage returns, with escaped line feeds and tabs
/// as the characters they stand for, and with every four spaces as a tab.
pub open spec fn unescaped(s: Seq<char>) -> Seq<char> {
    let s = replaced(s, seq!['\\', 'r'], seq![]);
    let s = replaced(s, seq!['\\', 'n'], seq!['\n']);
    let s = replaced(s, seq!['\\', 't'], seq!['\t']);
    replaced(s, seq![' ', ' ', ' ', ' '], seq!['\t'])
}

/// Whether `from` stands in `text` at `at`.
pub fn matches_at(text: &Vec<char>, at: usize, from: &Vec<char>) -> (b: bool)
    requires
        at + from@.len() <= text@.len(),
    ensures
        b == (text@.skip(at as int).take(from@.len() as int) == from@),
{
    let ghost here = text@.skip(at as int).take(from@.len() as int);
    let len = text.len();
    let mut j: usize = 0;
    while j < from.len()
        invariant
            j <= from@.len(),
            len == text@.len(),
            at + from@.len() <= text@.len(),
            here == text@.skip(at as int).take(from@.len() as int),
            forall|k: int| 0 <= k < j ==> here[k] == from@[k],
        decreases from@.len() - j,
    {
        if text[at + j] != from[j] {
            assert(here[j as int] != from@[j as int]);
            return false;
        }
        j += 1;
    }
    assert(here =~= from@);
    true
}

/// `text` with every occurrence of `from` replaced by `to`, found from
/// left to right and without overlap; an empty `from` occurs nowhere.
pub fn replace(text: &Vec<char>, from: &Vec<char>, to: &Vec<char>) -> (r: Vec<char>)
    ensures
        r@ == replaced(text@, from@, to@),
{
    let mut out: Vec<char> = Vec::new();
    let mut i: usize = 0;
    proof {
        assert(text@.skip(0) =~= text@);
        assert(out@ + replaced(text@, from@, to@) =~= replaced(text@, from@, to@));
    }
    while i < text.len()
        invariant
            i <= text@.len(),
            out@ + replaced(text@.skip(i as int), from@, to@) == replaced(text@, from@, to@),
        decreases text@.len() - i,
    {
        let ghost rest = text@.skip(i as int);
        let ghost done = out@;
        if from.len() > 0 && text.len() - i >= from.len() && matches_at(text, i, from) {
            let mut k: usize = 0;
            while k < to.len()
                invariant
                    k <= to@.len(),
                    out@ == done + to@.take(k as int),
                decreases to@.len() - k,
            {
                out.push(to[k]);
                proof {
                    assert(out@ =~= done + to@.take(k + 1));
                }
                k += 1;
            }
            proof {
                assert(to@.take(k as int) =~= to@);
                assert(rest.skip(from@.len() as int) =~= text@.skip(i + from@.len()));
                assert(done + to@ + replaced(text@.skip(i + from@.len()), from@, to@) =~= done + (to@
                    + replaced(rest.skip(from@.len() as int), from@, to@)));
            }
            i += from.len();
        } else {
            out.push(text[i]);
            proof {
                assert(rest.skip(1) =~= text@.skip(i + 1));
                if from@.len() == 0 || rest.len() < from@.len() {
                    // what is left is too short to hold `from`: it stays as it is
                    lemma_short_stays(rest, from@, to@);
                    lemma_short_stays(rest.skip(1), from@, to@);
                    assert(rest =~= seq![rest[0]] + rest.skip(1));
                }
                assert(out@ + replaced(text@.skip(i + 1), from@, to@) =~= done + (seq![rest[0]]
                    + replaced(rest.skip(1), from@, to@)));
            }
            i += 1;
        }
    }
    proof {
        assert(text@.skip(i as int) =~= Seq::<char>::empty());
        assert(out@ + Seq::<char>::empty() =~= out@);
    }
    out
}

/// Where `s` is too short to hold `from`, or `from` is empty, nothing is
/// replaced.
pub proof fn lemma_short_stays(s: Seq<char>, from: Seq<char>, to: Seq<char>)
    requires
        from.len() == 0 || s.len() < from.len(),
    ensures
        replaced(s, from, to) == s,
{
}

/// The characters of `text`.
pub fn chars_of(text: &str) -> (r: Vec<char>)
    ensures
        r@ == text@,
{
    let mut out: Vec<char> = Vec::new();
    for c in it: text.chars()
        invariant
            out@ == it.seq().take(it.index() as int),
            it.seq() == text@,
    {
        out.push(c);
        proof {
            assert(out@ =~= it.seq().take(it.index() + 1));
        }
    }
    proof {
        assert(text@.take(text@.len() as int) =~= text@);
    }
    out
}

/// The string of `chars`, made by `String::from_iter`: it holds the
/// characters handed to it, in their order.
#[verifier::external_body]
fn string_of(chars: &Vec<char>) -> (s: String)
    ensures
        s@ == chars@,
{
    String::from_iter(chars.iter())
}

/// `text` without escaped carriage returns, with escaped line feeds and
/// tabs as the characters they stand for, and with every four spaces as a
/// tab.
pub fn unescape(text: &str) -> (r: String)
    ensures
        r@ == unescaped(text@),
{
    let nothing: Vec<char> = Vec::new();
    let escaped_return = vec!['\\', 'r'];
    let escaped_feed = vec!['\\', 'n'];
    let escaped_tab = vec!['\\', 't'];
    let feed = vec!['\n'];
    let tab = vec!['\t'];
    let spaces = vec![' ', ' ', ' ', ' '];
    proof {
        assert(nothing@ =~= seq![]);
        assert(escaped_return@ =~= seq!['\\', 'r']);
        assert(escaped_feed@ =~= seq!['\\', 'n']);
        assert(escaped_tab@ =~= seq!['\\', 't']);
        assert(feed@ =~= seq!['\n']);
        assert(tab@ =~= seq!['\t']);
        assert(spaces@ =~= seq![' ', ' ', ' ', ' ']);
    }
    let chars = chars_of(text);
    let chars = replace(&chars, &escaped_return, &nothing);
    let chars = replace(&chars, &escaped_feed, &feed);
    let chars = replace(&chars, &escaped_tab, &tab);
    let chars = replace(&chars, &spaces, &tab);
    string_of(&chars)
}

} // verus!
