//! Small verified toolkit for working with strings as sequences of
//! characters: splitting, joining, trimming, searching.
//!
//! Everything downstream (command-line parsing, CSV rows, list files) is
//! specified over these sequence-level functions.

use vstd::prelude::*;
use vstd::string::*;

verus! {

/// The separator characters recognised when a configuration field is read as
/// a space-separated list.
pub open spec fn is_space(c: char) -> bool {
    c == ' ' || c == '\t' || c == '\r' || c == '\n'
}

/// Split `s` at every occurrence of `sep`.  Always returns at least one
/// piece; separators themselves are dropped.
pub open spec fn split_at_char(s: Seq<char>, sep: char) -> Seq<Seq<char>>
    decreases s.len(),
{
    if s.len() == 0 {
        seq![Seq::<char>::empty()]
    } else if s[0] == sep {
        seq![Seq::<char>::empty()] + split_at_char(s.drop_first(), sep)
    } else {
        let rest = split_at_char(s.drop_first(), sep);
        seq![seq![s[0]] + rest[0]] + rest.drop_first()
    }
}

/// Split `s` at every whitespace character.
pub open spec fn split_at_space(s: Seq<char>) -> Seq<Seq<char>>
    decreases s.len(),
{
    if s.len() == 0 {
        seq![Seq::<char>::empty()]
    } else if is_space(s[0]) {
        seq![Seq::<char>::empty()] + split_at_space(s.drop_first())
    } else {
        let rest = split_at_space(s.drop_first());
        seq![seq![s[0]] + rest[0]] + rest.drop_first()
    }
}

/// Drop the empty pieces of a split.
pub open spec fn nonempty_pieces(ps: Seq<Seq<char>>) -> Seq<Seq<char>> {
    ps.filter(|p: Seq<char>| p.len() > 0)
}

/// The whitespace-separated tokens of `s`, in order.
pub open spec fn tokens_of(s: Seq<char>) -> Seq<Seq<char>> {
    nonempty_pieces(split_at_space(s))
}

/// Concatenate `pieces` with `sep` between consecutive pieces.
pub open spec fn join_with(pieces: Seq<Seq<char>>, sep: Seq<char>) -> Seq<char>
    decreases pieces.len(),
{
    if pieces.len() == 0 {
        Seq::<char>::empty()
    } else if pieces.len() == 1 {
        pieces[0]
    } else {
        pieces[0] + sep + join_with(pieces.drop_first(), sep)
    }
}

/// `s` without leading whitespace.
pub open spec fn trim_front(s: Seq<char>) -> Seq<char>
    decreases s.len(),
{
    if s.len() > 0 && is_space(s[0]) {
        trim_front(s.drop_first())
    } else {
        s
    }
}

/// `s` without trailing whitespace.
pub open spec fn trim_back(s: Seq<char>) -> Seq<char>
    decreases s.len(),
{
    if s.len() > 0 && is_space(s[s.len() - 1]) {
        trim_back(s.drop_last())
    } else {
        s
    }
}

/// `s` without leading and trailing whitespace.
pub open spec fn trim_of(s: Seq<char>) -> Seq<char> {
    trim_back(trim_front(s))
}

/// `pat` occurs in `s` starting at position `i`.
pub open spec fn matches_at(s: Seq<char>, pat: Seq<char>, i: int) -> bool {
    0 <= i && i + pat.len() <= s.len() && s.subrange(i, i + pat.len()) == pat
}

/// `pat` occurs somewhere in `s`.
pub open spec fn has_substring(s: Seq<char>, pat: Seq<char>) -> bool {
    exists|i: int| matches_at(s, pat, i)
}

pub proof fn lemma_split_at_char_nonempty(s: Seq<char>, sep: char)
    ensures
        split_at_char(s, sep).len() >= 1,
    decreases s.len(),
{
    if s.len() > 0 {
        lemma_split_at_char_nonempty(s.drop_first(), sep);
    }
}

pub proof fn lemma_split_at_space_nonempty(s: Seq<char>)
    ensures
        split_at_space(s).len() >= 1,
    decreases s.len(),
{
    if s.len() > 0 {
        lemma_split_at_space_nonempty(s.drop_first());
    }
}

/// Unfolds `split_at_char` one separator step from position `i`.
pub proof fn lemma_split_char_step_sep(s: Seq<char>, sep: char, i: int)
    requires
        0 <= i < s.len(),
        s[i] == sep,
    ensures
        split_at_char(s.skip(i), sep) == seq![Seq::<char>::empty()] + split_at_char(
            s.skip(i + 1),
            sep,
        ),
{
    assert(s.skip(i).len() > 0);
    assert(s.skip(i)[0] == s[i]);
    assert(s.skip(i).drop_first() =~= s.skip(i + 1));
}

/// Unfolds `split_at_char` one ordinary-character step from position `i`.
pub proof fn lemma_split_char_step_chr(s: Seq<char>, sep: char, i: int)
    requires
        0 <= i < s.len(),
        s[i] != sep,
    ensures
        split_at_char(s.skip(i), sep) == seq![seq![s[i]] + split_at_char(s.skip(i + 1), sep)[0]]
            + split_at_char(s.skip(i + 1), sep).drop_first(),
{
    assert(s.skip(i).len() > 0);
    assert(s.skip(i)[0] == s[i]);
    assert(s.skip(i).drop_first() =~= s.skip(i + 1));
}

/// Unfolds `split_at_space` one separator step from position `i`.
pub proof fn lemma_split_space_step_sep(s: Seq<char>, i: int)
    requires
        0 <= i < s.len(),
        is_space(s[i]),
    ensures
        split_at_space(s.skip(i)) == seq![Seq::<char>::empty()] + split_at_space(s.skip(i + 1)),
{
    assert(s.skip(i).len() > 0);
    assert(s.skip(i)[0] == s[i]);
    assert(s.skip(i).drop_first() =~= s.skip(i + 1));
}

/// Unfolds `split_at_space` one ordinary-character step from position `i`.
pub proof fn lemma_split_space_step_chr(s: Seq<char>, i: int)
    requires
        0 <= i < s.len(),
        !is_space(s[i]),
    ensures
        split_at_space(s.skip(i)) == seq![seq![s[i]] + split_at_space(s.skip(i + 1))[0]]
            + split_at_space(s.skip(i + 1)).drop_first(),
{
    assert(s.skip(i).len() > 0);
    assert(s.skip(i)[0] == s[i]);
    assert(s.skip(i).drop_first() =~= s.skip(i + 1));
}

/// Whether two strings hold the same characters.
pub fn str_eq(a: &str, b: &str) -> (r: bool)
    ensures
        r == (a@ == b@),
{
    let n: usize = a.unicode_len();
    let m: usize = b.unicode_len();
    if n != m {
        return false;
    }
    let mut i: usize = 0;
    while i < n
        invariant
            n == a@.len(),
            n == b@.len(),
            0 <= i <= n,
            forall|j: int| 0 <= j < i ==> a@[j] == b@[j],
        decreases n - i,
    {
        if a.get_char(i) != b.get_char(i) {
            return false;
        }
        i += 1;
    }
    proof {
        assert(a@ =~= b@);
    }
    true
}

/// Relies on `String::push`, which std documents as appending the given
/// character; vstd gives it no specification.
#[verifier::external_body]
pub fn push_char(s: &mut String, c: char)
    ensures
        final(s)@ == old(s)@.push(c),
{
    s.push(c);
}

/// A fresh owned copy of a borrowed string.
pub fn copy_str(s: &str) -> (r: String)
    ensures
        r@ == s@,
{
    s.to_owned()
}

/// Whether `s` contains the character `c`.
pub fn contains_char(s: &str, c: char) -> (r: bool)
    ensures
        r == s@.contains(c),
{
    let n: usize = s.unicode_len();
    let mut i: usize = 0;
    while i < n
        invariant
            n == s@.len(),
            0 <= i <= n,
            forall|j: int| 0 <= j < i ==> s@[j] != c,
        decreases n - i,
    {
        if s.get_char(i) == c {
            assert(s@.contains(c));
            return true;
        }
        i += 1;
    }
    assert(!s@.contains(c));
    false
}

/// Split `s` at every occurrence of the character `sep`.
pub fn split_char(s: &str, sep: char) -> (r: Vec<String>)
    ensures
        r.deep_view() == split_at_char(s@, sep),
{
    let n: usize = s.unicode_len();
    let mut done: Vec<String> = Vec::new();
    let mut cur: String = String::new();
    let mut i: usize = 0;
    proof {
        lemma_split_at_char_nonempty(s@, sep);
        assert(s@.skip(0) =~= s@);
        assert(split_at_char(s@, sep) =~~= done.deep_view() + seq![
            cur@ + split_at_char(s@.skip(0), sep)[0],
        ] + split_at_char(s@.skip(0), sep).drop_first());
    }
    while i < n
        invariant
            n == s@.len(),
            0 <= i <= n,
            split_at_char(s@, sep) =~~= done.deep_view() + seq![
                cur@ + split_at_char(s@.skip(i as int), sep)[0],
            ] + split_at_char(s@.skip(i as int), sep).drop_first(),
        decreases n - i,
    {
        let c = s.get_char(i);
        let ghost prev_done = done.deep_view();
        if c == sep {
            proof {
                lemma_split_char_step_sep(s@, sep, i as int);
                lemma_split_at_char_nonempty(s@.skip(i + 1), sep);
            }
            done.push(cur);
            cur = String::new();
            proof {
                assert(done.deep_view() =~= prev_done.push(done@[done@.len() - 1]@));
            }
        } else {
            proof {
                lemma_split_char_step_chr(s@, sep, i as int);
                lemma_split_at_char_nonempty(s@.skip(i + 1), sep);
            }
            push_char(&mut cur, c);
        }
        i += 1;
    }
    proof {
        assert(s@.skip(n as int) =~= Seq::<char>::empty());
    }
    let ghost prev_done = done.deep_view();
    done.push(cur);
    proof {
        assert(done.deep_view() =~= prev_done.push(done@[done@.len() - 1]@));
        assert(done.deep_view() =~~= split_at_char(s@, sep));
    }
    done
}

/// Split `s` at every whitespace character.
pub fn split_spaces(s: &str) -> (r: Vec<String>)
    ensures
        r.deep_view() == split_at_space(s@),
{
    let n: usize = s.unicode_len();
    let mut done: Vec<String> = Vec::new();
    let mut cur: String = String::new();
    let mut i: usize = 0;
    proof {
        lemma_split_at_space_nonempty(s@);
        assert(s@.skip(0) =~= s@);
        assert(split_at_space(s@) =~~= done.deep_view() + seq![
            cur@ + split_at_space(s@.skip(0))[0],
        ] + split_at_space(s@.skip(0)).drop_first());
    }
    while i < n
        invariant
            n == s@.len(),
            0 <= i <= n,
            split_at_space(s@) =~~= done.deep_view() + seq![
                cur@ + split_at_space(s@.skip(i as int))[0],
            ] + split_at_space(s@.skip(i as int)).drop_first(),
        decreases n - i,
    {
        let c = s.get_char(i);
        let ghost prev_done = done.deep_view();
        if c == ' ' || c == '\t' || c == '\r' || c == '\n' {
            proof {
                lemma_split_space_step_sep(s@, i as int);
                lemma_split_at_space_nonempty(s@.skip(i + 1));
            }
            done.push(cur);
            cur = String::new();
            proof {
                assert(done.deep_view() =~= prev_done.push(done@[done@.len() - 1]@));
            }
        } else {
            proof {
                lemma_split_space_step_chr(s@, i as int);
                lemma_split_at_space_nonempty(s@.skip(i + 1));
            }
            push_char(&mut cur, c);
        }
        i += 1;
    }
    proof {
        assert(s@.skip(n as int) =~= Seq::<char>::empty());
    }
    let ghost prev_done = done.deep_view();
    done.push(cur);
    proof {
        assert(done.deep_view() =~= prev_done.push(done@[done@.len() - 1]@));
        assert(done.deep_view() =~~= split_at_space(s@));
    }
    done
}

/// The whitespace-separated tokens of `s`, in order, with empties dropped.
pub fn tokens(s: &str) -> (r: Vec<String>)
    ensures
        r.deep_view() == tokens_of(s@),
{
    let pieces = split_spaces(s);
    let mut out: Vec<String> = Vec::new();
    let mut i: usize = 0;
    proof {
        assert(pieces.deep_view().take(0) =~= Seq::<Seq<char>>::empty());
    }
    while i < pieces.len()
        invariant
            0 <= i <= pieces@.len(),
            pieces.deep_view() == split_at_space(s@),
            out.deep_view() == nonempty_pieces(pieces.deep_view().take(i as int)),
        decreases pieces@.len() - i,
    {
        let ghost prev_out = out.deep_view();
        let piece = &pieces[i];
        proof {
            reveal(Seq::filter);
            assert(pieces.deep_view().take(i + 1).drop_last() =~= pieces.deep_view().take(i as int));
            assert(pieces.deep_view().take(i + 1).last() == piece@);
        }
        if !piece.as_str().is_empty() {
            let copied = copy_str(piece.as_str());
            out.push(copied);
            proof {
                assert(out.deep_view() =~= prev_out.push(piece@));
            }
        }
        i += 1;
    }
    proof {
        assert(pieces.deep_view().take(pieces@.len() as int) =~= pieces.deep_view());
    }
    out
}

/// Appending one more piece extends the joined string by a separator and
/// that piece.
pub proof fn lemma_join_with_push(ps: Seq<Seq<char>>, p: Seq<char>, sep: Seq<char>)
    ensures
        ps.len() == 0 ==> join_with(ps.push(p), sep) == p,
        ps.len() > 0 ==> join_with(ps.push(p), sep) =~= join_with(ps, sep) + sep + p,
    decreases ps.len(),
{
    if ps.len() == 0 {
        assert(ps.push(p)[0] == p);
    } else {
        lemma_join_with_push(ps.drop_first(), p, sep);
        assert(ps.push(p).drop_first() =~= ps.drop_first().push(p));
        assert(ps.push(p)[0] == ps[0]);
        if ps.len() == 1 {
            assert(join_with(ps, sep) == ps[0]);
            assert(join_with(ps.push(p), sep) =~= ps[0] + sep + p);
        } else {
            assert(join_with(ps.push(p), sep) =~= ps[0] + sep + (join_with(ps.drop_first(), sep)
                + sep + p));
            assert(join_with(ps, sep) + sep + p =~= ps[0] + sep + (join_with(ps.drop_first(), sep)
                + sep + p));
        }
    }
}

/// Concatenate the strings in `pieces`, placing `sep` between them.
pub fn join(pieces: &Vec<String>, sep: &str) -> (r: String)
    ensures
        r@ == join_with(pieces.deep_view(), sep@),
{
    let mut out = String::new();
    let mut i: usize = 0;
    proof {
        assert(pieces.deep_view().take(0) =~= Seq::<Seq<char>>::empty());
    }
    while i < pieces.len()
        invariant
            0 <= i <= pieces@.len(),
            out@ =~= join_with(pieces.deep_view().take(i as int), sep@),
        decreases pieces@.len() - i,
    {
        proof {
            assert(pieces.deep_view().take(i + 1) =~= pieces.deep_view().take(i as int).push(
                pieces.deep_view()[i as int],
            ));
            lemma_join_with_push(
                pieces.deep_view().take(i as int),
                pieces.deep_view()[i as int],
                sep@,
            );
        }
        if i > 0 {
            out.append(sep);
        }
        out.append(pieces[i].as_str());
        i += 1;
    }
    proof {
        assert(pieces.deep_view().take(pieces@.len() as int) =~= pieces.deep_view());
    }
    out
}

/// `s` trimmed of leading and trailing whitespace.
pub fn trim(s: &str) -> (r: String)
    ensures
        r@ == trim_of(s@),
{
    let n: usize = s.unicode_len();
    let mut a: usize = 0;
    proof {
        assert(s@.skip(0) =~= s@);
    }
    loop
        invariant
            n == s@.len(),
            0 <= a <= n,
            trim_front(s@) == trim_front(s@.skip(a as int)),
        ensures
            0 <= a <= n,
            trim_front(s@) == trim_front(s@.skip(a as int)),
            trim_front(s@.skip(a as int)) == s@.skip(a as int),
        decreases n - a,
    {
        if a >= n {
            proof {
                assert(s@.skip(a as int) =~= Seq::<char>::empty());
            }
            break;
        }
        let c = s.get_char(a);
        if !(c == ' ' || c == '\t' || c == '\r' || c == '\n') {
            proof {
                assert(s@.skip(a as int)[0] == s@[a as int]);
            }
            break;
        }
        proof {
            assert(s@.skip(a as int)[0] == s@[a as int]);
            assert(s@.skip(a as int).drop_first() =~= s@.skip(a + 1));
        }
        a += 1;
    }
    let mut b: usize = n;
    proof {
        assert(s@.skip(a as int) =~= s@.subrange(a as int, n as int));
    }
    loop
        invariant
            n == s@.len(),
            a <= b <= n,
            trim_back(s@.skip(a as int)) == trim_back(s@.subrange(a as int, b as int)),
        ensures
            a <= b <= n,
            trim_back(s@.skip(a as int)) == s@.subrange(a as int, b as int),
        decreases b,
    {
        proof {
            assert(s@.skip(a as int) =~= s@.subrange(a as int, n as int));
        }
        if b <= a {
            proof {
                assert(s@.subrange(a as int, b as int) =~= Seq::<char>::empty());
            }
            break;
        }
        let c = s.get_char(b - 1);
        if !(c == ' ' || c == '\t' || c == '\r' || c == '\n') {
            proof {
                assert(s@.subrange(a as int, b as int)[b - a - 1] == s@[b - 1]);
            }
            break;
        }
        proof {
            assert(s@.subrange(a as int, b as int)[b - a - 1] == s@[b - 1]);
            assert(s@.subrange(a as int, b as int).drop_last() =~= s@.subrange(a as int, b - 1));
        }
        b -= 1;
    }
    let piece = s.substring_char(a, b);
    copy_str(piece)
}

/// Whether `pat` occurs in `s` starting at position `i`.
pub fn match_at(s: &str, pat: &str, i: usize) -> (r: bool)
    requires
        i + pat@.len() <= s@.len(),
    ensures
        r == matches_at(s@, pat@, i as int),
{
    let n: usize = s.unicode_len();
    let m: usize = pat.unicode_len();
    let mut j: usize = 0;
    while j < m
        invariant
            n == s@.len(),
            m == pat@.len(),
            i + m <= n,
            0 <= j <= m,
            forall|t: int| 0 <= t < j ==> s@[i + t] == pat@[t],
        decreases m - j,
    {
        if s.get_char(i + j) != pat.get_char(j) {
            proof {
                assert(s@.subrange(i as int, i + m as int)[j as int] == s@[i + j]);
            }
            return false;
        }
        j += 1;
    }
    proof {
        assert(s@.subrange(i as int, i + m as int) =~= pat@);
    }
    true
}

/// Whether `pat` occurs anywhere in `s`.
pub fn contains_sub(s: &str, pat: &str) -> (r: bool)
    ensures
        r == has_substring(s@, pat@),
{
    let n: usize = s.unicode_len();
    let m: usize = pat.unicode_len();
    if m > n {
        assert(!has_substring(s@, pat@));
        return false;
    }
    if m == 0 {
        proof {
            assert(s@.subrange(0, 0) =~= pat@);
            assert(matches_at(s@, pat@, 0));
        }
        return true;
    }
    let mut i: usize = 0;
    while i <= n - m
        invariant
            n == s@.len(),
            m == pat@.len(),
            0 < m <= n,
            0 <= i <= n - m + 1,
            forall|k: int| 0 <= k < i ==> !matches_at(s@, pat@, k),
        decreases n - i,
    {
        if match_at(s, pat, i) {
            return true;
        }
        i += 1;
    }
    assert(forall|k: int| matches_at(s@, pat@, k) ==> 0 <= k <= n - m);
    false
}

/// Whether `s` begins with `pat`.
pub fn starts_with(s: &str, pat: &str) -> (r: bool)
    ensures
        r == (pat@.len() <= s@.len() && matches_at(s@, pat@, 0)),
{
    let n: usize = s.unicode_len();
    let m: usize = pat.unicode_len();
    if m > n {
        return false;
    }
    match_at(s, pat, 0)
}

/// Whether `s` ends with `pat`.
pub fn ends_with(s: &str, pat: &str) -> (r: bool)
    ensures
        r == (pat@.len() <= s@.len() && matches_at(s@, pat@, s@.len() - pat@.len())),
{
    let n: usize = s.unicode_len();
    let m: usize = pat.unicode_len();
    if m > n {
        return false;
    }
    match_at(s, pat, n - m)
}

/// The first occurrence of `c` in `s` at or after position `start`.
pub fn find_char_from(s: &str, c: char, start: usize) -> (r: Option<usize>)
    requires
        start <= s@.len(),
    ensures
        match r {
            Some(i) => start <= i < s@.len() && s@[i as int] == c && forall|j: int|
                start <= j < i ==> s@[j] != c,
            None => forall|j: int| start <= j < s@.len() ==> s@[j] != c,
        },
{
    let n: usize = s.unicode_len();
    let mut i: usize = start;
    while i < n
        invariant
            n == s@.len(),
            start <= i <= n,
            forall|j: int| start <= j < i ==> s@[j] != c,
        decreases n - i,
    {
        if s.get_char(i) == c {
            return Some(i);
        }
        i += 1;
    }
    None
}

/// The character for a single decimal digit.
pub open spec fn dec_digit(d: nat) -> char {
    if d == 0 {
        '0'
    } else if d == 1 {
        '1'
    } else if d == 2 {
        '2'
    } else if d == 3 {
        '3'
    } else if d == 4 {
        '4'
    } else if d == 5 {
        '5'
    } else if d == 6 {
        '6'
    } else if d == 7 {
        '7'
    } else if d == 8 {
        '8'
    } else {
        '9'
    }
}

/// The decimal representation of `n`, most significant digit first.
pub open spec fn dec_str_of(n: nat) -> Seq<char>
    decreases n,
{
    if n < 10 {
        seq![dec_digit(n)]
    } else {
        dec_str_of(n / 10).push(dec_digit(n % 10))
    }
}

/// The decimal representation of a number, as a string.
pub fn u32_string(x: u32) -> (r: String)
    ensures
        r@ == dec_str_of(x as nat),
    decreases x,
{
    let d: u32 = x % 10;
    let c: char = if d == 0 {
        '0'
    } else if d == 1 {
        '1'
    } else if d == 2 {
        '2'
    } else if d == 3 {
        '3'
    } else if d == 4 {
        '4'
    } else if d == 5 {
        '5'
    } else if d == 6 {
        '6'
    } else if d == 7 {
        '7'
    } else if d == 8 {
        '8'
    } else {
        '9'
    };
    if x < 10 {
        let mut r = String::new();
        push_char(&mut r, c);
        assert(r@ =~= seq![dec_digit(x as nat)]);
        r
    } else {
        let mut r = u32_string(x / 10);
        push_char(&mut r, c);
        r
    }
}

/// A split piece with one trailing carriage return removed.
pub open spec fn strip_cr(p: Seq<char>) -> Seq<char> {
    if p.len() > 0 && p[p.len() - 1] == '\r' {
        p.drop_last()
    } else {
        p
    }
}

/// `strip_cr` applied to every piece.
pub open spec fn strip_all_cr(ps: Seq<Seq<char>>) -> Seq<Seq<char>> {
    ps.map_values(|p: Seq<char>| strip_cr(p))
}

/// The lines of `s`: pieces between newline characters, each with one
/// trailing carriage return removed, and without a final empty line when the
/// text ends in a newline.
pub open spec fn lines_of(s: Seq<char>) -> Seq<Seq<char>> {
    let ps = split_at_char(s, '\n');
    let kept = if ps.len() > 0 && ps[ps.len() - 1].len() == 0 {
        ps.drop_last()
    } else {
        ps
    };
    strip_all_cr(kept)
}

/// The raw lines of `s`: pieces between newline characters, byte for byte
/// as they stand (a trailing carriage return included), without a final
/// empty piece when the text ends in a newline.
pub open spec fn raw_lines_of(s: Seq<char>) -> Seq<Seq<char>> {
    let ps = split_at_char(s, '\n');
    if ps.len() > 0 && ps[ps.len() - 1].len() == 0 {
        ps.drop_last()
    } else {
        ps
    }
}

/// Split `s` into its raw lines, leaving every line untouched.
pub fn raw_lines(s: &str) -> (r: Vec<String>)
    ensures
        r.deep_view() == raw_lines_of(s@),
{
    let mut ps = split_char(s, '\n');
    let ghost raw = ps.deep_view();
    if ps.len() > 0 && ps[ps.len() - 1].as_str().is_empty() {
        ps.pop();
        proof {
            assert(ps.deep_view() =~= raw.drop_last());
        }
    }
    ps
}

/// Split `s` into lines.
pub fn lines(s: &str) -> (r: Vec<String>)
    ensures
        r.deep_view() == lines_of(s@),
{
    let mut ps = split_char(s, '\n');
    let ghost raw = ps.deep_view();
    if ps.len() > 0 && ps[ps.len() - 1].as_str().is_empty() {
        ps.pop();
        proof {
            assert(ps.deep_view() =~= raw.drop_last());
        }
    }
    let ghost kept = ps.deep_view();
    let mut out: Vec<String> = Vec::new();
    let mut i: usize = 0;
    proof {
        assert(out.deep_view() =~= strip_all_cr(kept.take(0)));
    }
    while i < ps.len()
        invariant
            kept == ps.deep_view(),
            0 <= i <= ps@.len(),
            out.deep_view() =~= strip_all_cr(kept.take(i as int)),
        decreases ps@.len() - i,
    {
        let ghost prev_out = out.deep_view();
        let piece = &ps[i];
        let plen: usize = piece.as_str().unicode_len();
        let stripped: String = if plen > 0 && piece.as_str().get_char(plen - 1) == '\r' {
            copy_str(piece.as_str().substring_char(0, plen - 1))
        } else {
            copy_str(piece.as_str())
        };
        assert(stripped@ == strip_cr(kept[i as int]));
        out.push(stripped);
        proof {
            assert(out.deep_view() =~= prev_out.push(strip_cr(kept[i as int])));
            assert(out.deep_view() =~= strip_all_cr(kept.take(i + 1)));
        }
        i += 1;
    }
    proof {
        assert(kept.take(kept.len() as int) =~= kept);
        if raw.len() > 0 && raw[raw.len() - 1].len() == 0 {
            assert(out.deep_view() =~= lines_of(s@));
        } else {
            assert(out.deep_view() =~= lines_of(s@));
        }
    }
    out
}

} // verus!
