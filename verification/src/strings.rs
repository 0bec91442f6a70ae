//! Verified character-level string utilities.
//!
//! Rust's `str` transformations (splitting, substring replacement,
//! case folding, quote stripping) are re-implemented here over `Vec<char>`
//! so that every one of them carries an exact contract over `Seq<char>`.

use vstd::prelude::*;
use vstd::string::StrSliceExecFns;

verus! {

/// Relies on String::push: appends one character at the end of the string.
#[verifier::external_body]
pub fn push_char(s: &mut String, c: char)
    ensures
        final(s)@ == old(s)@.push(c),
{
    s.push(c);
}

/// The characters of a string slice, in order.
pub fn to_char_vec(s: &str) -> (r: Vec<char>)
    ensures
        r@ == s@,
{
    let n = s.unicode_len();
    let mut r: Vec<char> = Vec::new();
    for i in 0..n
        invariant
            n == s@.len(),
            r@ == s@.take(i as int),
    {
        r.push(s.get_char(i));
        assert(s@.take(i + 1) =~= s@.take(i as int).push(s@[i as int]));
    }
    assert(s@.take(n as int) =~= s@);
    r
}

/// A freshly allocated string made of exactly the given characters.
pub fn from_char_vec(v: &Vec<char>) -> (r: String)
    ensures
        r@ == v@,
{
    let mut r = String::new();
    let n = v.len();
    for i in 0..n
        invariant
            n == v@.len(),
            r@ == v@.take(i as int),
    {
        push_char(&mut r, v[i]);
        assert(v@.take(i + 1) =~= v@.take(i as int).push(v@[i as int]));
    }
    assert(v@.take(n as int) =~= v@);
    r
}

/// Character-for-character equality of two string slices.
pub fn str_eq(a: &str, b: &str) -> (r: bool)
    ensures
        r == (a@ == b@),
{
    let an = a.unicode_len();
    let bn = b.unicode_len();
    if an != bn {
        return false;
    }
    for i in 0..an
        invariant
            an == a@.len(),
            an == b@.len(),
            forall|j: int| 0 <= j < i ==> a@[j] == b@[j],
    {
        if a.get_char(i) != b.get_char(i) {
            return false;
        }
    }
    proof {
        assert(a@ =~= b@);
    }
    true
}

/// Whether the string begins with the given prefix.
pub fn starts_with_str(s: &str, prefix: &str) -> (r: bool)
    ensures
        r == (s@.len() >= prefix@.len() && s@.subrange(0, prefix@.len() as int) == prefix@),
{
    let sn = s.unicode_len();
    let pn = prefix.unicode_len();
    if sn < pn {
        return false;
    }
    for i in 0..pn
        invariant
            sn == s@.len(),
            pn == prefix@.len(),
            pn <= sn,
            forall|j: int| 0 <= j < i ==> s@[j] == prefix@[j],
    {
        if s.get_char(i) != prefix.get_char(i) {
            proof {
                assert(s@.subrange(0, prefix@.len() as int)[i as int] == s@[i as int]);
            }
            return false;
        }
    }
    proof {
        assert(s@.subrange(0, prefix@.len() as int) =~= prefix@);
    }
    true
}

/// The pieces of `s` between occurrences of `sep`, as Rust's `split` yields
/// them: an empty input gives one empty piece, and a separator at either
/// end gives an empty piece on that side.
pub open spec fn split_spec(s: Seq<char>, sep: char) -> Seq<Seq<char>>
    decreases s.len(),
{
    if s.len() == 0 {
        seq![Seq::<char>::empty()]
    } else if s[0] == sep {
        seq![Seq::<char>::empty()] + split_spec(s.skip(1), sep)
    } else {
        let rest = split_spec(s.skip(1), sep);
        seq![seq![s[0]] + rest[0]] + rest.skip(1)
    }
}

pub proof fn lemma_split_spec_nonempty(s: Seq<char>, sep: char)
    ensures
        split_spec(s, sep).len() >= 1,
    decreases s.len(),
{
    if s.len() == 0 {
    } else if s[0] == sep {
        lemma_split_spec_nonempty(s.skip(1), sep);
    } else {
        lemma_split_spec_nonempty(s.skip(1), sep);
    }
}

/// The split of a string whose first piece is extended on the left by `p`.
pub open spec fn prepend_first(p: Seq<char>, parts: Seq<Seq<char>>) -> Seq<Seq<char>>
    recommends
        parts.len() >= 1,
{
    seq![p + parts[0]] + parts.skip(1)
}

/// Split `s` at every occurrence of `sep`.
pub fn split_on_char(s: &str, sep: char) -> (r: Vec<String>)
    ensures
        r.deep_view() == split_spec(s@, sep),
        r@.len() >= 1,
{
    let cs = to_char_vec(s);
    let n = cs.len();
    let mut parts: Vec<String> = Vec::new();
    let mut cur: Vec<char> = Vec::new();
    proof {
        lemma_split_spec_nonempty(s@, sep);
        assert(s@.skip(0) =~= s@);
        assert(Seq::<char>::empty() + split_spec(s@, sep)[0] =~= split_spec(s@, sep)[0]);
        assert(prepend_first(Seq::<char>::empty(), split_spec(s@, sep)) =~= split_spec(s@, sep));
        assert(parts.deep_view() + prepend_first(cur@, split_spec(s@, sep)) =~= split_spec(
            s@,
            sep,
        ));
    }
    for i in 0..n
        invariant
            n == s@.len(),
            cs@ == s@,
            split_spec(s@, sep) =~= parts.deep_view() + prepend_first(
                cur@,
                split_spec(s@.skip(i as int), sep),
            ),
    {
        let ghost here = split_spec(s@.skip(i as int), sep);
        let ghost rest = split_spec(s@.skip(i + 1), sep);
        proof {
            lemma_split_spec_nonempty(s@.skip(i + 1), sep);
            assert(s@.skip(i as int).skip(1) =~= s@.skip(i + 1));
            assert(s@.skip(i as int)[0] == s@[i as int]);
        }
        let c = cs[i];
        if c == sep {
            let ghost pdv = parts.deep_view();
            let ghost curv = cur@;
            let piece = from_char_vec(&cur);
            parts.push(piece);
            cur = Vec::new();
            proof {
                assert(here =~= seq![Seq::<char>::empty()] + rest);
                assert(curv + here[0] =~= curv);
                assert(here.skip(1) =~= rest);
                assert(prepend_first(curv, here) =~= seq![curv] + rest);
                assert(parts.deep_view() =~= pdv.push(curv));
                assert(Seq::<char>::empty() + rest[0] =~= rest[0]);
                assert(prepend_first(cur@, rest) =~= rest);
                assert(parts.deep_view() + prepend_first(cur@, rest) =~= pdv + prepend_first(
                    curv,
                    here,
                ));
            }
        } else {
            let ghost curv = cur@;
            cur.push(c);
            proof {
                assert(here =~= seq![seq![s@[i as int]] + rest[0]] + rest.skip(1));
                assert(cur@ + rest[0] =~= curv + here[0]);
                assert(here.skip(1) =~= rest.skip(1));
                assert(prepend_first(cur@, rest) =~= prepend_first(curv, here));
            }
        }
    }
    proof {
        assert(s@.skip(n as int) =~= Seq::<char>::empty());
    }
    let ghost pdv = parts.deep_view();
    let ghost curv = cur@;
    let piece = from_char_vec(&cur);
    parts.push(piece);
    proof {
        assert(parts.deep_view() =~= pdv.push(curv));
        assert(curv + split_spec(Seq::<char>::empty(), sep)[0] =~= curv);
        assert(prepend_first(curv, split_spec(Seq::<char>::empty(), sep)) =~= seq![curv]);
        assert(parts.deep_view() =~= split_spec(s@, sep));
    }
    parts
}

/// Left-to-right, non-overlapping replacement of `pat` by `rep`.
/// An empty pattern leaves the string unchanged.
pub open spec fn replace_spec(s: Seq<char>, pat: Seq<char>, rep: Seq<char>) -> Seq<char>
    decreases s.len(),
{
    if pat.len() == 0 || s.len() < pat.len() {
        s
    } else if s.subrange(0, pat.len() as int) == pat {
        rep + replace_spec(s.skip(pat.len() as int), pat, rep)
    } else {
        seq![s[0]] + replace_spec(s.skip(1), pat, rep)
    }
}

/// Whether `pat` occurs in `s` starting at index `at`.
fn region_eq(s: &Vec<char>, at: usize, pat: &Vec<char>) -> (r: bool)
    ensures
        r == (at + pat@.len() <= s@.len() && s@.subrange(at as int, at + pat@.len()) == pat@),
{
    if pat.len() > s.len() || at > s.len() - pat.len() {
        return false;
    }
    let pn = pat.len();
    let slen = s.len();
    for j in 0..pn
        invariant
            pn == pat@.len(),
            at + pn <= s@.len(),
            s@.len() == slen as int,
            forall|k: int| 0 <= k < j ==> s@[at + k] == pat@[k],
    {
        if s[at + j] != pat[j] {
            proof {
                assert(s@.subrange(at as int, at + pat@.len())[j as int] == s@[at + j]);
            }
            return false;
        }
    }
    proof {
        assert(s@.subrange(at as int, at + pat@.len()) =~= pat@);
    }
    true
}

/// Push every character of `src` onto `out`.
fn extend_chars(out: &mut Vec<char>, src: &Vec<char>)
    ensures
        final(out)@ == old(out)@ + src@,
{
    let n = src.len();
    for j in 0..n
        invariant
            n == src@.len(),
            out@ == old(out)@ + src@.take(j as int),
    {
        out.push(src[j]);
        assert(src@.take(j + 1) =~= src@.take(j as int).push(src@[j as int]));
        assert(out@ =~= old(out)@ + src@.take(j + 1));
    }
    assert(src@.take(n as int) =~= src@);
}

/// Replace every (leftmost, non-overlapping) occurrence of `pat` in `s`
/// by `rep`.
pub fn replace_all(s: &str, pat: &str, rep: &str) -> (r: String)
    requires
        pat@.len() > 0,
    ensures
        r@ == replace_spec(s@, pat@, rep@),
{
    let sv = to_char_vec(s);
    let pv = to_char_vec(pat);
    let rv = to_char_vec(rep);
    let mut out: Vec<char> = Vec::new();
    let mut i: usize = 0;
    proof {
        assert(s@.skip(0) =~= s@);
    }
    while i < sv.len()
        invariant
            sv@ == s@,
            pv@ == pat@,
            rv@ == rep@,
            pat@.len() > 0,
            i <= sv@.len(),
            replace_spec(s@, pat@, rep@) =~= out@ + replace_spec(s@.skip(i as int), pat@, rep@),
        decreases sv@.len() - i,
    {
        let ghost here = replace_spec(s@.skip(i as int), pat@, rep@);
        if region_eq(&sv, i, &pv) {
            proof {
                assert(s@.skip(i as int).subrange(0, pat@.len() as int) =~= s@.subrange(
                    i as int,
                    i + pat@.len(),
                ));
                assert(s@.skip(i as int).skip(pat@.len() as int) =~= s@.skip(i + pat@.len()));
                assert(here =~= rep@ + replace_spec(s@.skip(i + pat@.len()), pat@, rep@));
            }
            extend_chars(&mut out, &rv);
            i = i + pv.len();
        } else {
            proof {
                if i + pat@.len() <= s@.len() {
                    assert(s@.skip(i as int).subrange(0, pat@.len() as int) =~= s@.subrange(
                        i as int,
                        i + pat@.len(),
                    ));
                }
                assert(s@.skip(i as int).skip(1) =~= s@.skip(i + 1));
                assert(s@.skip(i as int)[0] == s@[i as int]);
                assert(here =~= seq![s@[i as int]] + replace_spec(s@.skip(i + 1), pat@, rep@));
            }
            out.push(sv[i]);
            i = i + 1;
        }
    }
    proof {
        assert(s@.skip(sv@.len() as int) =~= Seq::<char>::empty());
        assert(replace_spec(s@, pat@, rep@) =~= out@);
    }
    from_char_vec(&out)
}

/// `s` with every single and double quote removed.
pub open spec fn without_quotes(s: Seq<char>) -> Seq<char>
    decreases s.len(),
{
    if s.len() == 0 {
        Seq::<char>::empty()
    } else if s[0] == '\'' || s[0] == '"' {
        without_quotes(s.skip(1))
    } else {
        seq![s[0]] + without_quotes(s.skip(1))
    }
}

/// Remove every single and double quote from `s`.
pub fn strip_quotes(s: &str) -> (r: String)
    ensures
        r@ == without_quotes(s@),
{
    let sv = to_char_vec(s);
    let n = sv.len();
    let mut out: Vec<char> = Vec::new();
    proof {
        assert(s@.skip(0) =~= s@);
    }
    for i in 0..n
        invariant
            n == s@.len(),
            sv@ == s@,
            without_quotes(s@) =~= out@ + without_quotes(s@.skip(i as int)),
    {
        proof {
            assert(s@.skip(i as int).skip(1) =~= s@.skip(i + 1));
            assert(s@.skip(i as int)[0] == s@[i as int]);
        }
        let c = sv[i];
        if c != '\'' && c != '"' {
            out.push(c);
        }
    }
    proof {
        assert(s@.skip(n as int) =~= Seq::<char>::empty());
        assert(without_quotes(s@) =~= out@);
    }
    from_char_vec(&out)
}

/// ASCII lower-casing of one character.
pub open spec fn lower_char(c: char) -> char {
    match c {
        'A' => 'a',
        'B' => 'b',
        'C' => 'c',
        'D' => 'd',
        'E' => 'e',
        'F' => 'f',
        'G' => 'g',
        'H' => 'h',
        'I' => 'i',
        'J' => 'j',
        'K' => 'k',
        'L' => 'l',
        'M' => 'm',
        'N' => 'n',
        'O' => 'o',
        'P' => 'p',
        'Q' => 'q',
        'R' => 'r',
        'S' => 's',
        'T' => 't',
        'U' => 'u',
        'V' => 'v',
        'W' => 'w',
        'X' => 'x',
        'Y' => 'y',
        'Z' => 'z',
        _ => c,
    }
}

/// ASCII lower-casing of a whole string.
pub open spec fn lower_spec(s: Seq<char>) -> Seq<char> {
    s.map_values(|c: char| lower_char(c))
}

/// ASCII lower-casing of one character, at run time.
pub fn lower_char_exec(c: char) -> (r: char)
    ensures
        r == lower_char(c),
{
    match c {
        'A' => 'a',
        'B' => 'b',
        'C' => 'c',
        'D' => 'd',
        'E' => 'e',
        'F' => 'f',
        'G' => 'g',
        'H' => 'h',
        'I' => 'i',
        'J' => 'j',
        'K' => 'k',
        'L' => 'l',
        'M' => 'm',
        'N' => 'n',
        'O' => 'o',
        'P' => 'p',
        'Q' => 'q',
        'R' => 'r',
        'S' => 's',
        'T' => 't',
        'U' => 'u',
        'V' => 'v',
        'W' => 'w',
        'X' => 'x',
        'Y' => 'y',
        'Z' => 'z',
        _ => c,
    }
}

/// Lower-case the ASCII letters of `s`.
pub fn ascii_lower(s: &str) -> (r: String)
    ensures
        r@ == lower_spec(s@),
{
    let sv = to_char_vec(s);
    let n = sv.len();
    let mut out: Vec<char> = Vec::new();
    for i in 0..n
        invariant
            n == s@.len(),
            sv@ == s@,
            out@ =~= lower_spec(s@.take(i as int)),
    {
        out.push(lower_char_exec(sv[i]));
        proof {
            assert(s@.take(i + 1) =~= s@.take(i as int).push(s@[i as int]));
            assert(lower_spec(s@.take(i + 1)) =~= lower_spec(s@.take(i as int)).push(
                lower_char(s@[i as int]),
            ));
        }
    }
    proof {
        assert(s@.take(n as int) =~= s@);
        assert(out@ =~= lower_spec(s@));
    }
    from_char_vec(&out)
}

/// The index of the last occurrence of `c` in `s`, or `-1` if it does
/// not occur.
pub open spec fn last_index_of_char(s: Seq<char>, c: char) -> int
    decreases s.len(),
{
    if s.len() == 0 {
        -1
    } else if s[s.len() - 1] == c {
        s.len() - 1
    } else {
        last_index_of_char(s.take(s.len() - 1), c)
    }
}

pub proof fn lemma_last_index_of_char(s: Seq<char>, c: char)
    ensures
        -1 <= last_index_of_char(s, c) < s.len(),
        last_index_of_char(s, c) >= 0 ==> s[last_index_of_char(s, c)] == c,
        last_index_of_char(s, c) >= 0 ==> forall|j: int|
            last_index_of_char(s, c) < j < s.len() ==> s[j] != c,
        last_index_of_char(s, c) == -1 ==> forall|j: int| 0 <= j < s.len() ==> s[j] != c,
    decreases s.len(),
{
    if s.len() == 0 {
    } else if s[s.len() - 1] == c {
    } else {
        lemma_last_index_of_char(s.take(s.len() - 1), c);
        assert(forall|j: int|
            0 <= j < s.len() - 1 ==> s[j] == s.take(s.len() - 1)[j]);
    }
}

/// The index of the last occurrence of `c` in `s`, if any.
pub fn rfind_char(s: &str, c: char) -> (r: Option<usize>)
    ensures
        match r {
            Some(i) => last_index_of_char(s@, c) == i as int,
            None => last_index_of_char(s@, c) == -1,
        },
{
    let sv = to_char_vec(s);
    let mut i = sv.len();
    proof {
        assert(s@.take(sv@.len() as int) =~= s@);
    }
    while i > 0
        invariant
            sv@ == s@,
            i <= s@.len(),
            last_index_of_char(s@, c) == last_index_of_char(s@.take(i as int), c),
        decreases i,
    {
        i = i - 1;
        if sv[i] == c {
            proof {
                assert(s@.take(i + 1)[i as int] == s@[i as int]);
            }
            return Some(i);
        }
        proof {
            assert(s@.take(i + 1)[i as int] == s@[i as int]);
            assert(s@.take(i + 1).take(i as int) =~= s@.take(i as int));
        }
    }
    proof {
        assert(s@.take(0) =~= Seq::<char>::empty());
    }
    None
}

/// The first `end` characters of `s`, as an owned string.
pub fn prefix_of(s: &str, end: usize) -> (r: String)
    requires
        end <= s@.len(),
    ensures
        r@ == s@.take(end as int),
{
    let cs = to_char_vec(s);
    let mut out: Vec<char> = Vec::new();
    for i in 0..end
        invariant
            end <= s@.len(),
            cs@ == s@,
            out@ == s@.take(i as int),
    {
        out.push(cs[i]);
        assert(s@.take(i + 1) =~= s@.take(i as int).push(s@[i as int]));
    }
    from_char_vec(&out)
}

/// The items joined by `sep`: nothing for no items, and no leading or
/// trailing separator otherwise.
pub open spec fn join_spec(items: Seq<Seq<char>>, sep: Seq<char>) -> Seq<char>
    decreases items.len(),
{
    if items.len() == 0 {
        Seq::<char>::empty()
    } else if items.len() == 1 {
        items[0]
    } else {
        items[0] + sep + join_spec(items.skip(1), sep)
    }
}

pub proof fn lemma_join_push(items: Seq<Seq<char>>, sep: Seq<char>, x: Seq<char>)
    ensures
        items.len() == 0 ==> join_spec(items.push(x), sep) == x,
        items.len() > 0 ==> join_spec(items.push(x), sep) =~= join_spec(items, sep) + sep + x,
    decreases items.len(),
{
    let pushed = items.push(x);
    if items.len() == 0 {
        assert(pushed.len() == 1);
        assert(pushed[0] == x);
    } else if items.len() == 1 {
        assert(pushed.skip(1) =~= seq![x]);
        assert(join_spec(seq![x], sep) == x);
        assert(join_spec(pushed, sep) == pushed[0] + sep + join_spec(pushed.skip(1), sep));
        assert(join_spec(pushed, sep) =~= items[0] + sep + x);
    } else {
        assert(pushed.skip(1) =~= items.skip(1).push(x));
        lemma_join_push(items.skip(1), sep, x);
        assert(join_spec(pushed, sep) =~= items[0] + sep + join_spec(items.skip(1), sep) + sep
            + x);
        assert(join_spec(items, sep) + sep + x =~= items[0] + sep + join_spec(items.skip(1), sep)
            + sep + x);
    }
}

/// Whether some entry of `v` has exactly the characters of `x`.
pub fn vec_contains_str(v: &Vec<String>, x: &str) -> (r: bool)
    ensures
        r == v.deep_view().contains(x@),
{
    let n = v.len();
    for i in 0..n
        invariant
            n == v@.len(),
            forall|j: int| 0 <= j < i ==> v.deep_view()[j] != x@,
    {
        if str_eq(v[i].as_str(), x) {
            proof {
                assert(v.deep_view()[i as int] == x@);
            }
            return true;
        }
        proof {
            assert(v.deep_view()[i as int] == v@[i as int]@);
        }
    }
    proof {
        assert(forall|j: int| 0 <= j < v.deep_view().len() ==> v.deep_view()[j] != x@);
    }
    false
}

} // verus!
