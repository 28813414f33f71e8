//! Small text operations on `str` and `String`, stated over their characters.
use vstd::prelude::*;

verus! {

/// A text without its leading white space.
pub open spec fn trim_start(s: Seq<char>) -> Seq<char>
    decreases s.len(),
{
    if s.len() > 0 && is_ws(s[0]) {
        trim_start(s.drop_first())
    } else {
        s
    }
}

/// A text without its trailing white space.
pub open spec fn trim_end(s: Seq<char>) -> Seq<char>
    decreases s.len(),
{
    if s.len() > 0 && is_ws(s.last()) {
        trim_end(s.drop_last())
    } else {
        s
    }
}

/// What `str::trim` gives for a text: the text without its leading and
/// trailing white space (the Unicode `White_Space` property).
pub open spec fn spec_trim(s: Seq<char>) -> Seq<char> {
    trim_end(trim_start(s))
}

/// What `str::to_uppercase` gives for a text that holds a character beyond
/// ASCII.
pub uninterp spec fn spec_unicode_uppercase(s: Seq<char>) -> Seq<char>;

/// Whether every character of a text is ASCII.
pub open spec fn is_ascii(s: Seq<char>) -> bool {
    forall|i: int| 0 <= i < s.len() ==> (#[trigger] s[i] as u32) < 128
}

/// A character with an ASCII lower-case letter raised.
pub open spec fn upper_ch(c: char) -> char {
    if 97 <= (c as u32) && (c as u32) <= 122 {
        ((c as u32) - 32) as char
    } else {
        c
    }
}

/// A text with its ASCII lower-case letters raised, other characters kept.
pub open spec fn spec_ascii_uppercase(s: Seq<char>) -> Seq<char> {
    s.map_values(|c: char| upper_ch(c))
}

/// What `str::to_uppercase` gives for a text: for ASCII text the letters
/// `a` to `z` raised to `A` to `Z` and every other character kept (their
/// Unicode upper-case mappings), for other text a named result.
pub open spec fn spec_to_uppercase(s: Seq<char>) -> Seq<char> {
    if is_ascii(s) {
        spec_ascii_uppercase(s)
    } else {
        spec_unicode_uppercase(s)
    }
}

/// What `str::to_lowercase` gives for a text.
pub uninterp spec fn spec_to_lowercase(s: Seq<char>) -> Seq<char>;

/// Calls `str::trim`, which removes leading and trailing white space as
/// Unicode's `White_Space` property defines it.
#[verifier::external_body]
pub(crate) fn str_trim(s: &str) -> (r: &str)
    ensures
        r@ == spec_trim(s@),
{
    s.trim()
}

/// Calls `str::to_uppercase`: on ASCII text it raises `a` to `z` and keeps
/// every other character; on other text the contract names its result.
#[verifier::external_body]
pub(crate) fn str_to_uppercase(s: &str) -> (r: String)
    ensures
        r@ == spec_to_uppercase(s@),
        !is_ascii(s@) ==> r@ == spec_unicode_uppercase(s@),
{
    s.to_uppercase()
}

/// Calls `str::to_lowercase`; the contract names its result.
#[verifier::external_body]
pub(crate) fn str_to_lowercase(s: &str) -> (r: String)
    ensures
        r@ == spec_to_lowercase(s@),
{
    s.to_lowercase()
}

/// Calls `String::push`, which appends one character.
#[verifier::external_body]
pub(crate) fn string_push(s: &mut String, c: char)
    ensures
        final(s)@ == old(s)@.push(c),
{
    s.push(c)
}

/// The characters of a text.
pub fn chars_of(s: &str) -> (v: Vec<char>)
    ensures
        v@ == s@,
{
    let n = s.unicode_len();
    let mut v: Vec<char> = Vec::new();
    let mut i: usize = 0;
    while i < n
        invariant
            n == s@.len(),
            i <= n,
            v@ == s@.subrange(0, i as int),
        decreases n - i,
    {
        let c = s.get_char(i);
        v.push(c);
        i = i + 1;
        assert(v@ =~= s@.subrange(0, i as int));
    }
    assert(v@ =~= s@);
    v
}

/// A text made of the given characters.
pub fn string_from_chars(v: &[char]) -> (s: String)
    ensures
        s@ == v@,
{
    let mut s = String::new();
    let mut i: usize = 0;
    while i < v.len()
        invariant
            i <= v@.len(),
            s@ == v@.subrange(0, i as int),
        decreases v@.len() - i,
    {
        string_push(&mut s, v[i]);
        i = i + 1;
        assert(s@ =~= v@.subrange(0, i as int));
    }
    assert(s@ =~= v@);
    s
}

/// Appends a text to a `String`.
pub fn push_str(s: &mut String, t: &str)
    ensures
        final(s)@ == old(s)@ + t@,
{
    let v = chars_of(t);
    let mut i: usize = 0;
    while i < v.len()
        invariant
            i <= v@.len(),
            v@ == t@,
            s@ == old(s)@ + t@.subrange(0, i as int),
        decreases v@.len() - i,
    {
        string_push(s, v[i]);
        i = i + 1;
        assert(s@ =~= old(s)@ + t@.subrange(0, i as int));
    }
    assert(t@.subrange(0, v@.len() as int) =~= t@);
}

/// A copy of a text as a `String`.
pub fn to_owned(t: &str) -> (s: String)
    ensures
        s@ == t@,
{
    let mut s = String::new();
    push_str(&mut s, t);
    assert(s@ =~= t@);
    s
}

/// The code of a character with ASCII letters folded to lower case.
pub open spec fn ascii_lower(c: char) -> u32 {
    let x = c as u32;
    if 65 <= x && x <= 90 {
        (x + 32) as u32
    } else {
        x
    }
}

pub fn ascii_lower_char(c: char) -> (r: u32)
    ensures
        r == ascii_lower(c),
{
    let x = c as u32;
    if 65 <= x && x <= 90 {
        x + 32
    } else {
        x
    }
}

/// A character with an ASCII upper-case letter lowered.
pub open spec fn lower_ch(c: char) -> char {
    if 65 <= (c as u32) && (c as u32) <= 90 {
        ((c as u32) + 32) as char
    } else {
        c
    }
}

/// A text with its ASCII upper-case letters lowered, other characters kept.
pub open spec fn spec_ascii_lowercase(s: Seq<char>) -> Seq<char> {
    s.map_values(|c: char| lower_ch(c))
}

/// The code of a lowered character is the lowered code.
pub proof fn lemma_lower_ch_code(c: char)
    ensures
        lower_ch(c) as u32 == ascii_lower(c),
{
    let x = c as u32;
    if 65 <= x && x <= 90 {
        let y = (x + 32) as u32;
        assert(((y as char) as u32) == y);
    }
}

/// `str::to_ascii_lowercase`: the text with its ASCII upper-case letters
/// lowered.
pub fn ascii_lowercase(s: &str) -> (r: String)
    ensures
        r@ == spec_ascii_lowercase(s@),
{
    let v = chars_of(s);
    let mut out = String::new();
    let mut i: usize = 0;
    while i < v.len()
        invariant
            v@ == s@,
            i <= v@.len(),
            out@ == spec_ascii_lowercase(v@.subrange(0, i as int)),
        decreases v@.len() - i,
    {
        let c = v[i];
        let x = c as u32;
        let ghost before = out@;
        if 65 <= x && x <= 90 {
            let l = ((x + 32) as u8) as char;
            assert(l == lower_ch(c));
            string_push(&mut out, l);
        } else {
            string_push(&mut out, c);
        }
        assert(spec_ascii_lowercase(v@.subrange(0, i + 1)) =~= spec_ascii_lowercase(v@.subrange(0, i as int)).push(
            lower_ch(c),
        ));
        i = i + 1;
    }
    assert(v@.subrange(0, v@.len() as int) =~= v@);
    out
}

/// Equality of two texts with ASCII letters compared without case.
pub open spec fn spec_eq_ignore_ascii_case(a: Seq<char>, b: Seq<char>) -> bool {
    a.len() == b.len() && forall|i: int| 0 <= i < a.len() ==> ascii_lower(a[i]) == ascii_lower(b[i])
}

/// `str::eq_ignore_ascii_case`.
pub fn eq_ignore_ascii_case(a: &str, b: &str) -> (r: bool)
    ensures
        r == spec_eq_ignore_ascii_case(a@, b@),
{
    let x = chars_of(a);
    let y = chars_of(b);
    if x.len() != y.len() {
        return false;
    }
    let mut i: usize = 0;
    while i < x.len()
        invariant
            x@ == a@,
            y@ == b@,
            x@.len() == y@.len(),
            i <= x@.len(),
            forall|j: int| 0 <= j < i ==> ascii_lower(x@[j]) == ascii_lower(y@[j]),
        decreases x@.len() - i,
    {
        if ascii_lower_char(x[i]) != ascii_lower_char(y[i]) {
            return false;
        }
        i = i + 1;
    }
    true
}

/// Equality of two texts.
pub fn str_eq(a: &str, b: &str) -> (r: bool)
    ensures
        r == (a@ == b@),
{
    let x = chars_of(a);
    let y = chars_of(b);
    if x.len() != y.len() {
        return false;
    }
    let mut i: usize = 0;
    while i < x.len()
        invariant
            x@ == a@,
            y@ == b@,
            x@.len() == y@.len(),
            i <= x@.len(),
            forall|j: int| 0 <= j < i ==> x@[j] == y@[j],
        decreases x@.len() - i,
    {
        if x[i] != y[i] {
            return false;
        }
        i = i + 1;
    }
    assert(x@ =~= y@);
    true
}

/// Position of the first occurrence of `pat` in `s` at or after `from`.
pub open spec fn occurs_at(s: Seq<char>, pat: Seq<char>, i: int) -> bool {
    0 <= i && i + pat.len() <= s.len() && s.subrange(i, i + pat.len()) == pat
}

/// Whether `pat` occurs in `s` at position `i`.
pub fn occurs_at_exec(s: &Vec<char>, pat: &Vec<char>, i: usize) -> (r: bool)
    ensures
        r == occurs_at(s@, pat@, i as int),
{
    if i > s.len() || pat.len() > s.len() - i {
        return false;
    }
    let mut k: usize = 0;
    while k < pat.len()
        invariant
            i + pat@.len() <= s@.len(),
            i <= s@.len(),
            s@.len() == s.len(),
            k <= pat@.len(),
            forall|j: int| 0 <= j < k ==> s@[i + j] == pat@[j],
        decreases pat@.len() - k,
    {
        if s[i + k] != pat[k] {
            assert(s@.subrange(i as int, i + pat@.len())[k as int] != pat@[k as int]);
            return false;
        }
        k = k + 1;
    }
    assert(s@.subrange(i as int, i + pat@.len()) =~= pat@);
    true
}

/// The first position at or after `k` of the character `c`.
pub open spec fn first_index(s: Seq<char>, c: char, k: nat) -> Option<nat>
    decreases s.len() - k,
{
    if k >= s.len() {
        None
    } else if s[k as int] == c {
        Some(k)
    } else {
        first_index(s, c, k + 1)
    }
}

/// The text before and after the first `c`, where there is one.
pub open spec fn spec_split_once(s: Seq<char>, c: char) -> Option<(Seq<char>, Seq<char>)> {
    match first_index(s, c, 0) {
        Some(i) => Some((s.subrange(0, i as int), s.subrange(i + 1 as int, s.len() as int))),
        None => None,
    }
}

pub proof fn lemma_first_index_bound(s: Seq<char>, c: char, k: nat)
    ensures
        first_index(s, c, k) matches Some(i) ==> k <= i < s.len() && s[i as int] == c,
    decreases s.len() - k,
{
    if k < s.len() && s[k as int] != c {
        lemma_first_index_bound(s, c, k + 1);
    }
}

proof fn lemma_first_index_at(s: Seq<char>, c: char, k: nat, n: nat)
    requires
        k <= n < s.len(),
        s[n as int] == c,
        forall|j: int| k <= j < n ==> s[j] != c,
    ensures
        first_index(s, c, k) == Some(n),
    decreases n - k,
{
    if k < n {
        lemma_first_index_at(s, c, k + 1, n);
    }
}

/// Splitting `a`, `c` and `b` joined, where `a` holds no `c`, at the first
/// `c` gives back `a` and `b`.
pub proof fn lemma_split_once_join(a: Seq<char>, c: char, b: Seq<char>)
    requires
        !a.contains(c),
    ensures
        spec_split_once(a + seq![c] + b, c) == Some((a, b)),
{
    let s = a + seq![c] + b;
    assert forall|j: int| 0 <= j < a.len() implies s[j] != c by {
        assert(s[j] == a[j]);
    }
    lemma_first_index_at(s, c, 0, a.len());
    assert(s.subrange(0, a.len() as int) =~= a);
    assert(s.subrange(a.len() + 1int, s.len() as int) =~= b);
}

/// `str::split_once` with a character pattern.
pub fn split_once_char(s: &str, c: char) -> (r: Option<(String, String)>)
    ensures
        r is Some <==> spec_split_once(s@, c) is Some,
        r matches Some(p) ==> spec_split_once(s@, c) == Some((p.0@, p.1@)),
{
    let v = chars_of(s);
    let mut i: usize = 0;
    while i < v.len()
        invariant
            i <= v@.len(),
            v@ == s@,
            first_index(s@, c, 0) == first_index(s@, c, i as nat),
        decreases v@.len() - i,
    {
        if v[i] == c {
            let mut a: Vec<char> = Vec::new();
            let mut k: usize = 0;
            while k < i
                invariant
                    k <= i,
                    i < v@.len(),
                    a@ == v@.subrange(0, k as int),
                decreases i - k,
            {
                a.push(v[k]);
                k = k + 1;
                assert(a@ =~= v@.subrange(0, k as int));
            }
            let mut b: Vec<char> = Vec::new();
            let mut k: usize = i + 1;
            while k < v.len()
                invariant
                    i + 1 <= k <= v@.len(),
                    b@ == v@.subrange(i + 1, k as int),
                decreases v@.len() - k,
            {
                b.push(v[k]);
                k = k + 1;
                assert(b@ =~= v@.subrange(i + 1, k as int));
            }
            return Some((string_from_chars(a.as_slice()), string_from_chars(b.as_slice())));
        }
        i = i + 1;
    }
    None
}

/// The text after the first occurrence of `pat`, or the whole text where it
/// does not occur.
pub open spec fn spec_after_first(s: Seq<char>, pat: Seq<char>) -> Seq<char> {
    if exists|i: int| occurs_at(s, pat, i) {
        let i = choose|i: int| occurs_at(s, pat, i) && forall|j: int| 0 <= j < i ==> !occurs_at(s, pat, j);
        s.subrange(i + pat.len(), s.len() as int)
    } else {
        s
    }
}

fn tail_from(v: &Vec<char>, start: usize) -> (r: String)
    requires
        start <= v@.len(),
    ensures
        r@ == v@.subrange(start as int, v@.len() as int),
{
    let mut out: Vec<char> = Vec::new();
    let mut k: usize = start;
    while k < v.len()
        invariant
            start <= k <= v@.len(),
            out@ == v@.subrange(start as int, k as int),
        decreases v@.len() - k,
    {
        out.push(v[k]);
        k = k + 1;
        assert(out@ =~= v@.subrange(start as int, k as int));
    }
    string_from_chars(out.as_slice())
}

proof fn lemma_first_occurrence(s: Seq<char>, pat: Seq<char>, i: int)
    requires
        occurs_at(s, pat, i),
        forall|j: int| 0 <= j < i ==> !occurs_at(s, pat, j),
    ensures
        spec_after_first(s, pat) == s.subrange(i + pat.len(), s.len() as int),
{
    let w = choose|k: int| occurs_at(s, pat, k) && forall|j: int| 0 <= j < k ==> !occurs_at(s, pat, j);
    assert(occurs_at(s, pat, w) && forall|j: int| 0 <= j < w ==> !occurs_at(s, pat, j));
    if w < i {
        assert(!occurs_at(s, pat, w));
    } else if w > i {
        assert(!occurs_at(s, pat, i));
    }
}

/// The text after the first occurrence of `pat`, or the whole text.
pub fn after_first(s: &str, pat: &str) -> (r: String)
    ensures
        r@ == spec_after_first(s@, pat@),
{
    let v = chars_of(s);
    let p = chars_of(pat);
    let mut i: usize = 0;
    while i < v.len()
        invariant
            i <= v@.len(),
            v@ == s@,
            p@ == pat@,
            forall|j: int| 0 <= j < i ==> !occurs_at(s@, pat@, j),
        decreases v@.len() - i,
    {
        if occurs_at_exec(&v, &p, i) {
            proof {
                lemma_first_occurrence(s@, pat@, i as int);
            }
            return tail_from(&v, i + p.len());
        }
        i = i + 1;
    }
    if occurs_at_exec(&v, &p, i) {
        proof {
            lemma_first_occurrence(s@, pat@, i as int);
        }
        return tail_from(&v, i + p.len());
    }
    assert forall|j: int| occurs_at(s@, pat@, j) implies false by {
        assert(0 <= j && j + pat@.len() <= s@.len());
    }
    assert(v@.subrange(0, v@.len() as int) =~= v@);
    tail_from(&v, 0)
}

/// Whether a character is white space in the sense of `char::is_whitespace`:
/// the Unicode `White_Space` property.
pub open spec fn is_ws(c: char) -> bool {
    let x = c as u32;
    (0x9 <= x <= 0xd) || x == 0x20 || x == 0x85 || x == 0xa0 || x == 0x1680 || (0x2000 <= x <= 0x200a)
        || x == 0x2028 || x == 0x2029 || x == 0x202f || x == 0x205f || x == 0x3000
}

/// Whether a character is white space.
pub fn is_whitespace(c: char) -> (r: bool)
    ensures
        r == is_ws(c),
{
    let x = c as u32;
    (0x9 <= x && x <= 0xd) || x == 0x20 || x == 0x85 || x == 0xa0 || x == 0x1680 || (0x2000 <= x && x
        <= 0x200a) || x == 0x2028 || x == 0x2029 || x == 0x202f || x == 0x205f || x == 0x3000
}

/// The words finished so far and the word being read, after reading a text
/// from the left.
pub open spec fn ws_state(s: Seq<char>) -> (Seq<Seq<char>>, Seq<char>)
    decreases s.len(),
{
    if s.len() == 0 {
        (Seq::empty(), Seq::empty())
    } else {
        let (words, cur) = ws_state(s.drop_last());
        if is_ws(s.last()) {
            if cur.len() > 0 {
                (words.push(cur), Seq::empty())
            } else {
                (words, Seq::empty())
            }
        } else {
            (words, cur.push(s.last()))
        }
    }
}

/// The words of a text: the maximal runs of characters that are not white
/// space, in order, as `str::split_whitespace` gives them.
pub open spec fn spec_split_whitespace(s: Seq<char>) -> Seq<Seq<char>> {
    let (words, cur) = ws_state(s);
    if cur.len() > 0 {
        words.push(cur)
    } else {
        words
    }
}

/// The views of a list of strings.
pub open spec fn strings_view(v: Seq<String>) -> Seq<Seq<char>> {
    v.map_values(|w: String| w@)
}

/// The words of a text.
pub fn split_whitespace(s: &str) -> (r: Vec<String>)
    ensures
        strings_view(r@) == spec_split_whitespace(s@),
{
    let v = chars_of(s);
    let n = v.len();
    let mut words: Vec<String> = Vec::new();
    let mut cur: Vec<char> = Vec::new();
    let mut i: usize = 0;
    assert(strings_view(words@) =~= Seq::<Seq<char>>::empty());
    assert(s@.subrange(0, 0) =~= Seq::<char>::empty());
    while i < n
        invariant
            n == v@.len(),
            v@ == s@,
            i <= n,
            ws_state(s@.subrange(0, i as int)) == (strings_view(words@), cur@),
        decreases n - i,
    {
        assert(s@.subrange(0, i + 1).drop_last() =~= s@.subrange(0, i as int));
        let c = v[i];
        if is_whitespace(c) {
            if cur.len() > 0 {
                let ghost before = strings_view(words@);
                let w = string_from_chars(cur.as_slice());
                words.push(w);
                assert(strings_view(words@) =~= before.push(cur@));
                cur = Vec::new();
            }
        } else {
            cur.push(c);
        }
        i = i + 1;
        assert(cur@ == ws_state(s@.subrange(0, i as int)).1);
    }
    assert(s@.subrange(0, n as int) =~= s@);
    if cur.len() > 0 {
        let ghost before = strings_view(words@);
        let w = string_from_chars(cur.as_slice());
        words.push(w);
        assert(strings_view(words@) =~= before.push(cur@));
    }
    words
}

/// Every occurrence of a non-empty `pat` replaced by `rep`, occurrences found
/// from the left and not overlapping, as `str::replace` does.
pub open spec fn spec_replace_all(s: Seq<char>, pat: Seq<char>, rep: Seq<char>) -> Seq<char>
    recommends
        pat.len() > 0,
    decreases s.len(),
{
    if pat.len() == 0 || s.len() < pat.len() {
        s
    } else if s.subrange(0, pat.len() as int) == pat {
        rep + spec_replace_all(s.subrange(pat.len() as int, s.len() as int), pat, rep)
    } else {
        seq![s[0]] + spec_replace_all(s.subrange(1, s.len() as int), pat, rep)
    }
}

/// Every occurrence of a non-empty `pat` replaced by `rep`.
pub fn replace_all(s: &str, pat: &str, rep: &str) -> (r: String)
    requires
        pat@.len() > 0,
    ensures
        r@ == spec_replace_all(s@, pat@, rep@),
{
    let v = chars_of(s);
    let p = chars_of(pat);
    let n = v.len();
    let m = p.len();
    let mut out = String::new();
    let mut i: usize = 0;
    assert(s@.subrange(0, n as int) =~= s@);
    assert(out@ + spec_replace_all(s@, pat@, rep@) =~= spec_replace_all(s@, pat@, rep@));
    while i < n
        invariant
            n == v@.len(),
            v@ == s@,
            p@ == pat@,
            m == p@.len(),
            m > 0,
            i <= n,
            out@ + spec_replace_all(s@.subrange(i as int, n as int), pat@, rep@) == spec_replace_all(s@, pat@, rep@),
        decreases n - i,
    {
        let ghost rest = s@.subrange(i as int, n as int);
        if n - i >= m && occurs_at_exec(&v, &p, i) {
            assert(rest.subrange(0, m as int) =~= s@.subrange(i as int, i + m));
            assert(rest.subrange(m as int, rest.len() as int) =~= s@.subrange(i + m, n as int));
            let ghost before = out@;
            push_str(&mut out, rep);
            i = i + m;
            assert(out@ + spec_replace_all(s@.subrange(i as int, n as int), pat@, rep@) =~= before + spec_replace_all(rest, pat@, rep@));
        } else {
            if n - i >= m {
                assert(rest.subrange(0, m as int) =~= s@.subrange(i as int, i + m));
                assert(rest.subrange(0, m as int) != pat@) by {
                    if rest.subrange(0, m as int) == pat@ {
                        assert forall|k: int| 0 <= k < m implies s@[i + k] == pat@[k] by {
                            assert(rest.subrange(0, m as int)[k] == s@[i + k]);
                        }
                    }
                }
                assert(rest.subrange(1, rest.len() as int) =~= s@.subrange(i + 1, n as int));
            } else {
                assert(spec_replace_all(rest, pat@, rep@) == rest);
                assert(spec_replace_all(s@.subrange(i + 1, n as int), pat@, rep@) == s@.subrange(i + 1, n as int));
                assert(rest =~= seq![rest[0]] + s@.subrange(i + 1, n as int));
            }
            let ghost before = out@;
            string_push(&mut out, v[i]);
            i = i + 1;
            assert(out@ + spec_replace_all(s@.subrange(i as int, n as int), pat@, rep@) =~= before + spec_replace_all(rest, pat@, rep@));
        }
    }
    assert(s@.subrange(n as int, n as int) =~= Seq::<char>::empty());
    assert(out@ =~= spec_replace_all(s@, pat@, rep@));
    out
}

} // verus!
